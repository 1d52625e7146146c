//! The blockchain: the accepted blocks and the accounts their transactions made.
use vstd::prelude::*;

use crate::account::{Account, AccountTable, AccountType, AccountView};
use crate::block::{sealed, Block, BlockView};
use crate::laws::{lemma_append_keeps_chain_valid, lemma_run_block_conserves_total};
use crate::text::{decimal, decimal_string, opt_chars, opt_string_eq, owned};
use crate::transaction::{execution, execution_overflows, Transaction, TransactionView};
use crate::world::{total_tokens, WorldState};

verus! {

/// The blocks of a chain, with their transactions and accounts.
#[derive(Clone, Debug)]
pub struct Blockchain {
    /// The accepted blocks, first block first.
    pub blocks: Vec<Block>,
    /// The accounts, by id.
    pub accounts: AccountTable,
    pending_transaction: Vec<Transaction>,
}

/// The abstract value of a chain: its blocks, its accounts and the
/// transactions that wait for a block.
pub struct BlockchainView {
    pub blocks: Seq<BlockView>,
    pub accounts: Map<Seq<char>, AccountView>,
    pub pending: Seq<TransactionView>,
}

/// The views of a list of blocks.
pub open spec fn blocks_view(bs: Seq<Block>) -> Seq<BlockView> {
    bs.map_values(|b: Block| b@)
}

/// The hash of the last block, or none for an empty chain.
pub open spec fn last_hash(bs: Seq<BlockView>) -> Option<Seq<char>> {
    if bs.len() == 0 {
        None
    } else {
        bs.last().hash
    }
}

/// Executes the transactions one after the other on `w`: the accounts after
/// the last one, or the position and error of the first that fails.
pub open spec fn run_block(w: Map<Seq<char>, AccountView>, txs: Seq<TransactionView>, initial: bool) -> Result<
    Map<Seq<char>, AccountView>,
    (nat, Seq<char>),
>
    decreases txs.len(),
{
    if txs.len() == 0 {
        Ok(w)
    } else {
        match run_block(w, txs.drop_last(), initial) {
            Ok(w1) => match execution(txs.last(), w1, initial) {
                Ok(w2) => Ok(w2),
                Err(e) => Err(((txs.len() - 1) as nat, e)),
            },
            Err(x) => Err(x),
        }
    }
}

/// Running the transactions reaches one whose arithmetic would overflow.
pub open spec fn run_block_overflows(
    w: Map<Seq<char>, AccountView>,
    txs: Seq<TransactionView>,
    initial: bool,
) -> bool
    decreases txs.len(),
{
    if txs.len() == 0 {
        false
    } else {
        run_block_overflows(w, txs.drop_last(), initial) || match run_block(
            w,
            txs.drop_last(),
            initial,
        ) {
            Ok(w1) => execution_overflows(txs.last(), w1, initial),
            Err(_) => false,
        }
    }
}

/// The error that names the failed transaction (counted from 1).
pub open spec fn transaction_failure_msg(i: nat, e: Seq<char>) -> Seq<char> {
    "Could not execute transaction "@ + decimal(i + 1) + " due to `"@ + e
        + "`. Rolling back (Code: mod.rs: 171)"@
}

/// The block passes the checks made before its transactions run.
pub open spec fn block_admissible(bs: Seq<BlockView>, b: BlockView) -> bool {
    &&& sealed(b)
    &&& b.prev_hash == last_hash(bs)
    &&& b.transactions.len() > 0
}

/// What appending block `b` to the chain `bs` with accounts `w` gives: the new
/// blocks and accounts, or the error that rejects the block.
pub open spec fn append_outcome(bs: Seq<BlockView>, w: Map<Seq<char>, AccountView>, b: BlockView) -> Result<
    (Seq<BlockView>, Map<Seq<char>, AccountView>),
    Seq<char>,
> {
    if !sealed(b) {
        Err("The block hash in mismatching! (code: mod.rs: 140)"@)
    } else if b.prev_hash != last_hash(bs) {
        Err("The new block has to point to the previous block (Code: mod.rs: 147)"@)
    } else if b.transactions.len() == 0 {
        Err("There has to be at least one transaction inside the block! (Code: mod.rs: 153)"@)
    } else {
        match run_block(w, b.transactions, bs.len() == 0) {
            Ok(w2) => Ok((bs.push(b), w2)),
            Err((i, e)) => Err(transaction_failure_msg(i, e)),
        }
    }
}

/// Appending `b` would run into an arithmetic overflow.
pub open spec fn append_overflows(bs: Seq<BlockView>, w: Map<Seq<char>, AccountView>, b: BlockView) -> bool {
    block_admissible(bs, b) && run_block_overflows(w, b.transactions, bs.len() == 0)
}

/// The error for the first signed transaction among the first `k` of block
/// `n` (counted from 0); signatures are never valid yet.
pub open spec fn signature_error(txs: Seq<TransactionView>, k: int, n: int) -> Option<Seq<char>>
    decreases k,
{
    if k <= 0 {
        None
    } else {
        match signature_error(txs, k - 1, n) {
            Some(e) => Some(e),
            None => if txs[k - 1].signature is Some {
                Some(
                    "Transaction #"@ + decimal(k as nat) + " for Block #"@ + decimal((n + 1) as nat)
                        + " has an invalid signature (Code: mod.rs: 245)"@,
                )
            } else {
                None
            },
        }
    }
}

/// The first problem with block `n` (counted from 0) of the chain `bs`.
pub open spec fn block_error(bs: Seq<BlockView>, n: int) -> Option<Seq<char>> {
    let b = bs[n];
    if !sealed(b) {
        Some(
            "Stored hash for Block #"@ + decimal((n + 1) as nat)
                + " does not match calculated hash (Code: mod.rs: 204)"@,
        )
    } else if n == 0 && b.prev_hash is Some {
        Some("The genesis block has a previous hash set which it shouldn't Code :mod.rs: 215"@)
    } else if n > 0 && b.prev_hash is None {
        Some("Block #"@ + decimal((n + 1) as nat) + " has no previous hash set"@)
    } else if n > 0 && b.prev_hash != bs[n - 1].hash {
        Some("Block #"@ + decimal((n + 1) as nat) + " is not connected to previous block"@)
    } else {
        signature_error(b.transactions, b.transactions.len() as int, n)
    }
}

/// The first problem among the first `k` blocks of the chain.
pub open spec fn chain_error(bs: Seq<BlockView>, k: int) -> Option<Seq<char>>
    decreases k,
{
    if k <= 0 {
        None
    } else {
        match chain_error(bs, k - 1) {
            Some(e) => Some(e),
            None => block_error(bs, k - 1),
        }
    }
}

/// Every block is sealed, the first points at nothing, each other block
/// points at the hash of the one before it, and no transaction is signed.
pub open spec fn chain_valid(bs: Seq<BlockView>) -> bool {
    chain_error(bs, bs.len() as int) is None
}

/// Running a prefix that overflows means running the whole list overflows.
proof fn lemma_overflow_prefix(
    w: Map<Seq<char>, AccountView>,
    txs: Seq<TransactionView>,
    initial: bool,
    k: int,
)
    requires
        0 <= k <= txs.len(),
        !run_block_overflows(w, txs, initial),
    ensures
        !run_block_overflows(w, txs.take(k), initial),
    decreases txs.len(),
{
    if k == txs.len() {
        assert(txs.take(k) == txs);
    } else {
        lemma_overflow_prefix(w, txs.drop_last(), initial, k);
        assert(txs.drop_last().take(k) == txs.take(k));
    }
}

/// A failure in a prefix is the failure of the whole list.
proof fn lemma_failure_prefix(
    w: Map<Seq<char>, AccountView>,
    txs: Seq<TransactionView>,
    initial: bool,
    k: int,
)
    requires
        0 <= k <= txs.len(),
        run_block(w, txs.take(k), initial) is Err,
    ensures
        run_block(w, txs, initial) == run_block(w, txs.take(k), initial),
    decreases txs.len(),
{
    if k == txs.len() {
        assert(txs.take(k) == txs);
    } else {
        assert(txs.drop_last().take(k) == txs.take(k));
        lemma_failure_prefix(w, txs.drop_last(), initial, k);
    }
}

/// Once a prefix of the chain has a problem, longer prefixes report the same one.
proof fn lemma_chain_error_persists(bs: Seq<BlockView>, k: int, k2: int)
    requires
        0 <= k <= k2,
        chain_error(bs, k) is Some,
    ensures
        chain_error(bs, k2) == chain_error(bs, k),
    decreases k2 - k,
{
    if k2 > k {
        lemma_chain_error_persists(bs, k, k2 - 1);
    }
}

/// Once a prefix of the transactions holds a signed one, longer prefixes
/// report the same one.
proof fn lemma_signature_error_persists(txs: Seq<TransactionView>, k: int, k2: int, n: int)
    requires
        0 <= k <= k2,
        signature_error(txs, k, n) is Some,
    ensures
        signature_error(txs, k2, n) == signature_error(txs, k, n),
    decreases k2 - k,
{
    if k2 > k {
        lemma_signature_error_persists(txs, k, k2 - 1, n);
    }
}

/// Once a prefix of the transactions fails, whether the run overflows is
/// decided by that prefix.
proof fn lemma_overflow_after_failure(
    w: Map<Seq<char>, AccountView>,
    txs: Seq<TransactionView>,
    initial: bool,
    k: int,
)
    requires
        0 <= k <= txs.len(),
        run_block(w, txs.take(k), initial) is Err,
    ensures
        run_block_overflows(w, txs, initial) == run_block_overflows(w, txs.take(k), initial),
    decreases txs.len(),
{
    if k == txs.len() {
        assert(txs.take(k) == txs);
    } else {
        assert(txs.drop_last().take(k) == txs.take(k));
        lemma_failure_prefix(w, txs.drop_last(), initial, k);
        lemma_overflow_after_failure(w, txs.drop_last(), initial, k);
    }
}

impl View for Blockchain {
    type V = BlockchainView;

    closed spec fn view(&self) -> BlockchainView {
        BlockchainView {
            blocks: blocks_view(self.blocks@),
            accounts: self.accounts@,
            pending: self.pending_transaction@.map_values(|t: Transaction| t@),
        }
    }
}

impl Blockchain {
    /// An empty chain with no accounts.
    pub fn new() -> (bc: Blockchain)
        ensures
            bc@.blocks == Seq::<BlockView>::empty(),
            bc@.accounts == Map::<Seq<char>, AccountView>::empty(),
            bc@.pending == Seq::<TransactionView>::empty(),
            chain_valid(bc@.blocks),
    {
        Blockchain { blocks: Vec::new(), accounts: AccountTable::new(), pending_transaction: Vec::new() }
    }

    /// The chain holds finitely many accounts.
    pub proof fn lemma_accounts_finite(&self)
        ensures
            self@.accounts.dom().finite(),
    {
        self.accounts.lemma_view_finite();
    }

    /// Whether appending `block` would add tokens past `u128::MAX` while its
    /// transactions run, which `append_block` must not be asked to do.
    pub fn append_would_overflow(&self, block: &Block) -> (r: bool)
        ensures
            r == append_overflows(self@.blocks, self@.accounts, block@),
    {
        if !block.verify_own_hash() {
            return false;
        }
        if !opt_string_eq(&block.prev_hash(), &self.get_last_block_hash()) {
            return false;
        }
        let n = block.get_transaction_count();
        if n == 0 {
            return false;
        }
        let is_genesis = self.len() == 0;
        let ghost w0 = self@.accounts;
        let ghost txs = block@.transactions;
        let mut scratch = self.accounts.clone();
        for i in 0..n
            invariant
                txs == block@.transactions,
                txs.len() == n,
                block_admissible(self@.blocks, block@),
                is_genesis == (self@.blocks.len() == 0),
                w0 == self@.accounts,
                run_block(w0, txs.take(i as int), is_genesis) == Ok::<
                    Map<Seq<char>, AccountView>,
                    (nat, Seq<char>),
                >(scratch@),
                !run_block_overflows(w0, txs.take(i as int), is_genesis),
        {
            proof {
                assert(txs.take(i + 1).drop_last() == txs.take(i as int));
                assert(txs.take(i + 1).last() == txs[i as int]);
            }
            let transaction = block.transaction(i);
            if transaction.would_overflow(&scratch, &is_genesis) {
                proof {
                    if !run_block_overflows(w0, txs, is_genesis) {
                        lemma_overflow_prefix(w0, txs, is_genesis, i + 1);
                    }
                }
                return true;
            }
            match transaction.execute(&mut scratch, &is_genesis) {
                Ok(()) => {},
                Err(_) => {
                    proof {
                        lemma_overflow_after_failure(w0, txs, is_genesis, i + 1);
                    }
                    return false;
                },
            }
        }
        proof {
            assert(txs.take(n as int) == txs);
        }
        false
    }

    /// Appends a block whose hash is sound, which points at the last block and
    /// whose transactions all execute; otherwise nothing changes and the
    /// error says why.
    pub fn append_block(&mut self, block: Block) -> (r: Result<(), String>)
        requires
            !append_overflows(old(self)@.blocks, old(self)@.accounts, block@),
        ensures
            match append_outcome(old(self)@.blocks, old(self)@.accounts, block@) {
                Ok((bs, w)) => r is Ok && final(self)@.blocks == bs && final(self)@.accounts == w
                    && final(self)@.pending == old(self)@.pending,
                Err(m) => r matches Err(e) && e@ == m && final(self)@ == old(self)@,
            },
            old(self)@.blocks.len() > 0 ==> total_tokens(final(self)@.accounts) == total_tokens(
                old(self)@.accounts,
            ),
            chain_valid(old(self)@.blocks) && (forall|i: int|
                0 <= i < block@.transactions.len() ==> #[trigger] block@.transactions[i].signature is None)
                ==> chain_valid(final(self)@.blocks),
    {
        let is_genesis = self.len() == 0;
        if !block.verify_own_hash() {
            return Err(owned("The block hash in mismatching! (code: mod.rs: 140)"));
        }
        if !opt_string_eq(&block.prev_hash(), &self.get_last_block_hash()) {
            return Err(owned("The new block has to point to the previous block (Code: mod.rs: 147)"));
        }
        if block.get_transaction_count() == 0 {
            return Err(
                owned(
                    "There has to be at least one transaction inside the block! (Code: mod.rs: 153)",
                ),
            );
        }
        let ghost w0 = self.accounts@;
        let ghost txs = block@.transactions;
        let old_state = self.accounts.clone();
        let n = block.get_transaction_count();
        for i in 0..n
            invariant
                txs == block@.transactions,
                txs.len() == n,
                block_admissible(old(self)@.blocks, block@),
                is_genesis == (old(self).blocks@.len() == 0),
                !run_block_overflows(w0, txs, is_genesis),
                old_state@ == w0,
                w0 == old(self)@.accounts,
                self.blocks@ == old(self).blocks@,
                self.pending_transaction@ == old(self).pending_transaction@,
                run_block(w0, txs.take(i as int), is_genesis) == Ok::<
                    Map<Seq<char>, AccountView>,
                    (nat, Seq<char>),
                >(self.accounts@),
        {
            proof {
                lemma_overflow_prefix(w0, txs, is_genesis, i + 1);
                assert(txs.take(i + 1).drop_last() == txs.take(i as int));
                assert(txs.take(i + 1).last() == txs[i as int]);
            }
            let outcome = block.transaction(i).execute(&mut self.accounts, &is_genesis);
            match outcome {
                Ok(()) => {},
                Err(err) => {
                    proof {
                        lemma_failure_prefix(w0, txs, is_genesis, i + 1);
                    }
                    self.accounts = old_state;
                    let mut msg = owned("Could not execute transaction ");
                    msg.append(decimal_string((i + 1) as u128).as_str());
                    msg.append(" due to `");
                    msg.append(err);
                    msg.append("`. Rolling back (Code: mod.rs: 171)");
                    return Err(msg);
                },
            }
        }
        proof {
            assert(txs.take(n as int) == txs);
            if !is_genesis {
                old_state.lemma_view_finite();
                lemma_run_block_conserves_total(w0, txs);
            }
        }
        let ghost appended = block@;
        self.blocks.push(block);
        assert(self@.blocks == old(self)@.blocks.push(appended));
        proof {
            if chain_valid(old(self)@.blocks) && (forall|i: int|
                0 <= i < appended.transactions.len() ==> #[trigger] appended.transactions[i].signature is None) {
                lemma_append_keeps_chain_valid(old(self)@.blocks, appended);
            }
        }
        Ok(())
    }

    /// The hash of the last block, or `None` for an empty chain.
    pub fn get_last_block_hash(&self) -> (h: Option<String>)
        ensures
            opt_chars(h) == last_hash(self@.blocks),
    {
        if self.len() == 0 {
            return None;
        }
        self.blocks[self.len() - 1].hash()
    }

    /// The number of blocks.
    pub fn len(&self) -> (n: usize)
        ensures
            n == self@.blocks.len(),
    {
        self.blocks.len()
    }

    /// Checks the whole chain: each block's stored hash against its contents,
    /// the first block's missing link, each other block's link to the one
    /// before it, and the transactions' signatures.
    pub fn check_validity(&self) -> (r: Result<(), String>)
        ensures
            match chain_error(self@.blocks, self@.blocks.len() as int) {
                None => r is Ok,
                Some(m) => r matches Err(e) && e@ == m,
            },
    {
        let ghost bs = blocks_view(self.blocks@);
        let n = self.blocks.len();
        for block_num in 0..n
            invariant
                n == self.blocks@.len(),
                bs == blocks_view(self.blocks@),
                chain_error(bs, block_num as int) is None,
        {
            let block = &self.blocks[block_num];
            if !block.verify_own_hash() {
                let mut msg = owned("Stored hash for Block #");
                msg.append(decimal_string((block_num + 1) as u128).as_str());
                msg.append(" does not match calculated hash (Code: mod.rs: 204)");
                proof {
                    lemma_chain_error_persists(bs, block_num + 1, n as int);
                }
                return Err(msg);
            }
            let prev_hash = block.prev_hash();
            if block_num == 0 {
                if prev_hash.is_some() {
                    proof {
                        lemma_chain_error_persists(bs, block_num + 1, n as int);
                    }
                    return Err(
                        owned(
                            "The genesis block has a previous hash set which it shouldn't Code :mod.rs: 215",
                        ),
                    );
                }
            } else {
                if prev_hash.is_none() {
                    let mut msg = owned("Block #");
                    msg.append(decimal_string((block_num + 1) as u128).as_str());
                    msg.append(" has no previous hash set");
                    proof {
                        lemma_chain_error_persists(bs, block_num + 1, n as int);
                    }
                    return Err(msg);
                }
                if !opt_string_eq(&prev_hash, &self.blocks[block_num - 1].hash()) {
                    let mut msg = owned("Block #");
                    msg.append(decimal_string((block_num + 1) as u128).as_str());
                    msg.append(" is not connected to previous block");
                    proof {
                        lemma_chain_error_persists(bs, block_num + 1, n as int);
                    }
                    return Err(msg);
                }
            }
            let m = block.get_transaction_count();
            assert(block_error(bs, block_num as int) == signature_error(
                block@.transactions,
                m as int,
                block_num as int,
            ));
            for transaction_num in 0..m
                invariant
                    chain_error(bs, block_num as int) is None,
                    block_error(bs, block_num as int) == signature_error(
                        block@.transactions,
                        m as int,
                        block_num as int,
                    ),
                    n == self.blocks@.len(),
                    block_num < n,
                    *block == self.blocks@[block_num as int],
                    bs == blocks_view(self.blocks@),
                    bs[block_num as int] == block@,
                    block@.transactions.len() == m,
                    signature_error(
                        bs[block_num as int].transactions,
                        transaction_num as int,
                        block_num as int,
                    ) is None,
            {
                let transaction = block.transaction(transaction_num);
                if transaction.is_signed() && !transaction.check_signature() {
                    let mut msg = owned("Transaction #");
                    msg.append(decimal_string((transaction_num + 1) as u128).as_str());
                    msg.append(" for Block #");
                    msg.append(decimal_string((block_num + 1) as u128).as_str());
                    msg.append(" has an invalid signature (Code: mod.rs: 245)");
                    proof {
                        lemma_signature_error_persists(
                            block@.transactions,
                            transaction_num + 1,
                            m as int,
                            block_num as int,
                        );
                        lemma_chain_error_persists(bs, block_num + 1, n as int);
                    }
                    return Err(msg);
                }
            }
        }
        Ok(())
    }
}

impl WorldState for Blockchain {
    type Rest = (Seq<BlockView>, Seq<TransactionView>);

    open spec fn world(&self) -> Map<Seq<char>, AccountView> {
        self@.accounts
    }

    open spec fn rest(&self) -> (Seq<BlockView>, Seq<TransactionView>) {
        (self@.blocks, self@.pending)
    }

    /// All registered user ids.
    fn get_user_ids(&self) -> (ids: Vec<String>) {
        self.accounts.ids()
    }

    /// The account with the given id, to be changed in place.
    fn get_account_by_id_mut(&mut self, id: &String) -> (r: Option<&mut Account>) {
        self.accounts.get_mut(id)
    }

    /// The account with the given id.
    fn get_account_by_id(&self, id: &String) -> (r: Option<&Account>) {
        self.accounts.get(id)
    }

    /// Adds a user account unless the id is taken.
    fn create_account(&mut self, id: String, account_type: AccountType) -> (r: Result<
        (),
        &'static str,
    >) {
        self.accounts.create_account(id, account_type)
    }
}

} // verus!
