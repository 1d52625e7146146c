//! Properties that relate the operations of the chain to one another.
use vstd::prelude::*;

use crate::account::{fresh_account, with_tokens, AccountType, AccountView};
use crate::block::{
    block_digest, block_message, concat_digests, link_text, seal, sealed, with_transaction,
    BlockView,
};
use crate::chain::{
    block_admissible, block_error, chain_error, chain_valid, last_hash, run_block,
    signature_error,
};
use crate::transaction::{execution, transaction_digest, TransactionData, TransactionView};
use crate::world::{creation, total_tokens, user_exists_msg};

verus! {

/// Sealing a block makes its own hash check pass: after `update_hash`, and so
/// after `add_transaction`, `verify_own_hash` returns `true`.
pub proof fn lemma_seal_verifies(b: BlockView)
    ensures
        sealed(seal(b)),
{
}

/// Sealing a sealed block changes nothing: the digest does not cover the
/// stored hash.
pub proof fn lemma_seal_idempotent(b: BlockView)
    ensures
        seal(seal(b)) == seal(b),
        block_digest(seal(b)) == block_digest(b),
{
}

/// A block that points at the chain's last hash and gets a transaction through
/// `add_transaction` passes the checks that `append_block` makes before
/// running its transactions.
pub proof fn lemma_built_block_admissible(bs: Seq<BlockView>, b: BlockView, t: TransactionView)
    requires
        b.prev_hash == last_hash(bs),
    ensures
        block_admissible(bs, seal(with_transaction(b, t))),
{
}

/// With no signed transaction among the first `k`, there is no signature error.
proof fn lemma_unsigned_no_signature_error(txs: Seq<TransactionView>, k: int, n: int)
    requires
        0 <= k <= txs.len(),
        forall|i: int| 0 <= i < txs.len() ==> #[trigger] txs[i].signature is None,
    ensures
        signature_error(txs, k, n) is None,
    decreases k,
{
    if k > 0 {
        lemma_unsigned_no_signature_error(txs, k - 1, n);
    }
}

/// Appending a block does not change what the check finds in the blocks before it.
proof fn lemma_chain_error_push(bs: Seq<BlockView>, b: BlockView, k: int)
    requires
        0 <= k <= bs.len(),
    ensures
        chain_error(bs.push(b), k) == chain_error(bs, k),
    decreases k,
{
    if k > 0 {
        lemma_chain_error_push(bs, b, k - 1);
        assert(bs.push(b)[k - 1] == bs[k - 1]);
        if k >= 2 {
            assert(bs.push(b)[k - 2] == bs[k - 2]);
        }
    }
}

/// The empty chain is valid.
pub proof fn lemma_empty_chain_valid()
    ensures
        chain_valid(Seq::<BlockView>::empty()),
{
}

/// `append_block` keeps a chain valid: a valid chain with a block that passed
/// the checks of `append_block` appended is valid again, provided the block
/// holds no signed transaction (none can be made yet).
pub proof fn lemma_append_keeps_chain_valid(bs: Seq<BlockView>, b: BlockView)
    requires
        chain_valid(bs),
        block_admissible(bs, b),
        forall|i: int| 0 <= i < b.transactions.len() ==> #[trigger] b.transactions[i].signature is None,
    ensures
        chain_valid(bs.push(b)),
{
    let n = bs.len() as int;
    let cs = bs.push(b);
    lemma_chain_error_push(bs, b, n);
    assert(cs[n] == b);
    if n > 0 {
        assert(cs[n - 1] == bs[n - 1]);
        assert(block_error(bs, n - 1) is None);
    }
    lemma_unsigned_no_signature_error(b.transactions, b.transactions.len() as int, n);
    assert(block_error(cs, n) is None);
}

/// After a block is appended, the chain's last hash is that block's hash.
pub proof fn lemma_append_sets_last_hash(bs: Seq<BlockView>, b: BlockView)
    requires
        sealed(b),
    ensures
        last_hash(bs.push(b)) == b.hash,
        last_hash(bs.push(b)) is Some,
{
}

/// An account id can be taken only once: after a creation succeeds, creating
/// the same id again fails, whatever the type.
pub proof fn lemma_create_twice_fails(
    w: Map<Seq<char>, AccountView>,
    id: Seq<char>,
    first: AccountType,
    second: AccountType,
)
    requires
        creation(w, id, first) is Ok,
    ensures
        creation(creation(w, id, first)->Ok_0, id, second) == Err::<
            Map<Seq<char>, AccountView>,
            Seq<char>,
        >(user_exists_msg()),
{
}

/// A transfer moves tokens from one owner to another: their total stays the
/// same and every other account is left as it was; a transfer to oneself
/// leaves every account as it was.
pub proof fn lemma_transfer_conserves_tokens(
    t: TransactionView,
    w: Map<Seq<char>, AccountView>,
    initial: bool,
)
    requires
        t.record is TransferTokens,
        execution(t, w, initial) is Ok,
    ensures
        ({
            let w2 = execution(t, w, initial)->Ok_0;
            let to = t.record->to@;
            &&& w2.dom() == w.dom()
            &&& to == t.from ==> w2 == w
            &&& to != t.from ==> w2[t.from].tokens + w2[to].tokens == w[t.from].tokens
                + w[to].tokens
            &&& forall|k: Seq<char>| k != t.from && k != to && w.contains_key(k) ==> w2[k] == w[k]
        }),
{
    let w2 = execution(t, w, initial)->Ok_0;
    assert(w2.dom() =~= w.dom());
    if t.record->to@ == t.from {
        assert(w2 =~= w);
    }
}

/// The total equals any one account's tokens plus the total of the others.
proof fn lemma_total_remove(w: Map<Seq<char>, AccountView>, k: Seq<char>)
    requires
        w.dom().finite(),
        w.contains_key(k),
    ensures
        total_tokens(w) == w[k].tokens + total_tokens(w.remove(k)),
    decreases w.dom().len(),
{
    let c = w.dom().choose();
    if c != k {
        lemma_total_remove(w.remove(c), k);
        lemma_total_remove(w.remove(k), c);
        assert(w.remove(c).remove(k) =~= w.remove(k).remove(c));
    }
}

/// Replacing an account changes the total by the change of its tokens.
proof fn lemma_total_update(w: Map<Seq<char>, AccountView>, k: Seq<char>, v: AccountView)
    requires
        w.dom().finite(),
        w.contains_key(k),
    ensures
        total_tokens(w.insert(k, v)) == total_tokens(w) - w[k].tokens + v.tokens,
{
    lemma_total_remove(w.insert(k, v), k);
    assert(w.insert(k, v).remove(k) =~= w.remove(k));
    lemma_total_remove(w, k);
}

/// Adding a new account adds its tokens to the total.
proof fn lemma_total_add(w: Map<Seq<char>, AccountView>, k: Seq<char>, v: AccountView)
    requires
        w.dom().finite(),
        !w.contains_key(k),
    ensures
        total_tokens(w.insert(k, v)) == total_tokens(w) + v.tokens,
{
    lemma_total_remove(w.insert(k, v), k);
    assert(w.insert(k, v).remove(k) =~= w);
}

/// After the first block, no transaction creates or destroys tokens: the total
/// of all balances stays the same.
pub proof fn lemma_execution_conserves_total(t: TransactionView, w: Map<Seq<char>, AccountView>)
    requires
        w.dom().finite(),
        execution(t, w, false) is Ok,
    ensures
        execution(t, w, false)->Ok_0.dom().finite(),
        total_tokens(execution(t, w, false)->Ok_0) == total_tokens(w),
{
    match t.record {
        TransactionData::CreateUserAccount(id) => {
            lemma_total_add(w, id@, fresh_account(AccountType::User));
        },
        TransactionData::TransferTokens { to, amount } => {
            let from = t.from;
            let w1 = w.insert(from, with_tokens(w[from], (w[from].tokens - amount) as u128));
            lemma_total_update(w, from, with_tokens(w[from], (w[from].tokens - amount) as u128));
            lemma_total_update(w1, to@, with_tokens(w1[to@], (w1[to@].tokens + amount) as u128));
        },
        _ => {},
    }
}

/// Running the transactions of a block after the first keeps the total of
/// all balances.
pub proof fn lemma_run_block_conserves_total(
    w: Map<Seq<char>, AccountView>,
    txs: Seq<TransactionView>,
)
    requires
        w.dom().finite(),
        run_block(w, txs, false) is Ok,
    ensures
        run_block(w, txs, false)->Ok_0.dom().finite(),
        total_tokens(run_block(w, txs, false)->Ok_0) == total_tokens(w),
    decreases txs.len(),
{
    if txs.len() > 0 {
        lemma_run_block_conserves_total(w, txs.drop_last());
        let w1 = run_block(w, txs.drop_last(), false)->Ok_0;
        lemma_execution_conserves_total(txs.last(), w1);
    }
}

/// Tokens are created only while the first block runs.
pub proof fn lemma_no_token_creation_later(t: TransactionView, w: Map<Seq<char>, AccountView>)
    requires
        t.record is CreateTokens,
    ensures
        execution(t, w, false) is Err,
{
}

/// A transfer between two existing, distinct accounts succeeds exactly when
/// the sender holds at least the amount and the receiver's balance can take
/// it; then the sender holds `amount` fewer tokens and the receiver `amount`
/// more, nothing else changes, and otherwise the transfer is refused as an
/// overspend or overflow with nothing changed.
pub proof fn lemma_transfer_between_accounts(
    t: TransactionView,
    w: Map<Seq<char>, AccountView>,
    initial: bool,
)
    requires
        t.record is TransferTokens,
        t.record->to@ != t.from,
        w.contains_key(t.from),
        w.contains_key(t.record->to@),
    ensures
        ({
            let from = t.from;
            let to = t.record->to@;
            let amount = t.record->TransferTokens_amount;
            let r = execution(t, w, initial);
            &&& r is Ok <==> (amount <= w[from].tokens && w[to].tokens + amount <= u128::MAX)
            &&& r is Err ==> r->Err_0 == "Overspent or Arithmetic error (Code: mod.rs: 414)"@
            &&& r is Ok ==> {
                let w2 = r->Ok_0;
                &&& w2.dom() == w.dom()
                &&& w2[from].tokens == w[from].tokens - amount
                &&& w2[to].tokens == w[to].tokens + amount
                &&& w2[from].store == w[from].store && w2[from].acc_type == w[from].acc_type
                &&& w2[to].store == w[to].store && w2[to].acc_type == w[to].acc_type
                &&& forall|k: Seq<char>| k != from && k != to && w.contains_key(k) ==> w2[k] == w[k]
            }
        }),
{
    let r = execution(t, w, initial);
    if r is Ok {
        assert(r->Ok_0.dom() =~= w.dom());
    }
}

/// While the first block runs, creating tokens for an existing receiver, from
/// any sender and without overflow, succeeds and adds the amount to the
/// receiver's balance alone.
pub proof fn lemma_create_tokens_in_genesis(t: TransactionView, w: Map<Seq<char>, AccountView>)
    requires
        t.record is CreateTokens,
        w.contains_key(t.record->receiver@),
        w[t.record->receiver@].tokens + t.record->CreateTokens_amount <= u128::MAX,
    ensures
        ({
            let receiver = t.record->receiver@;
            let amount = t.record->CreateTokens_amount;
            let r = execution(t, w, true);
            &&& r is Ok
            &&& r->Ok_0.dom() == w.dom()
            &&& r->Ok_0[receiver].tokens == w[receiver].tokens + amount
            &&& r->Ok_0[receiver].store == w[receiver].store
            &&& r->Ok_0[receiver].acc_type == w[receiver].acc_type
            &&& forall|k: Seq<char>| k != receiver && w.contains_key(k) ==> r->Ok_0[k] == w[k]
        }),
{
    let r = execution(t, w, true);
    assert(r->Ok_0.dom() =~= w.dom());
}

/// No prefix of the transactions is signed exactly when none of them is.
proof fn lemma_signature_error_none(txs: Seq<TransactionView>, k: int, n: int)
    requires
        0 <= k <= txs.len(),
    ensures
        signature_error(txs, k, n) is None <==> forall|i: int|
            0 <= i < k ==> #[trigger] txs[i].signature is None,
    decreases k,
{
    if k > 0 {
        lemma_signature_error_none(txs, k - 1, n);
    }
}

/// A prefix of the chain has no problem exactly when none of its blocks has one.
proof fn lemma_chain_error_none(bs: Seq<BlockView>, k: int)
    requires
        0 <= k <= bs.len(),
    ensures
        chain_error(bs, k) is None <==> forall|m: int| 0 <= m < k ==> #[trigger] block_error(bs, m) is None,
    decreases k,
{
    if k > 0 {
        lemma_chain_error_none(bs, k - 1);
    }
}

/// The check finds no problem with block `m` exactly when its stored hash
/// matches its contents, it points at nothing if it is the first block and at
/// the stored hash of the block before it otherwise, and none of its
/// transactions is signed.
proof fn lemma_block_error_none(bs: Seq<BlockView>, m: int)
    requires
        0 <= m < bs.len(),
    ensures
        block_error(bs, m) is None <==> {
            &&& sealed(bs[m])
            &&& m == 0 ==> bs[m].prev_hash is None
            &&& m > 0 ==> bs[m].prev_hash is Some && bs[m].prev_hash == bs[m - 1].hash
            &&& forall|i: int|
                0 <= i < bs[m].transactions.len() ==> #[trigger] bs[m].transactions[i].signature is None
        },
{
    lemma_signature_error_none(bs[m].transactions, bs[m].transactions.len() as int, m);
}

/// All blocks pass the check: stored hashes match, the first block points at
/// nothing, later blocks point at their predecessor, nothing is signed.
pub open spec fn blocks_sound(bs: Seq<BlockView>) -> bool {
    &&& forall|n: int| 0 <= n < bs.len() ==> #[trigger] sealed(bs[n])
    &&& bs.len() > 0 ==> bs[0].prev_hash is None
    &&& forall|n: int| 1 <= n < bs.len() ==> #[trigger] bs[n].prev_hash == bs[n - 1].hash
    &&& forall|n: int, i: int|
        0 <= n < bs.len() && 0 <= i < bs[n].transactions.len()
            ==> #[trigger] bs[n].transactions[i].signature is None
}

/// A chain passes the check exactly when every block's stored hash matches
/// its contents, the first block points at nothing, every later block (not
/// only the second) points at the stored hash of the block before it, and no
/// transaction is signed.
pub proof fn lemma_chain_valid_characterized(bs: Seq<BlockView>)
    ensures
        chain_valid(bs) <==> blocks_sound(bs),
{
    let len = bs.len() as int;
    lemma_chain_error_none(bs, len);
    if chain_valid(bs) {
        assert forall|n: int| 0 <= n < len implies #[trigger] sealed(bs[n]) by {
            lemma_block_error_none(bs, n);
        }
        if len > 0 {
            lemma_block_error_none(bs, 0);
        }
        assert forall|n: int| 1 <= n < len implies #[trigger] bs[n].prev_hash == bs[n - 1].hash by {
            lemma_block_error_none(bs, n);
        }
        assert forall|n: int, i: int|
            0 <= n < len && 0 <= i < bs[n].transactions.len()
                implies #[trigger] bs[n].transactions[i].signature is None by {
            lemma_block_error_none(bs, n);
        }
    }
    if blocks_sound(bs) {
        assert forall|m: int| 0 <= m < len implies #[trigger] block_error(bs, m) is None by {
            lemma_block_error_none(bs, m);
            if m > 0 {
                assert(sealed(bs[m - 1]));
            }
        }
    }
}

/// The digests of the transactions, one after the other, read from the end.
proof fn lemma_concat_digests_flatten(txs: Seq<TransactionView>)
    ensures
        concat_digests(txs) == txs.map_values(|t: TransactionView| transaction_digest(t)).flatten_alt(),
    decreases txs.len(),
{
    if txs.len() > 0 {
        lemma_concat_digests_flatten(txs.drop_last());
        let d = txs.map_values(|t: TransactionView| transaction_digest(t));
        assert(d.drop_last() =~= txs.drop_last().map_values(|t: TransactionView| transaction_digest(t)));
    }
}

/// What a block's digest is taken of: the digest of every one of its
/// transactions, in order, followed by the UTF-8 text of its link and nonce.
pub proof fn lemma_block_message_covers_all_transactions(b: BlockView)
    ensures
        block_message(b) == b.transactions.map_values(|t: TransactionView| transaction_digest(t)).flatten()
            + vstd::utf8::encode_utf8(link_text(b.prev_hash, b.nonce)),
{
    lemma_concat_digests_flatten(b.transactions);
    b.transactions.map_values(|t: TransactionView| transaction_digest(t)).lemma_flatten_and_flatten_alt_are_equivalent();
}

} // verus!
