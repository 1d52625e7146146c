//! Transactions: what they do to the world state, and their digests.
use vstd::prelude::*;

use crate::account::{with_tokens, AccountType, AccountView};
use crate::clock::{time_debug, time_text, Timestamp};
use crate::digest::{blake2s256, blake2s256_digest};
use crate::text::{debug_quoted, decimal, decimal_string, opt_chars, quote_debug};
use crate::world::{creation, WorldState};

verus! {

/// The kinds of transaction and what each carries.
#[derive(Clone, Debug, PartialEq)]
pub enum TransactionData {
    /// Creates a user account with the given id.
    CreateUserAccount(String),
    /// Sets a value in the sender's store (not carried out by `execute`).
    ChangeStoreValue { key: String, value: String },
    /// Moves tokens from the sender to `to`; a transfer to oneself changes nothing.
    TransferTokens { to: String, amount: u128 },
    /// Creates tokens for `receiver`; only in the first block.
    CreateTokens { receiver: String, amount: u128 },
}

/// A request to change the world state, made by the account `from`.
#[derive(Clone, Debug)]
pub struct Transaction {
    nonce: u128,
    from: String,
    created_at: Timestamp,
    pub record: TransactionData,
    signature: Option<String>,
}

/// The abstract value of a transaction.
pub struct TransactionView {
    pub nonce: u128,
    pub from: Seq<char>,
    pub created_at: Timestamp,
    pub record: TransactionData,
    pub signature: Option<Seq<char>>,
}

impl View for Transaction {
    type V = TransactionView;

    closed spec fn view(&self) -> TransactionView {
        TransactionView {
            nonce: self.nonce,
            from: self.from@,
            created_at: self.created_at,
            record: self.record,
            signature: opt_chars(self.signature),
        }
    }
}

/// How `{:?}` shows a transaction record.
pub open spec fn record_text(r: TransactionData) -> Seq<char> {
    match r {
        TransactionData::CreateUserAccount(a) => "CreateUserAccount("@ + debug_quoted(a@) + ")"@,
        TransactionData::ChangeStoreValue { key, value } => "ChangeStoreValue { key: "@
            + debug_quoted(key@) + ", value: "@ + debug_quoted(value@) + " }"@,
        TransactionData::TransferTokens { to, amount } => "TransferTokens { to: "@ + debug_quoted(
            to@,
        ) + ", amount: "@ + decimal(amount as nat) + " }"@,
        TransactionData::CreateTokens { receiver, amount } => "CreateTokens { receiver: "@
            + debug_quoted(receiver@) + ", amount: "@ + decimal(amount as nat) + " }"@,
    }
}

/// The text that a transaction's digest is taken of: how `{:?}` shows the
/// tuple of its creation time, record, sender and nonce.
pub open spec fn transaction_text(t: TransactionView) -> Seq<char> {
    "("@ + time_text(t.created_at) + ", "@ + record_text(t.record) + ", "@ + debug_quoted(t.from)
        + ", "@ + decimal(t.nonce as nat) + ")"@
}

/// The BLAKE2s-256 digest of the UTF-8 encoding of the transaction's text.
pub open spec fn transaction_digest(t: TransactionView) -> Seq<u8> {
    blake2s256_digest(vstd::utf8::encode_utf8(transaction_text(t)))
}

/// What executing transaction `t` does to the accounts `w`: the new accounts,
/// or the error that rejects it. `initial` holds while the first block runs.
pub open spec fn execution(t: TransactionView, w: Map<Seq<char>, AccountView>, initial: bool) -> Result<
    Map<Seq<char>, AccountView>,
    Seq<char>,
> {
    if !w.contains_key(t.from) && !initial {
        Err("Account does not exist (Code: mod.rs: 362)"@)
    } else {
        match t.record {
            TransactionData::CreateUserAccount(id) => creation(w, id@, AccountType::User),
            TransactionData::CreateTokens { receiver, amount } => {
                if !initial {
                    Err("Token creation is only available on initial creation (Code: mod.rs: 373)"@)
                } else if w.contains_key(receiver@) {
                    Ok(
                        w.insert(
                            receiver@,
                            with_tokens(w[receiver@], (w[receiver@].tokens + amount) as u128),
                        ),
                    )
                } else {
                    Err("Receiver Account does not exist (Code: mod.rs: 382)"@)
                }
            },
            TransactionData::TransferTokens { to, amount } => {
                if !w.contains_key(to@) {
                    Err("Receiver Account does not exist! (Code: mod.rs: 393)"@)
                } else if !w.contains_key(t.from) {
                    Err("That account does not exist! (Code: mod.rs: 399)"@)
                } else if w[to@].tokens + amount <= u128::MAX && amount <= w[t.from].tokens {
                    // The amount leaves the sender, then reaches the receiver.
                    let w1 = w.insert(
                        t.from,
                        with_tokens(w[t.from], (w[t.from].tokens - amount) as u128),
                    );
                    Ok(w1.insert(to@, with_tokens(w1[to@], (w1[to@].tokens + amount) as u128)))
                } else {
                    Err("Overspent or Arithmetic error (Code: mod.rs: 414)"@)
                }
            },
            TransactionData::ChangeStoreValue { .. } => Err(
                "Unknown Transaction type (not implemented) (Code: mod.rs: 419)"@,
            ),
        }
    }
}

/// Executing `t` on `w` would add tokens past `u128::MAX`, where the
/// arithmetic of `execute` overflows.
pub open spec fn execution_overflows(
    t: TransactionView,
    w: Map<Seq<char>, AccountView>,
    initial: bool,
) -> bool {
    match t.record {
        TransactionData::CreateTokens { receiver, amount } => initial && w.contains_key(receiver@)
            && w[receiver@].tokens + amount > u128::MAX,
        _ => false,
    }
}

/// `{:?}` of a record.
fn record_debug(r: &TransactionData) -> (s: String)
    ensures
        s@ == record_text(*r),
{
    let mut s = String::new();
    match r {
        TransactionData::CreateUserAccount(a) => {
            s.append("CreateUserAccount(");
            s.append(quote_debug(a.as_str()).as_str());
            s.append(")");
        },
        TransactionData::ChangeStoreValue { key, value } => {
            s.append("ChangeStoreValue { key: ");
            s.append(quote_debug(key.as_str()).as_str());
            s.append(", value: ");
            s.append(quote_debug(value.as_str()).as_str());
            s.append(" }");
        },
        TransactionData::TransferTokens { to, amount } => {
            s.append("TransferTokens { to: ");
            s.append(quote_debug(to.as_str()).as_str());
            s.append(", amount: ");
            s.append(decimal_string(*amount).as_str());
            s.append(" }");
        },
        TransactionData::CreateTokens { receiver, amount } => {
            s.append("CreateTokens { receiver: ");
            s.append(quote_debug(receiver.as_str()).as_str());
            s.append(", amount: ");
            s.append(decimal_string(*amount).as_str());
            s.append(" }");
        },
    }
    s
}

impl Transaction {
    /// A new unsigned transaction from `from`, stamped with the current time.
    pub fn new(from: String, transaction_data: TransactionData, nonce: u128) -> (t: Transaction)
        ensures
            t@.nonce == nonce,
            t@.from == from@,
            t@.record == transaction_data,
            t@.signature is None,
            t@.created_at.tv_nsec < 1_000_000_000,
    {
        Transaction::with_timestamp(from, transaction_data, nonce, Timestamp::now())
    }

    /// A new unsigned transaction from `from`, stamped with `created_at`.
    pub fn with_timestamp(
        from: String,
        transaction_data: TransactionData,
        nonce: u128,
        created_at: Timestamp,
    ) -> (t: Transaction)
        ensures
            t@ == (TransactionView {
                nonce,
                from: from@,
                created_at,
                record: transaction_data,
                signature: None,
            }),
    {
        Transaction { nonce, from, created_at, record: transaction_data, signature: None }
    }

    /// Changes the world state as the transaction says, or tells why it cannot;
    /// on an error the world state is left as it was.
    pub fn execute<T: WorldState>(&self, world_state: &mut T, is_initial: &bool) -> (r: Result<
        (),
        &'static str,
    >)
        requires
            !execution_overflows(self@, old(world_state).world(), *is_initial),
        ensures
            final(world_state).rest() == old(world_state).rest(),
            match execution(self@, old(world_state).world(), *is_initial) {
                Ok(w) => r is Ok && final(world_state).world() == w,
                Err(m) => r matches Err(e) && e@ == m
                    && final(world_state).world() == old(world_state).world(),
            },
    {
        // Only accounts on the chain may act, except while the first block runs.
        match world_state.get_account_by_id(&self.from) {
            Some(_account) => {},
            None => {
                if !*is_initial {
                    return Err("Account does not exist (Code: mod.rs: 362)");
                }
            },
        }
        match &self.record {
            TransactionData::CreateUserAccount(account) => {
                world_state.create_account(account.clone(), AccountType::User)
            },
            TransactionData::CreateTokens { receiver, amount } => {
                if !*is_initial {
                    return Err(
                        "Token creation is only available on initial creation (Code: mod.rs: 373)",
                    );
                }
                match world_state.get_account_by_id_mut(receiver) {
                    Some(account) => {
                        let held = account.tokens();
                        account.set_tokens(held + *amount);
                        Ok(())
                    },
                    None => Err("Receiver Account does not exist (Code: mod.rs: 382)"),
                }
            },
            TransactionData::TransferTokens { to, amount } => {
                let recv_tokens: u128;
                let sender_tokens: u128;
                match world_state.get_account_by_id_mut(to) {
                    Some(recv) => {
                        recv_tokens = recv.tokens();
                    },
                    None => {
                        return Err("Receiver Account does not exist! (Code: mod.rs: 393)");
                    },
                }
                match world_state.get_account_by_id_mut(&self.from) {
                    Some(sender) => {
                        sender_tokens = sender.tokens();
                    },
                    None => {
                        return Err("That account does not exist! (Code: mod.rs: 399)");
                    },
                }
                let balance_recv_new = recv_tokens.checked_add(*amount);
                let balance_sender_new = sender_tokens.checked_sub(*amount);
                match (balance_recv_new, balance_sender_new) {
                    (Some(_), Some(sender_new)) => {
                        // Debit the sender first, then credit the receiver's
                        // balance as it is after the debit, so that a transfer
                        // to oneself leaves the balance as it was.
                        match world_state.get_account_by_id_mut(&self.from) {
                            Some(sender) => sender.set_tokens(sender_new),
                            None => {},
                        }
                        match world_state.get_account_by_id_mut(to) {
                            Some(recv) => {
                                let held = recv.tokens();
                                recv.set_tokens(held + *amount);
                            },
                            None => {},
                        }
                        Ok(())
                    },
                    _ => Err("Overspent or Arithmetic error (Code: mod.rs: 414)"),
                }
            },
            _ => Err("Unknown Transaction type (not implemented) (Code: mod.rs: 419)"),
        }
    }

    /// Whether executing the transaction on `world_state` would add tokens past
    /// `u128::MAX`, which `execute` must not be asked to do.
    pub fn would_overflow<T: WorldState>(&self, world_state: &T, is_initial: &bool) -> (r: bool)
        ensures
            r == execution_overflows(self@, world_state.world(), *is_initial),
    {
        match &self.record {
            TransactionData::CreateTokens { receiver, amount } => {
                if !*is_initial {
                    return false;
                }
                match world_state.get_account_by_id(receiver) {
                    Some(account) => account.tokens().checked_add(*amount).is_none(),
                    None => false,
                }
            },
            _ => false,
        }
    }

    /// The text that the digest is taken of.
    fn debug_text(&self) -> (s: String)
        ensures
            s@ == transaction_text(self@),
    {
        let mut s = String::new();
        s.append("(");
        s.append(time_debug(&self.created_at).as_str());
        s.append(", ");
        s.append(record_debug(&self.record).as_str());
        s.append(", ");
        s.append(quote_debug(self.from.as_str()).as_str());
        s.append(", ");
        s.append(decimal_string(self.nonce).as_str());
        s.append(")");
        s
    }

    /// The 32-byte BLAKE2s-256 digest of the transaction's text.
    pub fn calculate_hash(&self) -> (h: Vec<u8>)
        ensures
            h@ == transaction_digest(self@),
            h@.len() == 32,
    {
        let text = self.debug_text();
        blake2s256(text.as_str().as_bytes())
    }

    /// Whether the signature over the transaction is valid. Signatures are not
    /// checked yet, so this is `false` for every transaction, signed or not.
    pub fn check_signature(&self) -> (valid: bool)
        ensures
            !valid,
    {
        if !self.is_signed() {
            return false;
        }
        false
    }

    /// Whether the transaction carries a signature.
    pub fn is_signed(&self) -> (signed: bool)
        ensures
            signed == self@.signature is Some,
    {
        self.signature.is_some()
    }
}

} // verus!
