//! The world state: the accounts that executing the chain's blocks has produced.
use vstd::prelude::*;

use crate::account::{fresh_account, Account, AccountTable, AccountType, AccountView};

verus! {

/// The error of `create_account` for an id that is taken.
pub open spec fn user_exists_msg() -> Seq<char> {
    "User already exists! (Code: mod.rs: 279)"@
}

/// `ids` lists each account id of `accounts` exactly once.
pub open spec fn lists_ids(ids: Seq<String>, accounts: Map<Seq<char>, AccountView>) -> bool {
    &&& forall|i: int, j: int| 0 <= i < ids.len() && 0 <= j < ids.len() && i != j ==> ids[i]@ != ids[j]@
    &&& forall|k: Seq<char>| accounts.contains_key(k) <==> exists|i: int| 0 <= i < ids.len() && ids[i]@ == k
}

/// The sum of the token balances of all accounts.
pub open spec fn total_tokens(w: Map<Seq<char>, AccountView>) -> int
    decreases w.dom().len(),
{
    if w.dom().finite() && w.dom().len() > 0 {
        let k = w.dom().choose();
        w[k].tokens + total_tokens(w.remove(k))
    } else {
        0
    }
}

/// What creating account `id` of the given type does to `accounts`: the new
/// accounts, or the error when the id is taken.
pub open spec fn creation(
    accounts: Map<Seq<char>, AccountView>,
    id: Seq<char>,
    account_type: AccountType,
) -> Result<Map<Seq<char>, AccountView>, Seq<char>> {
    if accounts.contains_key(id) {
        Err(user_exists_msg())
    } else {
        Ok(accounts.insert(id, fresh_account(account_type)))
    }
}

/// The state of the chain after all of its blocks have been executed.
pub trait WorldState {
    /// The accounts, by id.
    spec fn world(&self) -> Map<Seq<char>, AccountView>;

    /// What the state holds besides its accounts.
    type Rest;

    /// The part of the state other than the accounts, which none of these
    /// methods changes.
    spec fn rest(&self) -> Self::Rest;

    /// All registered user ids.
    fn get_user_ids(&self) -> (ids: Vec<String>)
        ensures
            lists_ids(ids@, self.world()),
    ;

    /// The account with the given id, to be changed in place, if it exists.
    fn get_account_by_id_mut(&mut self, id: &String) -> (r: Option<&mut Account>)
        ensures
            final(self).rest() == old(self).rest(),
            match r {
                Some(a) => old(self).world().contains_key(id@) && a@ == old(self).world()[id@]
                    && final(self).world() == old(self).world().insert(id@, final(a)@),
                None => !old(self).world().contains_key(id@)
                    && final(self).world() == old(self).world(),
            },
    ;

    /// The account with the given id, if it exists.
    fn get_account_by_id(&self, id: &String) -> (r: Option<&Account>)
        ensures
            match r {
                Some(a) => self.world().contains_key(id@) && a@ == self.world()[id@],
                None => !self.world().contains_key(id@),
            },
    ;

    /// Adds a new account with the given id and type; fails when the id is taken.
    fn create_account(&mut self, id: String, account_type: AccountType) -> (r: Result<
        (),
        &'static str,
    >)
        ensures
            final(self).rest() == old(self).rest(),
            match creation(old(self).world(), id@, account_type) {
                Ok(w) => r is Ok && final(self).world() == w,
                Err(m) => r matches Err(e) && e@ == m && final(self).world() == old(self).world(),
            },
    ;
}

impl WorldState for AccountTable {
    open spec fn world(&self) -> Map<Seq<char>, AccountView> {
        self@
    }

    type Rest = ();

    open spec fn rest(&self) -> () {
        ()
    }

    fn get_user_ids(&self) -> (ids: Vec<String>) {
        self.ids()
    }

    fn get_account_by_id_mut(&mut self, id: &String) -> (r: Option<&mut Account>) {
        self.get_mut(id)
    }

    fn get_account_by_id(&self, id: &String) -> (r: Option<&Account>) {
        self.get(id)
    }

    fn create_account(&mut self, id: String, account_type: AccountType) -> (r: Result<
        (),
        &'static str,
    >) {
        if !self.contains_key(&id) {
            let acc = Account::new(account_type);
            self.insert_new(id, acc);
            Ok(())
        } else {
            Err("User already exists! (Code: mod.rs: 279)")
        }
    }
}

} // verus!
