//! Accounts and the table that maps account ids to them.
use std::collections::HashMap;
use vstd::prelude::*;

verus! {

/// What an account is for. Only user accounts are created by transactions.
#[derive(Clone, Copy, Debug)]
pub enum AccountType {
    /// An account held by a user.
    User,
    /// A contract account.
    _Contract,
    /// A validator account, with its validation record.
    _Validator { correctly_validated_blocks: u128, incorrectly_validated_blocks: u128 },
}

/// An account on the chain: a key/value store, its type and its token balance.
#[derive(Debug)]
pub struct Account {
    store: HashMap<String, String>,
    acc_type: AccountType,
    tokens: u128,
}

/// The abstract value of an account.
pub struct AccountView {
    pub store: Map<String, String>,
    pub acc_type: AccountType,
    pub tokens: u128,
}

/// The account that `Account::new` makes: empty store, no tokens.
pub open spec fn fresh_account(account_type: AccountType) -> AccountView {
    AccountView { store: Map::empty(), acc_type: account_type, tokens: 0 }
}

/// The same account with its balance set to `tokens`.
pub open spec fn with_tokens(a: AccountView, tokens: u128) -> AccountView {
    AccountView { store: a.store, acc_type: a.acc_type, tokens }
}

impl View for Account {
    type V = AccountView;

    closed spec fn view(&self) -> AccountView {
        AccountView { store: self.store@, acc_type: self.acc_type, tokens: self.tokens }
    }
}

impl Account {
    /// A new account of the given type, with an empty store and no tokens.
    pub fn new(account_type: AccountType) -> (a: Account)
        ensures
            a@ == fresh_account(account_type),
    {
        Account { store: HashMap::new(), acc_type: account_type, tokens: 0 }
    }

    /// The account's token balance.
    pub fn tokens(&self) -> (t: u128)
        ensures
            t == self@.tokens,
    {
        self.tokens
    }

    /// Sets the account's token balance, leaving the rest unchanged.
    pub(crate) fn set_tokens(&mut self, tokens: u128)
        ensures
            final(self)@ == with_tokens(old(self)@, tokens),
    {
        self.tokens = tokens;
    }
}

impl Clone for Account {
    fn clone(&self) -> (r: Account)
        ensures
            r@ == self@,
    {
        Account { store: self.store.clone(), acc_type: self.acc_type, tokens: self.tokens }
    }
}

/// The accounts of a chain: ids and the accounts at the same positions,
/// each id at most once.
#[derive(Debug)]
pub struct AccountTable {
    ids: Vec<String>,
    accounts: Vec<Account>,
}

/// The map that a list of (id, account) pairs stands for; a later pair wins
/// over an earlier one with the same id.
pub open spec fn entries_map(s: Seq<(String, Account)>) -> Map<Seq<char>, AccountView>
    decreases s.len(),
{
    if s.len() == 0 {
        Map::empty()
    } else {
        entries_map(s.drop_last()).insert(s.last().0@, s.last().1@)
    }
}

/// No id occurs twice in the list.
pub open spec fn distinct_ids(s: Seq<(String, Account)>) -> bool {
    forall|i: int, j: int| 0 <= i < s.len() && 0 <= j < s.len() && i != j ==> s[i].0@ != s[j].0@
}

/// An id occurs in the list exactly when the map has it.
proof fn lemma_entries_dom(s: Seq<(String, Account)>, k: Seq<char>)
    ensures
        entries_map(s).contains_key(k) <==> exists|i: int| 0 <= i < s.len() && s[i].0@ == k,
    decreases s.len(),
{
    if s.len() > 0 {
        lemma_entries_dom(s.drop_last(), k);
        if entries_map(s.drop_last()).contains_key(k) {
            let i = choose|i: int| 0 <= i < s.drop_last().len() && s.drop_last()[i].0@ == k;
            assert(s[i].0@ == k);
        }
        if exists|i: int| 0 <= i < s.len() && s[i].0@ == k {
            let i = choose|i: int| 0 <= i < s.len() && s[i].0@ == k;
            if i < s.len() - 1 {
                assert(s.drop_last()[i].0@ == k);
            }
        }
    }
}

/// With distinct ids, the map holds at each id the account listed with it.
proof fn lemma_entries_value(s: Seq<(String, Account)>, i: int)
    requires
        distinct_ids(s),
        0 <= i < s.len(),
    ensures
        entries_map(s).contains_key(s[i].0@),
        entries_map(s)[s[i].0@] == s[i].1@,
    decreases s.len(),
{
    if i < s.len() - 1 {
        lemma_entries_value(s.drop_last(), i);
    }
}

/// Replacing the account of one entry, id kept, updates the map at that id.
proof fn lemma_entries_update(s: Seq<(String, Account)>, i: int, a: Account)
    requires
        distinct_ids(s),
        0 <= i < s.len(),
    ensures
        entries_map(s.update(i, (s[i].0, a))) == entries_map(s).insert(s[i].0@, a@),
    decreases s.len(),
{
    let t = s.update(i, (s[i].0, a));
    if i == s.len() - 1 {
        assert(t.drop_last() == s.drop_last());
        lemma_entries_dom(s.drop_last(), s[i].0@);
        assert(entries_map(t) =~= entries_map(s).insert(s[i].0@, a@));
    } else {
        lemma_entries_update(s.drop_last(), i, a);
        assert(t.drop_last() == s.drop_last().update(i, (s[i].0, a)));
        assert(s.last().0@ != s[i].0@);
        assert(entries_map(t) =~= entries_map(s).insert(s[i].0@, a@));
    }
}

/// Lists with the same ids and accounts of the same value stand for the same map.
proof fn lemma_entries_same_view(t: Seq<(String, Account)>, s: Seq<(String, Account)>)
    requires
        t.len() == s.len(),
        forall|j: int| 0 <= j < t.len() ==> t[j].0 == s[j].0 && t[j].1@ == s[j].1@,
    ensures
        entries_map(t) == entries_map(s),
    decreases t.len(),
{
    if t.len() > 0 {
        lemma_entries_same_view(t.drop_last(), s.drop_last());
    }
}

/// A list of pairs stands for a finite map.
proof fn lemma_entries_finite(s: Seq<(String, Account)>)
    ensures
        entries_map(s).dom().finite(),
    decreases s.len(),
{
    if s.len() > 0 {
        lemma_entries_finite(s.drop_last());
    }
}

impl View for AccountTable {
    type V = Map<Seq<char>, AccountView>;

    closed spec fn view(&self) -> Map<Seq<char>, AccountView> {
        entries_map(self.entries())
    }
}

impl AccountTable {
    /// The (id, account) pairs of the table, in order.
    closed spec fn entries(&self) -> Seq<(String, Account)> {
        Seq::new(self.ids@.len(), |i: int| (self.ids@[i], self.accounts@[i]))
    }

    /// Ids and accounts pair up, and each id occurs at most once.
    #[verifier::type_invariant]
    spec fn wf(&self) -> bool {
        &&& self.ids@.len() == self.accounts@.len()
        &&& forall|i: int, j: int|
            0 <= i < self.ids@.len() && 0 <= j < self.ids@.len() && i != j ==> #[trigger] self.ids@[i]@
                != #[trigger] self.ids@[j]@
    }

    /// The invariant, read on the pairs.
    proof fn lemma_wf_entries(&self)
        requires
            self.wf(),
        ensures
            distinct_ids(self.entries()),
            self.entries().len() == self.ids@.len(),
            forall|i: int| 0 <= i < self.ids@.len() ==> #[trigger] self.entries()[i] == (self.ids@[i], self.accounts@[i]),
    {
        assert forall|i: int, j: int|
            0 <= i < self.entries().len() && 0 <= j < self.entries().len() && i != j implies self.entries()[i].0@
            != self.entries()[j].0@ by {
            assert(self.entries()[i].0 == self.ids@[i]);
            assert(self.entries()[j].0 == self.ids@[j]);
        }
    }

    /// A table holds finitely many accounts.
    pub proof fn lemma_view_finite(&self)
        ensures
            self@.dom().finite(),
    {
        lemma_entries_finite(self.entries());
    }

    /// An empty table.
    pub fn new() -> (t: AccountTable)
        ensures
            t@ == Map::<Seq<char>, AccountView>::empty(),
    {
        let t = AccountTable { ids: Vec::new(), accounts: Vec::new() };
        assert(t.entries() == Seq::<(String, Account)>::empty());
        t
    }

    /// The position of `id`, if the table has it.
    fn position(&self, id: &String) -> (r: Option<usize>)
        ensures
            match r {
                Some(i) => i < self.entries().len() && self.entries()[i as int].0@ == id@,
                None => !self@.contains_key(id@),
            },
    {
        proof {
            use_type_invariant(self);
            self.lemma_wf_entries();
        }
        let n = self.ids.len();
        for i in 0..n
            invariant
                n == self.ids@.len(),
                forall|j: int| 0 <= j < i ==> self.ids@[j]@ != id@,
        {
            if self.ids[i] == *id {
                return Some(i);
            }
        }
        proof {
            lemma_entries_dom(self.entries(), id@);
        }
        None
    }

    /// Whether an account is kept under `id`.
    pub fn contains_key(&self, id: &String) -> (r: bool)
        ensures
            r == self@.contains_key(id@),
    {
        proof {
            use_type_invariant(self);
            self.lemma_wf_entries();
        }
        match self.position(id) {
            Some(i) => {
                proof {
                    lemma_entries_value(self.entries(), i as int);
                }
                true
            },
            None => false,
        }
    }

    /// The account kept under `id`, if any.
    pub fn get(&self, id: &String) -> (r: Option<&Account>)
        ensures
            match r {
                Some(a) => self@.contains_key(id@) && a@ == self@[id@],
                None => !self@.contains_key(id@),
            },
    {
        proof {
            use_type_invariant(self);
            self.lemma_wf_entries();
        }
        match self.position(id) {
            Some(i) => {
                proof {
                    lemma_entries_value(self.entries(), i as int);
                }
                Some(&self.accounts[i])
            },
            None => None,
        }
    }

    /// The account kept under `id`, to be changed in place, if any.
    pub fn get_mut(&mut self, id: &String) -> (r: Option<&mut Account>)
        ensures
            match r {
                Some(a) => old(self)@.contains_key(id@) && a@ == old(self)@[id@]
                    && final(self)@ == old(self)@.insert(id@, final(a)@),
                None => !old(self)@.contains_key(id@) && final(self)@ == old(self)@,
            },
    {
        proof {
            use_type_invariant(&*self);
            self.lemma_wf_entries();
        }
        match self.position(id) {
            Some(i) => {
                proof {
                    lemma_entries_value(self.entries(), i as int);
                }
                let ghost before = self.entries();
                let ghost ids = self.ids@;
                let ghost accounts = self.accounts@;
                let a = &mut self.accounts[i];
                proof {
                    lemma_entries_update(before, i as int, *final(a));
                    let changed = accounts.update(i as int, *final(a));
                    assert(Seq::new(ids.len(), |j: int| (ids[j], changed[j])) =~= before.update(
                        i as int,
                        (before[i as int].0, *final(a)),
                    ));
                }
                Some(a)
            },
            None => None,
        }
    }

    /// Adds `a` under `id`, which the table does not have yet.
    pub fn insert_new(&mut self, id: String, a: Account)
        requires
            !old(self)@.contains_key(id@),
        ensures
            final(self)@ == old(self)@.insert(id@, a@),
    {
        proof {
            use_type_invariant(&*self);
            self.lemma_wf_entries();
            lemma_entries_dom(self.entries(), id@);
        }
        let ghost before = self.entries();
        let ghost key = id@;
        let mut table = AccountTable { ids: Vec::new(), accounts: Vec::new() };
        std::mem::swap(&mut table, self);
        let AccountTable { mut ids, mut accounts } = table;
        assert(ids@.len() == before.len());
        assert forall|j: int| 0 <= j < ids@.len() implies ids@[j]@ != key by {
            assert(before[j].0 == ids@[j]);
        }
        ids.push(id);
        accounts.push(a);
        let t = AccountTable { ids, accounts };
        proof {
            t.lemma_wf_entries();
            assert(t.entries().drop_last() =~= before);
        }
        *self = t;
    }

    /// The ids of the table, each once.
    pub fn ids(&self) -> (r: Vec<String>)
        ensures
            forall|i: int, j: int| 0 <= i < r@.len() && 0 <= j < r@.len() && i != j ==> r@[i]@ != r@[j]@,
            forall|k: Seq<char>| self@.contains_key(k) <==> exists|i: int| 0 <= i < r@.len() && r@[i]@ == k,
    {
        proof {
            use_type_invariant(self);
            self.lemma_wf_entries();
        }
        let mut r: Vec<String> = Vec::new();
        let n = self.ids.len();
        for i in 0..n
            invariant
                n == self.ids@.len(),
                n == self.entries().len(),
                r@.len() == i,
                forall|j: int| 0 <= j < i ==> r@[j]@ == self.entries()[j].0@,
        {
            r.push(self.ids[i].clone());
        }
        proof {
            assert forall|k: Seq<char>| self@.contains_key(k) <==> exists|i: int| 0 <= i < r@.len() && r@[i]@ == k by {
                lemma_entries_dom(self.entries(), k);
                if exists|i: int| 0 <= i < r@.len() && r@[i]@ == k {
                    let i = choose|i: int| 0 <= i < r@.len() && r@[i]@ == k;
                    assert(self.entries()[i].0@ == k);
                }
                if exists|i: int| 0 <= i < self.entries().len() && self.entries()[i].0@ == k {
                    let i = choose|i: int| 0 <= i < self.entries().len() && self.entries()[i].0@ == k;
                    assert(r@[i]@ == k);
                }
            }
        }
        r
    }
}

impl Clone for AccountTable {
    fn clone(&self) -> (r: AccountTable)
        ensures
            r@ == self@,
    {
        proof {
            use_type_invariant(self);
            self.lemma_wf_entries();
        }
        let mut ids: Vec<String> = Vec::new();
        let mut accounts: Vec<Account> = Vec::new();
        let n = self.ids.len();
        for i in 0..n
            invariant
                n == self.ids@.len(),
                n == self.accounts@.len(),
                ids@.len() == i,
                accounts@.len() == i,
                forall|j: int| 0 <= j < i ==> #[trigger] ids@[j] == self.ids@[j],
                forall|j: int| 0 <= j < i ==> #[trigger] accounts@[j]@ == self.accounts@[j]@,
        {
            ids.push(self.ids[i].clone());
            accounts.push(self.accounts[i].clone());
        }
        assert(ids@ =~= self.ids@);
        assert(self.entries().len() == n);
        let r = AccountTable { ids, accounts };
        proof {
            r.lemma_wf_entries();
            let s = self.entries();
            let t = r.entries();
            assert forall|j: int| 0 <= j < t.len() implies t[j].0 == s[j].0 && t[j].1@ == s[j].1@ by {}
            lemma_entries_same_view(t, s);
        }
        r
    }
}

} // verus!
