//! Accounts and the world state: the table that transactions mutate.
use vstd::prelude::*;
use vstd::string::StringExecFns;

verus! {

pub type AccountId = String;

pub type Balance = u128;

pub type Error = String;

#[derive(Clone, Copy, Debug, PartialEq, Eq, Structural)]
pub enum AccountType {
    User,
    Contract,
}

#[derive(Clone, Copy, Debug, PartialEq, Eq, Structural)]
pub struct Account {
    pub account_type: AccountType,
    pub balance: Balance,
}

impl Account {
    pub fn new(account_type: AccountType) -> (r: Account)
        ensures
            r == (Account { account_type, balance: 0 }),
    {
        Account { account_type, balance: 0 }
    }
}

/// The account table, keyed by the identifier's characters.
pub open spec fn table_of(e: Seq<(String, Account)>) -> Map<Seq<char>, Account>
    decreases e.len(),
{
    if e.len() == 0 {
        Map::empty()
    } else {
        table_of(e.drop_last()).insert(e.last().0@, e.last().1)
    }
}

pub open spec fn keys_distinct(e: Seq<(String, Account)>) -> bool {
    forall|i: int, j: int|
        0 <= i < e.len() && 0 <= j < e.len() && i != j ==> e[i].0@ != e[j].0@
}

proof fn lemma_table_entry(e: Seq<(String, Account)>, i: int)
    requires
        keys_distinct(e),
        0 <= i < e.len(),
    ensures
        table_of(e).contains_key(e[i].0@),
        table_of(e)[e[i].0@] == e[i].1,
    decreases e.len(),
{
    if i < e.len() - 1 {
        let d = e.drop_last();
        assert(d[i] == e[i]);
        assert(keys_distinct(d));
        lemma_table_entry(d, i);
        assert(e[i].0@ != e[e.len() - 1].0@);
    }
}

proof fn lemma_table_key(e: Seq<(String, Account)>, k: Seq<char>)
    requires
        table_of(e).contains_key(k),
    ensures
        exists|i: int| 0 <= i < e.len() && e[i].0@ == k,
    decreases e.len(),
{
    if e.last().0@ != k {
        let d = e.drop_last();
        lemma_table_key(d, k);
        let i = choose|i: int| 0 <= i < d.len() && d[i].0@ == k;
        assert(e[i] == d[i]);
    }
}

proof fn lemma_table_update(e: Seq<(String, Account)>, i: int, a: Account)
    requires
        keys_distinct(e),
        0 <= i < e.len(),
    ensures
        table_of(e.update(i, (e[i].0, a))) == table_of(e).insert(e[i].0@, a),
    decreases e.len(),
{
    let u = e.update(i, (e[i].0, a));
    let d = e.drop_last();
    if i == e.len() - 1 {
        assert(u.drop_last() =~= d);
        assert(table_of(u) =~= table_of(e).insert(e[i].0@, a));
    } else {
        assert(u.drop_last() =~= d.update(i, (d[i].0, a)));
        assert(keys_distinct(d));
        lemma_table_update(d, i, a);
        assert(e[i].0@ != e.last().0@);
        assert(table_of(u) =~= table_of(e).insert(e[i].0@, a));
    }
}

/// The world state that transactions execute against: a table from account
/// identifiers to accounts, with each identifier present at most once.
pub struct WorldState {
    entries: Vec<(String, Account)>,
}

impl View for WorldState {
    type V = Map<Seq<char>, Account>;

    closed spec fn view(&self) -> Map<Seq<char>, Account> {
        table_of(self.entries@)
    }
}

impl WorldState {
    pub closed spec fn wf(&self) -> bool {
        keys_distinct(self.entries@)
    }

    pub fn new() -> (r: WorldState)
        ensures
            r.wf(),
            r@ == Map::<Seq<char>, Account>::empty(),
    {
        WorldState { entries: Vec::new() }
    }

    /// The position of `id` in the table, if present.
    fn find(&self, id: &String) -> (r: Option<usize>)
        requires
            self.wf(),
        ensures
            match r {
                Some(i) => i < self.entries@.len() && self.entries@[i as int].0@ == id@,
                None => !self@.contains_key(id@),
            },
    {
        let mut i: usize = 0;
        while i < self.entries.len()
            invariant
                i <= self.entries@.len(),
                forall|j: int| 0 <= j < i ==> self.entries@[j].0@ != id@,
            decreases self.entries@.len() - i,
        {
            if self.entries[i].0 == *id {
                return Some(i);
            }
            i = i + 1;
        }
        proof {
            if self@.contains_key(id@) {
                lemma_table_key(self.entries@, id@);
            }
        }
        None
    }

    /// A copy of the whole table.
    pub fn snapshot(&self) -> (r: WorldState)
        requires
            self.wf(),
        ensures
            r.wf(),
            r@ == self@,
    {
        let mut entries: Vec<(String, Account)> = Vec::new();
        let mut i: usize = 0;
        while i < self.entries.len()
            invariant
                i <= self.entries@.len(),
                entries@ == self.entries@.subrange(0, i as int),
            decreases self.entries@.len() - i,
        {
            let e = &self.entries[i];
            entries.push((e.0.clone(), e.1));
            assert(self.entries@.subrange(0, i + 1) =~= self.entries@.subrange(0, i as int).push(self.entries@[i as int]));
            i = i + 1;
        }
        assert(self.entries@.subrange(0, self.entries@.len() as int) =~= self.entries@);
        WorldState { entries }
    }

    /// Adds a fresh account with a zero balance; fails if `id` is taken.
    pub fn create_account(&mut self, id: AccountId, account_type: AccountType) -> (r: Result<(), Error>)
        requires
            old(self).wf(),
        ensures
            final(self).wf(),
            r is Ok <==> !old(self)@.contains_key(id@),
            r is Ok ==> final(self)@ == old(self)@.insert(id@, Account { account_type, balance: 0 }),
            r is Err ==> final(self)@ == old(self)@,
            r is Err ==> r->Err_0@ == "Account id already exist: "@ + id@,
    {
        match self.find(&id) {
            Some(i) => {
                proof {
                    lemma_table_entry(self.entries@, i as int);
                }
                let msg = String::from_str("Account id already exist: ");
                Err(msg.concat(id.as_str()))
            },
            None => {
                let ghost before = self.entries@;
                proof {
                    assert forall|j: int| 0 <= j < before.len() implies before[j].0@ != id@ by {
                        lemma_table_entry(before, j);
                    }
                }
                self.entries.push((id, Account::new(account_type)));
                assert(self.entries@.drop_last() =~= before);
                Ok(())
            },
        }
    }

    pub fn get_account_by_id(&self, id: AccountId) -> (r: Option<&Account>)
        requires
            self.wf(),
        ensures
            r is Some <==> self@.contains_key(id@),
            r is Some ==> *r->Some_0 == self@[id@],
    {
        match self.find(&id) {
            Some(i) => {
                proof {
                    lemma_table_entry(self.entries@, i as int);
                }
                Some(&self.entries[i].1)
            },
            None => None,
        }
    }

    /// Mutable access to the account of `id`, if present; only that account
    /// can change through it.
    pub fn get_account_by_id_mut(&mut self, id: AccountId) -> (r: Option<&mut Account>)
        requires
            old(self).wf(),
        ensures
            final(self).wf(),
            r is Some <==> old(self)@.contains_key(id@),
            r is None ==> final(self)@ == old(self)@,
            r is Some ==> *r->Some_0 == old(self)@[id@],
            r is Some ==> final(self)@ == old(self)@.insert(id@, *final(r->Some_0)),
    {
        match self.find(&id) {
            Some(i) => {
                let ghost before = self.entries@;
                proof {
                    lemma_table_entry(before, i as int);
                    assert forall|a: Account|
                        #[trigger] table_of(before.update(i as int, (before[i as int].0, a)))
                            == table_of(before).insert(id@, a) by {
                        lemma_table_update(before, i as int, a);
                    }
                    assert forall|a: Account| #[trigger]
                        keys_distinct(before.update(i as int, (before[i as int].0, a))) by {
                        let u = before.update(i as int, (before[i as int].0, a));
                        assert forall|x: int, y: int| 0 <= x < u.len() && 0 <= y < u.len() && x != y
                            implies u[x].0@ != u[y].0@ by {
                            assert(u[x].0 == before[x].0 && u[y].0 == before[y].0);
                        }
                    }
                }
                let entry = &mut self.entries[i];
                Some(&mut entry.1)
            },
            None => None,
        }
    }

}

} // verus!
