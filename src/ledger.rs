//! Account balances: a map from account identifier to balance.

use vstd::prelude::*;

verus! {

/// The balances after `amount` is credited to `id` (a new account starts at `amount`).
pub open spec fn credited(m: Map<Seq<char>, u64>, id: Seq<char>, amount: u64) -> Map<
    Seq<char>,
    u64,
> {
    m.insert(id, if m.contains_key(id) { (m[id] + amount) as u64 } else { amount })
}

/// Crediting `amount` to `id` keeps its balance within `u64`.
pub open spec fn credit_fits(m: Map<Seq<char>, u64>, id: Seq<char>, amount: u64) -> bool {
    m.contains_key(id) ==> m[id] + amount <= u64::MAX
}

/// The balances described by a list of entries, later entries taking precedence.
pub open spec fn map_of(s: Seq<(String, u64)>) -> Map<Seq<char>, u64>
    decreases s.len(),
{
    if s.len() == 0 {
        Map::empty()
    } else {
        map_of(s.drop_last()).insert(s.last().0@, s.last().1)
    }
}

/// No two entries share an identifier.
pub open spec fn unique_ids(s: Seq<(String, u64)>) -> bool {
    forall|i: int, j: int| 0 <= i < s.len() && 0 <= j < s.len() && i != j ==> s[i].0@ != s[j].0@
}

proof fn lemma_map_of_index(s: Seq<(String, u64)>, i: int)
    requires
        unique_ids(s),
        0 <= i < s.len(),
    ensures
        map_of(s).contains_key(s[i].0@),
        map_of(s)[s[i].0@] == s[i].1,
    decreases s.len(),
{
    if i < s.len() - 1 {
        let t = s.drop_last();
        assert(t[i] == s[i]);
        assert(s.last() == s[s.len() - 1]);
        lemma_map_of_index(t, i);
    }
}

proof fn lemma_map_of_absent(s: Seq<(String, u64)>, id: Seq<char>)
    requires
        forall|i: int| 0 <= i < s.len() ==> s[i].0@ != id,
    ensures
        !map_of(s).contains_key(id),
    decreases s.len(),
{
    if s.len() > 0 {
        let t = s.drop_last();
        assert forall|i: int| 0 <= i < t.len() implies t[i].0@ != id by {
            assert(t[i] == s[i]);
        }
        assert(s.last() == s[s.len() - 1]);
        lemma_map_of_absent(t, id);
    }
}

proof fn lemma_map_of_update(s: Seq<(String, u64)>, i: int, e: (String, u64))
    requires
        unique_ids(s),
        0 <= i < s.len(),
        e.0@ == s[i].0@,
    ensures
        map_of(s.update(i, e)) =~= map_of(s).insert(e.0@, e.1),
    decreases s.len(),
{
    let u = s.update(i, e);
    let t = s.drop_last();
    if i == s.len() - 1 {
        assert(u.drop_last() =~= t);
    } else {
        assert(u.drop_last() =~= t.update(i, e));
        assert(s.last() == s[s.len() - 1]);
        assert(u.last() == s.last());
        lemma_map_of_update(t, i, e);
    }
}

/// The balance of every account that has received funds.
pub struct Ledger {
    records: Vec<(String, u64)>,
}

impl View for Ledger {
    type V = Map<Seq<char>, u64>;

    closed spec fn view(&self) -> Map<Seq<char>, u64> {
        map_of(self.records@)
    }
}

impl Ledger {
    /// Each account appears once.
    pub closed spec fn wf(&self) -> bool {
        unique_ids(self.records@)
    }

    /// A ledger with no accounts.
    pub fn new() -> (r: Ledger)
        ensures
            r.wf(),
            r@ == Map::<Seq<char>, u64>::empty(),
    {
        Ledger { records: Vec::new() }
    }

    /// Where the entry of `id` stands, if it has one.
    fn find(&self, id: &String) -> (r: Option<usize>)
        requires
            self.wf(),
        ensures
            r.is_none() <==> !self@.contains_key(id@),
            r.is_none() ==> forall|j: int| 0 <= j < self.records@.len() ==> self.records@[j].0@ != id@,
            r matches Some(i) ==> i < self.records@.len() && self.records@[i as int].0@ == id@,
    {
        let mut i: usize = 0;
        while i < self.records.len()
            invariant
                self.wf(),
                i <= self.records@.len(),
                forall|j: int| 0 <= j < i ==> self.records@[j].0@ != id@,
            decreases self.records@.len() - i,
        {
            if self.records[i].0 == *id {
                proof {
                    lemma_map_of_index(self.records@, i as int);
                }
                return Some(i);
            }
            i = i + 1;
        }
        proof {
            lemma_map_of_absent(self.records@, id@);
        }
        None
    }

    /// The balance of `id`, or `None` for an account that never received funds.
    pub fn balance(&self, id: &String) -> (r: Option<u64>)
        requires
            self.wf(),
        ensures
            r == (if self@.contains_key(id@) { Some(self@[id@]) } else { None }),
    {
        match self.find(id) {
            Some(i) => {
                proof {
                    lemma_map_of_index(self.records@, i as int);
                }
                Some(self.records[i].1)
            },
            None => None,
        }
    }

    /// Sets the balance of an account that exists.
    fn set_balance(&mut self, i: usize, amount: u64)
        requires
            old(self).wf(),
            i < old(self).records@.len(),
        ensures
            final(self).wf(),
            final(self)@ == old(self)@.insert(old(self).records@[i as int].0@, amount),
    {
        let ghost s = self.records@;
        let id = self.records[i].0.clone();
        self.records.set(i, (id, amount));
        proof {
            lemma_map_of_update(s, i as int, (id, amount));
        }
    }

    /// Adds `amount` to the balance of `id`, opening the account if needed.
    pub fn credit(&mut self, id: &String, amount: u64)
        requires
            old(self).wf(),
            credit_fits(old(self)@, id@, amount),
        ensures
            final(self).wf(),
            final(self)@ == credited(old(self)@, id@, amount),
    {
        match self.find(id) {
            Some(i) => {
                proof {
                    lemma_map_of_index(self.records@, i as int);
                }
                let b = self.records[i].1;
                self.set_balance(i, b + amount);
            },
            None => {
                let ghost s = self.records@;
                self.records.push((id.clone(), amount));
                assert(self.records@.drop_last() =~= s);
                assert(unique_ids(self.records@)) by {
                    assert forall|a: int, b: int|
                        0 <= a < self.records@.len() && 0 <= b < self.records@.len() && a
                            != b implies self.records@[a].0@ != self.records@[b].0@ by {
                        if a < s.len() {
                            assert(self.records@[a] == s[a]);
                        }
                        if b < s.len() {
                            assert(self.records@[b] == s[b]);
                        }
                    }
                }
            },
        }
    }

    /// Subtracts `amount` from the balance of `id`, which must cover it.
    pub fn debit(&mut self, id: &String, amount: u64)
        requires
            old(self).wf(),
            old(self)@.contains_key(id@),
            old(self)@[id@] >= amount,
        ensures
            final(self).wf(),
            final(self)@ == old(self)@.insert(id@, (old(self)@[id@] - amount) as u64),
    {
        let i = self.find(id).unwrap();
        proof {
            lemma_map_of_index(self.records@, i as int);
        }
        let b = self.records[i].1;
        self.set_balance(i, b - amount);
    }
}

} // verus!
