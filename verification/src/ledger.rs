//! A small map from accounts to amounts, kept as a list of entries in the
//! order in which their accounts first appeared.
use vstd::prelude::*;
use crate::types::Account;

verus! {

/// The map that a list of entries describes: a later entry for an account
/// replaces an earlier one.
pub open spec fn entries_map<V>(s: Seq<(Account, V)>) -> Map<Account, V>
    decreases s.len(),
{
    if s.len() == 0 {
        Map::empty()
    } else {
        entries_map(s.drop_last()).insert(s.last().0, s.last().1)
    }
}

/// No account has two entries.
pub open spec fn keys_unique<V>(s: Seq<(Account, V)>) -> bool {
    forall|i: int, j: int| 0 <= i < s.len() && 0 <= j < s.len() && i != j ==> s[i].0 != s[j].0
}

/// With unique keys, the map holds exactly the entries of the list.
pub proof fn lemma_entries_map<V>(s: Seq<(Account, V)>)
    requires
        keys_unique(s),
    ensures
        forall|a: Account| entries_map(s).contains_key(a) <==> exists|i: int| 0 <= i < s.len() && #[trigger] s[i].0 == a,
        forall|i: int| 0 <= i < s.len() ==> entries_map(s).contains_key(#[trigger] s[i].0) && entries_map(s)[s[i].0] == s[i].1,
    decreases s.len(),
{
    if s.len() > 0 {
        let t = s.drop_last();
        assert(keys_unique(t)) by {
            assert forall|i: int, j: int| 0 <= i < t.len() && 0 <= j < t.len() && i != j implies t[i].0 != t[j].0 by {
                assert(t[i] == s[i] && t[j] == s[j]);
            }
        }
        lemma_entries_map(t);
        let last = s.len() - 1;
        assert forall|a: Account| entries_map(s).contains_key(a) <==> exists|i: int| 0 <= i < s.len() && #[trigger] s[i].0 == a by {
            if entries_map(s).contains_key(a) {
                if a == s.last().0 {
                    assert(s[last].0 == a);
                } else {
                    assert(entries_map(t).contains_key(a));
                    let i = choose|i: int| 0 <= i < t.len() && #[trigger] t[i].0 == a;
                    assert(t[i] == s[i]);
                    assert(s[i].0 == a);
                }
            }
            if exists|i: int| 0 <= i < s.len() && #[trigger] s[i].0 == a {
                let i = choose|i: int| 0 <= i < s.len() && #[trigger] s[i].0 == a;
                if i < last {
                    assert(t[i] == s[i]);
                    assert(t[i].0 == a);
                }
            }
        }
        assert forall|i: int| 0 <= i < s.len() implies entries_map(s).contains_key(#[trigger] s[i].0) && entries_map(s)[s[i].0] == s[i].1 by {
            if i < last {
                assert(t[i] == s[i]);
                assert(s[i].0 != s[last].0);
            }
        }
    }
}

/// Amounts recorded per account.
pub struct Ledger<V> {
    entries: Vec<(Account, V)>,
}

impl<V: Copy> View for Ledger<V> {
    type V = Map<Account, V>;

    closed spec fn view(&self) -> Map<Account, V> {
        entries_map(self.entries@)
    }
}

impl<V: Copy> Ledger<V> {
    /// No account has two entries.
    pub closed spec fn wf(&self) -> bool {
        keys_unique(self.entries@)
    }

    /// The entries, in the order in which their accounts first appeared.
    pub closed spec fn entries_seq(&self) -> Seq<(Account, V)> {
        self.entries@
    }

    /// The entries describe the ledger's map, and name each account once.
    pub proof fn lemma_entries(&self)
        requires
            self.wf(),
        ensures
            self@ == entries_map(self.entries_seq()),
            keys_unique(self.entries_seq()),
    {
    }

    /// An empty ledger.
    pub fn new() -> (l: Self)
        ensures
            l.wf(),
            l@ == Map::<Account, V>::empty(),
    {
        Ledger { entries: Vec::new() }
    }

    /// The position of `a`'s entry, if it has one.
    fn position(&self, a: Account) -> (r: Option<usize>)
        requires
            self.wf(),
        ensures
            match r {
                Some(i) => i < self.entries@.len() && self.entries@[i as int].0 == a,
                None => !self@.contains_key(a),
            },
    {
        proof {
            lemma_entries_map(self.entries@);
        }
        let mut i: usize = 0;
        while i < self.entries.len()
            invariant
                i <= self.entries.len(),
                forall|j: int| 0 <= j < i ==> self.entries@[j].0 != a,
            decreases self.entries.len() - i,
        {
            if self.entries[i].0 == a {
                return Some(i);
            }
            i = i + 1;
        }
        None
    }

    /// The amount recorded for `a`, if any.
    pub fn get(&self, a: Account) -> (r: Option<V>)
        requires
            self.wf(),
        ensures
            r == (if self@.contains_key(a) { Some(self@[a]) } else { None::<V> }),
    {
        proof {
            lemma_entries_map(self.entries@);
        }
        match self.position(a) {
            Some(i) => Some(self.entries[i].1),
            None => None,
        }
    }

    /// Whether an amount is recorded for `a`.
    pub fn contains_key(&self, a: Account) -> (r: bool)
        requires
            self.wf(),
        ensures
            r == self@.contains_key(a),
    {
        proof {
            lemma_entries_map(self.entries@);
        }
        self.position(a).is_some()
    }

    /// Records `v` for `a`.
    pub fn insert(&mut self, a: Account, v: V)
        requires
            old(self).wf(),
        ensures
            final(self).wf(),
            final(self)@ == old(self)@.insert(a, v),
    {
        proof {
            lemma_entries_map(self.entries@);
        }
        let ghost s = self.entries@;
        match self.position(a) {
            Some(i) => {
                self.entries.set(i, (a, v));
                proof {
                    let t = self.entries@;
                    assert(keys_unique(t)) by {
                        assert forall|x: int, y: int| 0 <= x < t.len() && 0 <= y < t.len() && x != y implies t[x].0 != t[y].0 by {
                            assert(t[x].0 == s[x].0 && t[y].0 == s[y].0);
                        }
                    }
                    lemma_entries_map(t);
                    assert forall|b: Account| #[trigger] entries_map(t).contains_key(b) <==> entries_map(s).insert(a, v).contains_key(b) by {
                        if entries_map(t).contains_key(b) {
                            let k = choose|k: int| 0 <= k < t.len() && #[trigger] t[k].0 == b;
                            assert(s[k].0 == b);
                        }
                        if entries_map(s).contains_key(b) {
                            let k = choose|k: int| 0 <= k < s.len() && #[trigger] s[k].0 == b;
                            assert(t[k].0 == b);
                        }
                    }
                    assert forall|b: Account| #[trigger] entries_map(t).contains_key(b) implies entries_map(t)[b] == entries_map(s).insert(a, v)[b] by {
                        let k = choose|k: int| 0 <= k < t.len() && #[trigger] t[k].0 == b;
                        if k == i {
                        } else {
                            assert(t[k] == s[k]);
                        }
                    }
                    assert(entries_map(t) =~= entries_map(s).insert(a, v));
                }
            },
            None => {
                self.entries.push((a, v));
                proof {
                    let t = self.entries@;
                    assert(t.drop_last() =~= s);
                    assert(keys_unique(t)) by {
                        assert forall|x: int, y: int| 0 <= x < t.len() && 0 <= y < t.len() && x != y implies t[x].0 != t[y].0 by {
                            if x < s.len() && y < s.len() {
                                assert(t[x] == s[x] && t[y] == s[y]);
                            } else if x < s.len() {
                                assert(t[x] == s[x]);
                                assert(entries_map(s).contains_key(s[x].0));
                            } else {
                                assert(t[y] == s[y]);
                                assert(entries_map(s).contains_key(s[y].0));
                            }
                        }
                    }
                }
            },
        }
    }

    /// Removes `a`'s entry, if it has one.
    pub fn remove(&mut self, a: Account)
        requires
            old(self).wf(),
        ensures
            final(self).wf(),
            final(self)@ == old(self)@.remove(a),
    {
        proof {
            lemma_entries_map(self.entries@);
        }
        let ghost s = self.entries@;
        match self.position(a) {
            Some(i) => {
                self.entries.remove(i);
                proof {
                    let t = self.entries@;
                    assert(t =~= s.remove(i as int));
                    assert(keys_unique(t)) by {
                        assert forall|x: int, y: int| 0 <= x < t.len() && 0 <= y < t.len() && x != y implies t[x].0 != t[y].0 by {
                            let sx = if x < i { x } else { x + 1 };
                            let sy = if y < i { y } else { y + 1 };
                            assert(t[x] == s[sx] && t[y] == s[sy]);
                        }
                    }
                    lemma_entries_map(t);
                    assert forall|b: Account| #[trigger] entries_map(t).contains_key(b) <==> entries_map(s).remove(a).contains_key(b) by {
                        if entries_map(t).contains_key(b) {
                            let k = choose|k: int| 0 <= k < t.len() && #[trigger] t[k].0 == b;
                            let sk = if k < i { k } else { k + 1 };
                            assert(t[k] == s[sk]);
                            assert(sk != i);
                        }
                        if entries_map(s).contains_key(b) && b != a {
                            let k = choose|k: int| 0 <= k < s.len() && #[trigger] s[k].0 == b;
                            assert(k != i);
                            if k < i {
                                assert(t[k] == s[k]);
                            } else {
                                assert(t[k - 1] == s[k]);
                            }
                        }
                    }
                    assert forall|b: Account| #[trigger] entries_map(t).contains_key(b) implies entries_map(t)[b] == entries_map(s)[b] by {
                        let k = choose|k: int| 0 <= k < t.len() && #[trigger] t[k].0 == b;
                        let sk = if k < i { k } else { k + 1 };
                        assert(t[k] == s[sk]);
                    }
                    assert(entries_map(t) =~= entries_map(s).remove(a));
                }
            },
            None => {
                proof {
                    assert(entries_map(s).remove(a) =~= entries_map(s));
                }
            },
        }
    }

    /// A copy of the entries, in the order in which their accounts first appeared.
    pub fn to_entries(&self) -> (r: Vec<(Account, V)>)
        ensures
            r@ == self.entries_seq(),
    {
        let mut r: Vec<(Account, V)> = Vec::new();
        let mut i: usize = 0;
        while i < self.entries.len()
            invariant
                i <= self.entries.len(),
                r@ == self.entries@.take(i as int),
            decreases self.entries.len() - i,
        {
            r.push(self.entries[i]);
            proof {
                assert(r@ =~= self.entries@.take(i + 1));
            }
            i = i + 1;
        }
        proof {
            assert(self.entries@.take(self.entries@.len() as int) =~= self.entries@);
        }
        r
    }

    /// The ledger of `entries`, unless some account has two entries.
    pub fn from_entries(entries: Vec<(Account, V)>) -> (r: Option<Self>)
        ensures
            r is Some <==> keys_unique(entries@),
            r matches Some(l) ==> l.wf() && l.entries_seq() == entries@ && l@ == entries_map(entries@),
    {
        let mut i: usize = 0;
        while i < entries.len()
            invariant
                i <= entries.len(),
                forall|x: int, y: int| 0 <= x < i && 0 <= y < entries@.len() && x != y ==> entries@[x].0 != entries@[y].0,
            decreases entries.len() - i,
        {
            let mut j: usize = 0;
            while j < entries.len()
                invariant
                    i < entries.len(),
                    j <= entries.len(),
                    forall|x: int, y: int| 0 <= x < i && 0 <= y < entries@.len() && x != y ==> entries@[x].0 != entries@[y].0,
                    forall|y: int| 0 <= y < j && y != i ==> entries@[i as int].0 != entries@[y].0,
                decreases entries.len() - j,
            {
                if j != i && entries[i].0 == entries[j].0 {
                    return None;
                }
                j = j + 1;
            }
            i = i + 1;
        }
        Some(Ledger { entries })
    }
}

} // verus!
