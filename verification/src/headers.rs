//! The header map: name/value pairs in insertion order, where writing
//! a name that is already present replaces its value (last write wins).

use vstd::prelude::*;

verus! {

/// The first value stored under `k`, if any.
pub open spec fn spec_find(e: Seq<(Seq<char>, Seq<char>)>, k: Seq<char>) -> Option<Seq<char>>
    decreases e.len(),
{
    if e.len() == 0 {
        None
    } else if e.first().0 == k {
        Some(e.first().1)
    } else {
        spec_find(e.drop_first(), k)
    }
}

/// The position of the first entry named `k`, if any.
pub open spec fn spec_key_index(e: Seq<(Seq<char>, Seq<char>)>, k: Seq<char>) -> Option<int>
    decreases e.len(),
{
    if e.len() == 0 {
        None
    } else if e.first().0 == k {
        Some(0)
    } else {
        match spec_key_index(e.drop_first(), k) {
            None => None,
            Some(j) => Some(j + 1),
        }
    }
}

/// What inserting `k -> v` does: replaces the value in place when `k`
/// is present, appends otherwise.
pub open spec fn spec_insert(
    e: Seq<(Seq<char>, Seq<char>)>,
    k: Seq<char>,
    v: Seq<char>,
) -> Seq<(Seq<char>, Seq<char>)> {
    match spec_key_index(e, k) {
        Some(j) => e.update(j, (k, v)),
        None => e.push((k, v)),
    }
}

/// Inserting a whole sequence of pairs, first to last.
pub open spec fn spec_insert_all(
    e: Seq<(Seq<char>, Seq<char>)>,
    pairs: Seq<(Seq<char>, Seq<char>)>,
) -> Seq<(Seq<char>, Seq<char>)>
    decreases pairs.len(),
{
    if pairs.len() == 0 {
        e
    } else {
        spec_insert_all(spec_insert(e, pairs.first().0, pairs.first().1), pairs.drop_first())
    }
}

/// No name occurs twice.
pub open spec fn unique_keys(e: Seq<(Seq<char>, Seq<char>)>) -> bool {
    forall|i: int, j: int| 0 <= i < j < e.len() ==> e[i].0 != e[j].0
}

/// A map from header names to header values that keeps insertion
/// order.  Duplicate names collapse to the last occurrence.
pub struct HeaderMap {
    entries: Vec<(String, String)>,
}

impl View for HeaderMap {
    type V = Seq<(Seq<char>, Seq<char>)>;

    closed spec fn view(&self) -> Seq<(Seq<char>, Seq<char>)> {
        Seq::new(self.entries@.len(), |i: int| (self.entries@[i].0@, self.entries@[i].1@))
    }
}

impl HeaderMap {
    /// An empty map.
    pub fn new() -> (r: HeaderMap)
        ensures
            r@ == Seq::<(Seq<char>, Seq<char>)>::empty(),
    {
        let r = HeaderMap { entries: Vec::new() };
        proof {
            assert(r@ =~= Seq::<(Seq<char>, Seq<char>)>::empty());
        }
        r
    }

    /// The number of entries.
    pub fn len(&self) -> (r: usize)
        ensures
            r == self@.len(),
    {
        self.entries.len()
    }

    /// The entries, in insertion order.
    pub fn entries(&self) -> (r: &Vec<(String, String)>)
        ensures
            r@.len() == self@.len(),
            forall|i: int|
                0 <= i < r@.len() ==> r@[i].0@ == self@[i].0 && r@[i].1@ == self@[i].1,
    {
        &self.entries
    }

    /// Stores `value` under `name`; a present name keeps its position
    /// and takes the new value.
    #[verifier::loop_isolation(false)]
    pub fn insert(&mut self, name: String, value: String)
        ensures
            final(self)@ == spec_insert(old(self)@, name@, value@),
            unique_keys(old(self)@) ==> unique_keys(final(self)@),
    {
        let ghost e0 = self@;
        proof {
            lemma_key_index_lower(e0, name@, 0);
        }
        let n = self.entries.len();
        let mut i: usize = 0;
        while i < n
            invariant
                0 <= i <= n,
                n == self.entries.len(),
                self@ == e0,
                forall|k: int| 0 <= k < i ==> e0[k].0 != name@,
                spec_key_index(e0, name@) matches Some(j) ==> i <= j,
            decreases n - i,
        {
            if self.entries[i].0 == name {
                proof {
                    lemma_key_index_found(e0, name@, i as int);
                }
                self.entries.remove(i);
                self.entries.insert(i, (name, value));
                proof {
                    assert(self@ =~= spec_insert(e0, name@, value@));
                    if unique_keys(e0) {
                        assert(self@.len() == e0.len());
                        assert forall|a: int, b: int|
                            0 <= a < b < self@.len() implies self@[a].0 != self@[b].0 by {
                            assert(e0[i as int].0 == name@);
                            assert(self@[a].0 == e0[a].0);
                            assert(self@[b].0 == e0[b].0);
                            assert(e0[a].0 != e0[b].0);
                        }
                        assert(unique_keys(self@));
                    }
                }
                return ;
            }
            proof {
                lemma_key_index_lower(e0, name@, (i + 1) as int);
            }
            i = i + 1;
        }
        proof {
            lemma_key_index_none(e0, name@);
        }
        self.entries.push((name, value));
        proof {
            assert(self@ =~= spec_insert(e0, name@, value@));
            if unique_keys(e0) {
                assert forall|a: int, b: int|
                    0 <= a < b < self@.len() implies self@[a].0 != self@[b].0 by {
                    if b == self@.len() - 1 {
                        assert(e0[a].0 != name@);
                    }
                }
            }
        }
    }

    /// Looks a name up, handing back a copy of its value.
    #[verifier::loop_isolation(false)]
    pub fn get(&self, name: &String) -> (r: Option<String>)
        ensures
            match spec_find(self@, name@) {
                None => r is None,
                Some(v) => r matches Some(s) && s@ == v,
            },
    {
        let n = self.entries.len();
        proof {
            lemma_find_from_equiv(self@, name@, 0);
            assert(self@.subrange(0, self@.len() as int) =~= self@);
        }
        let mut i: usize = 0;
        while i < n
            invariant
                0 <= i <= n,
                n == self.entries.len(),
                forall|k: int| 0 <= k < i ==> self@[k].0 != name@,
                spec_find_from(self@, name@, i as int) == spec_find(self@, name@),
            decreases n - i,
        {
            if self.entries[i].0 == *name {
                return Some(self.entries[i].1.clone());
            }
            i = i + 1;
        }
        None
    }

    /// An independent copy of the map.
    #[verifier::loop_isolation(false)]
    pub fn copied(&self) -> (r: HeaderMap)
        ensures
            r@ == self@,
    {
        let n = self.entries.len();
        let mut out: Vec<(String, String)> = Vec::new();
        let mut i: usize = 0;
        while i < n
            invariant
                0 <= i <= n,
                n == self.entries.len(),
                out@.len() == i,
                forall|k: int|
                    0 <= k < i ==> out@[k].0@ == self@[k].0 && out@[k].1@ == self@[k].1,
            decreases n - i,
        {
            let name = self.entries[i].0.clone();
            let value = self.entries[i].1.clone();
            out.push((name, value));
            i = i + 1;
        }
        let r = HeaderMap { entries: out };
        proof {
            assert(r@ =~= self@);
        }
        r
    }
}

/// `spec_find`, started in the middle of the sequence.
spec fn spec_find_from(
    e: Seq<(Seq<char>, Seq<char>)>,
    k: Seq<char>,
    i: int,
) -> Option<Seq<char>>
    recommends
        0 <= i <= e.len(),
    decreases e.len() - i,
{
    if i < 0 || i >= e.len() {
        None
    } else if e[i].0 == k {
        Some(e[i].1)
    } else {
        spec_find_from(e, k, i + 1)
    }
}

/// The two spellings of lookup agree.
proof fn lemma_find_from_equiv(e: Seq<(Seq<char>, Seq<char>)>, k: Seq<char>, i: int)
    requires
        0 <= i <= e.len(),
    ensures
        spec_find_from(e, k, i) == spec_find(e.subrange(i, e.len() as int), k),
    decreases e.len() - i,
{
    let tail = e.subrange(i, e.len() as int);
    if i < e.len() {
        lemma_find_from_equiv(e, k, i + 1);
        assert(tail.drop_first() =~= e.subrange(i + 1, e.len() as int));
    }
}

/// When the scan has passed `i` entries without a hit, the first hit
/// lies beyond them.
proof fn lemma_key_index_lower(e: Seq<(Seq<char>, Seq<char>)>, k: Seq<char>, i: int)
    requires
        0 <= i <= e.len(),
        forall|j: int| 0 <= j < i ==> e[j].0 != k,
    ensures
        spec_key_index(e, k) matches Some(j) ==> i <= j,
    decreases e.len(),
{
    if e.len() == 0 {
    } else if e.first().0 == k {
        assert(i == 0);
    } else {
        if i > 0 {
            assert forall|j: int| 0 <= j < i - 1 implies e.drop_first()[j].0 != k by {
                assert(e.drop_first()[j] == e[j + 1]);
            }
            lemma_key_index_lower(e.drop_first(), k, i - 1);
        } else {
            lemma_key_index_lower(e.drop_first(), k, 0);
        }
    }
}

/// A hit at `i` after `i` misses pins the first hit to `i`.
proof fn lemma_key_index_found(e: Seq<(Seq<char>, Seq<char>)>, k: Seq<char>, i: int)
    requires
        0 <= i < e.len(),
        forall|j: int| 0 <= j < i ==> e[j].0 != k,
        e[i].0 == k,
    ensures
        spec_key_index(e, k) == Some(i),
    decreases i,
{
    if i == 0 {
    } else {
        assert(e.first().0 != k);
        lemma_key_index_found(e.drop_first(), k, i - 1);
    }
}

/// A full scan without a hit means the key is absent.
pub proof fn lemma_key_index_none(e: Seq<(Seq<char>, Seq<char>)>, k: Seq<char>)
    requires
        forall|j: int| 0 <= j < e.len() ==> e[j].0 != k,
    ensures
        spec_key_index(e, k) is None,
    decreases e.len(),
{
    if e.len() > 0 {
        lemma_key_index_none(e.drop_first(), k);
    }
}

} // verus!
