//! The label-to-value mapping extracted from one entry's description.
//!
//! Keys are unique; inserting an existing label overwrites its value in
//! place. The mathematical model is a `Map<Seq<char>, Seq<char>>`.

use vstd::prelude::*;

use crate::text::str_eq;

verus! {

/// The map that an entry list stands for: entries applied in order, so a
/// later entry for the same key wins.
pub open spec fn fm_view(es: Seq<(String, String)>) -> Map<Seq<char>, Seq<char>>
    decreases es.len(),
{
    if es.len() == 0 {
        Map::empty()
    } else {
        fm_view(es.drop_last()).insert(es.last().0@, es.last().1@)
    }
}

/// No key occurs twice in the entry list.
pub open spec fn fm_wf(es: Seq<(String, String)>) -> bool {
    forall|i: int, j: int| 0 <= i < j < es.len() ==> es[i].0@ != es[j].0@
}

/// A mapping from field labels to field values.
#[derive(Debug, Clone, PartialEq)]
pub struct FieldMap {
    pub entries: Vec<(String, String)>,
}

impl View for FieldMap {
    type V = Map<Seq<char>, Seq<char>>;

    open spec fn view(&self) -> Map<Seq<char>, Seq<char>> {
        fm_view(self.entries@)
    }
}

/// An entry list with unique keys maps each of its keys to that entry's
/// value.
proof fn lemma_fm_found(es: Seq<(String, String)>, i: int)
    requires
        fm_wf(es),
        0 <= i < es.len(),
    ensures
        fm_view(es).contains_key(es[i].0@),
        fm_view(es)[es[i].0@] == es[i].1@,
    decreases es.len(),
{
    if i < es.len() - 1 {
        assert(fm_wf(es.drop_last())) by {
            assert(forall|p: int, q: int|
                0 <= p < q < es.len() - 1 ==> es.drop_last()[p] == es[p] && es.drop_last()[q]
                    == es[q]);
        }
        lemma_fm_found(es.drop_last(), i);
        assert(es[i].0@ != es.last().0@);
    }
}

/// A key under no entry is not in the map.
proof fn lemma_fm_absent(es: Seq<(String, String)>, k: Seq<char>)
    requires
        forall|i: int| 0 <= i < es.len() ==> es[i].0@ != k,
    ensures
        !fm_view(es).contains_key(k),
    decreases es.len(),
{
    if es.len() > 0 {
        lemma_fm_absent(es.drop_last(), k);
    }
}

/// Overwriting the entry that holds a key is, at the map level, one insert
/// for that key.
proof fn lemma_fm_update(es: Seq<(String, String)>, i: int, kv: (String, String))
    requires
        fm_wf(es),
        0 <= i < es.len(),
        kv.0@ == es[i].0@,
    ensures
        fm_view(es.update(i, kv)) =~= fm_view(es).insert(kv.0@, kv.1@),
    decreases es.len(),
{
    if i == es.len() - 1 {
        assert(es.update(i, kv).drop_last() =~= es.drop_last());
    } else {
        assert(fm_wf(es.drop_last())) by {
            assert(forall|p: int, q: int|
                0 <= p < q < es.len() - 1 ==> es.drop_last()[p] == es[p] && es.drop_last()[q]
                    == es[q]);
        }
        assert(es.drop_last()[i] == es[i]);
        lemma_fm_update(es.drop_last(), i, kv);
        assert(es.update(i, kv).drop_last() =~= es.drop_last().update(i, kv));
        assert(es.update(i, kv).last() == es.last());
        assert(es[i].0@ != es.last().0@);
    }
}

impl FieldMap {
    /// The mapping never holds a key twice.
    pub open spec fn wf(&self) -> bool {
        fm_wf(self.entries@)
    }

    /// An empty mapping.
    pub fn new() -> (r: FieldMap)
        ensures
            r@ == Map::<Seq<char>, Seq<char>>::empty(),
            r.wf(),
    {
        FieldMap { entries: Vec::new() }
    }

    /// Binds `k` to `v`; a label inserted twice keeps only the later value.
    pub fn insert(&mut self, k: String, v: String)
        requires
            old(self).wf(),
        ensures
            final(self).wf(),
            final(self)@ == old(self)@.insert(k@, v@),
    {
        let ghost prev = self.entries@;
        let n = self.entries.len();
        let mut idx: usize = n;
        let mut i: usize = 0;
        while i < n
            invariant
                i <= n,
                idx <= n,
                n == self.entries.len(),
                *self == *old(self),
                self.wf(),
                idx < n ==> self.entries@[idx as int].0@ == k@,
                idx == n ==> forall|j: int| 0 <= j < i ==> self.entries@[j].0@ != k@,
            decreases n - i,
        {
            if idx == n && str_eq(self.entries[i].0.as_str(), k.as_str()) {
                idx = i;
            }
            i = i + 1;
        }
        if idx < n {
            proof {
                lemma_fm_update(prev, idx as int, (k, v));
            }
            self.entries[idx] = (k, v);
            proof {
                assert(self.entries@ == prev.update(idx as int, (k, v)));
                assert(self.wf()) by {
                    assert(forall|p: int|
                        0 <= p < prev.len() && p != idx ==> self.entries@[p] == prev[p]);
                    assert(self.entries@[idx as int].0@ == prev[idx as int].0@);
                }
            }
        } else {
            proof {
                lemma_fm_absent(prev, k@);
            }
            self.entries.push((k, v));
            proof {
                assert(self.entries@.drop_last() =~= prev);
                assert(self.wf()) by {
                    assert(forall|p: int| 0 <= p < prev.len() ==> self.entries@[p] == prev[p]);
                }
            }
        }
    }

    /// The value bound to `key`, if any.
    pub fn get(&self, key: &str) -> (r: Option<String>)
        requires
            self.wf(),
        ensures
            r is Some <==> self@.contains_key(key@),
            r matches Some(v) ==> v@ == self@[key@],
    {
        let n = self.entries.len();
        let mut i: usize = 0;
        while i < n
            invariant
                i <= n,
                n == self.entries.len(),
                self.wf(),
                forall|j: int| 0 <= j < i ==> self.entries@[j].0@ != key@,
            decreases n - i,
        {
            if str_eq(self.entries[i].0.as_str(), key) {
                proof {
                    lemma_fm_found(self.entries@, i as int);
                }
                return Some(self.entries[i].1.clone());
            }
            i = i + 1;
        }
        proof {
            lemma_fm_absent(self.entries@, key@);
        }
        None
    }

    /// How many labels the mapping holds.
    pub fn len(&self) -> (n: usize)
        ensures
            n == self.entries@.len(),
    {
        self.entries.len()
    }
}

} // verus!
