//! A small string-keyed mapping kept as a list of entries with pairwise
//! distinct keys. The documents this library works on hold such mappings at
//! every level, and the entry order is kept stable so that documents read
//! and written back keep their shape.

use vstd::prelude::*;

verus! {

/// A mapping from names to values with pairwise distinct keys.
#[derive(Debug, Clone)]
pub struct KVList<V> {
    pub entries: Vec<(String, V)>,
}

/// The first value bound to a key in a run of entries, front to back.
pub open spec fn spec_get_from<V>(s: Seq<(String, V)>, k: Seq<char>) -> Option<V>
    decreases s.len(),
{
    if s.len() == 0 {
        None
    } else if s[0].0@ == k {
        Some(s[0].1)
    } else {
        spec_get_from(s.drop_first(), k)
    }
}

impl<V> KVList<V> {
    /// A key stands at most once in the list.
    pub open spec fn wf(&self) -> bool {
        forall|i: int, j: int|
            0 <= i < j < self.entries@.len() ==> self.entries@[i].0@ != self.entries@[j].0@
    }

    pub open spec fn spec_len(&self) -> int {
        self.entries@.len() as int
    }

    pub open spec fn contains_key(&self, k: Seq<char>) -> bool {
        exists|i: int| 0 <= i < self.entries@.len() && self.entries@[i].0@ == k
    }

    pub open spec fn spec_get(&self, k: Seq<char>) -> Option<V> {
        spec_get_from(self.entries@, k)
    }

    /// An empty mapping.
    pub fn new() -> (r: KVList<V>)
        ensures
            r.entries@.len() == 0,
            r.wf(),
    {
        KVList { entries: Vec::new() }
    }

    pub fn len(&self) -> (r: usize)
        ensures
            r as int == self.spec_len(),
    {
        self.entries.len()
    }

    /// Looks a key up and hands back the first entry bound to it.
    pub fn get(&self, key: &str) -> (r: Option<&V>)
        ensures
            (match r {
                Some(v) => self.spec_get(key@) == Some(*v) && self.contains_key(key@),
                None => self.spec_get(key@) is None && !self.contains_key(key@),
            }),
    {
        let ghost s = self.entries@;
        let n = self.entries.len();
        let mut i: usize = 0;
        proof {
            assert(s.skip(0) =~= s);
        }
        while i < n
            invariant
                0 <= i <= n,
                n == s.len(),
                s == self.entries@,
                spec_get_from(s.skip(i as int), key@) == spec_get_from(s, key@),
                forall|j: int| 0 <= j < i ==> s[j].0@ != key@,
            decreases n - i,
        {
            assert(s.skip(i as int)[0] == s[i as int]);
            if crate::strutil::str_eq(self.entries[i].0.as_str(), key) {
                assert(self.spec_get(key@) == Some(s[i as int].1));
                return Some(&self.entries[i].1);
            }
            assert(s.skip(i as int).drop_first() =~= s.skip(i as int + 1));
            i = i + 1;
        }
        assert(s.skip(n as int) =~= Seq::<(String, V)>::empty());
        None
    }

    /// Whether a key is bound.
    pub fn has_key(&self, key: &str) -> (r: bool)
        ensures
            r == self.contains_key(key@),
    {
        match self.get(key) {
            Some(_) => true,
            None => false,
        }
    }

    /// Binds a fresh key at the back.
    pub fn push(&mut self, key: String, value: V)
        requires
            !old(self).contains_key(key@),
            old(self).wf(),
        ensures
            final(self).entries@ == old(self).entries@.push((key, value)),
            final(self).wf(),
    {
        self.entries.push((key, value));
    }
}

/// A bound key is found and an unbound key is not: `spec_get` and
/// `contains_key` agree on every mapping, well-formed or not.
pub proof fn lemma_get_from_contains<V>(s: Seq<(String, V)>, k: Seq<char>)
    ensures
        (spec_get_from(s, k) is Some) <==> (exists|i: int| 0 <= i < s.len() && s[i].0@ == k),
    decreases s.len(),
{
    if s.len() > 0 {
        lemma_get_from_contains(s.drop_first(), k);
        if s[0].0@ != k {
            if exists|i: int| 0 <= i < s.len() && s[i].0@ == k {
                let i = choose|i: int| 0 <= i < s.len() && s[i].0@ == k;
                assert(s.drop_first()[i - 1] == s[i]);
            }
            assert forall|i: int|
                0 <= i < s.drop_first().len() && s.drop_first()[i].0@ == k implies exists|j: int|
                0 <= j < s.len() && s[j].0@ == k by {
                assert(s[i + 1] == s.drop_first()[i]);
            }
        }
    }
}

} // verus!
