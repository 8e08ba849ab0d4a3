//! An in-memory key-value store: digest bytes to record bytes.
//!
//! The audit's real collaborator is an external embedded store consumed
//! through point lookups; this model provides the same point-lookup
//! interface over owned memory, so whole runs can be driven and checked
//! without the external store.  Later insertions under the same key shadow
//! earlier ones.

use vstd::prelude::*;
use crate::digest::{Digest, bytes_eq, copy_bytes};

verus! {

/// The map an entry list denotes: later entries shadow earlier ones.
pub open spec fn entries_map(s: Seq<(Digest, Vec<u8>)>) -> Map<Seq<u8>, Seq<u8>>
    decreases s.len(),
{
    if s.len() == 0 {
        Map::empty()
    } else {
        entries_map(s.drop_last()).insert(s.last().0@, s.last().1@)
    }
}

/// An in-memory store of node records, keyed by digest bytes.
pub struct Store {
    entries: Vec<(Digest, Vec<u8>)>,
}

impl View for Store {
    type V = Map<Seq<u8>, Seq<u8>>;

    closed spec fn view(&self) -> Map<Seq<u8>, Seq<u8>> {
        entries_map(self.entries@)
    }
}

impl Store {
    /// An empty store.
    pub fn new() -> (s: Store)
        ensures
            s@ == Map::<Seq<u8>, Seq<u8>>::empty(),
    {
        Store { entries: Vec::new() }
    }

    /// Binds a digest to its record bytes, shadowing any earlier binding.
    pub fn insert(&mut self, d: Digest, bytes: Vec<u8>)
        ensures
            final(self)@ == old(self)@.insert(d@, bytes@),
    {
        let ghost dv = d@;
        let ghost bv = bytes@;
        self.entries.push((d, bytes));
        proof {
            assert(self.entries@.drop_last() =~= old(self).entries@);
            assert(self.entries@.last().0@ == dv && self.entries@.last().1@ == bv);
        }
    }

    /// Point lookup: the record bytes bound to the digest bytes, if any.
    pub fn lookup(&self, key: &Vec<u8>) -> (r: Option<Vec<u8>>)
        ensures
            match r {
                Some(b) => self@.contains_key(key@) && self@[key@] == b@,
                None => !self@.contains_key(key@),
            },
    {
        let n = self.entries.len();
        assert(self.entries@.take(n as int) =~= self.entries@);
        lookup_prefix(&self.entries, n, key)
    }
}

/// Looks the key up among the first `n` entries, latest binding first.
fn lookup_prefix(entries: &Vec<(Digest, Vec<u8>)>, n: usize, key: &Vec<u8>) -> (r: Option<
    Vec<u8>,
>)
    requires
        n <= entries@.len(),
    ensures
        match r {
            Some(b) => entries_map(entries@.take(n as int)).contains_key(key@) && entries_map(
                entries@.take(n as int),
            )[key@] == b@,
            None => !entries_map(entries@.take(n as int)).contains_key(key@),
        },
    decreases n,
{
    if n == 0 {
        assert(entries@.take(0) =~= Seq::<(Digest, Vec<u8>)>::empty());
        None
    } else {
        let ghost pre = entries@.take(n as int);
        proof {
            assert(pre.last() == entries@[n - 1]);
            assert(pre.drop_last() =~= entries@.take(n - 1));
        }
        let e = &entries[n - 1];
        if bytes_eq(e.0.as_bytes(), key) {
            Some(copy_bytes(&e.1))
        } else {
            lookup_prefix(entries, n - 1, key)
        }
    }
}

} // verus!
