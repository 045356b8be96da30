//! The deduplication index and the symbol registry.
//!
//! Both are concurrent sets shared by every split worker of a run: the dedup
//! index holds the 64-bit payload hashes already seen, the registry the
//! symbols whose output sinks exist. Each wraps a `dashmap` set; the
//! contents are named by an uninterpreted spec function and every method
//! contract speaks over that name.

use vstd::prelude::*;

use dashmap::DashSet;

verus! {

/// Process-wide set of payload hashes already seen in this run.
#[verifier::external_body]
pub struct DedupIndex {
    inner: DashSet<u64>,
}

/// The hashes held by a dedup index.
pub uninterp spec fn dedup_contents(d: DedupIndex) -> Set<u64>;

impl DedupIndex {
    /// Relies on `dashmap::DashSet::new`: creates an empty set.
    #[verifier::external_body]
    pub fn new() -> (r: DedupIndex)
        ensures
            dedup_contents(r) == Set::<u64>::empty(),
    {
        DedupIndex { inner: DashSet::new() }
    }

    /// Relies on `dashmap::DashSet::insert`: inserts the value and reports
    /// whether it was absent before.
    #[verifier::external_body]
    pub fn offer(&mut self, h: u64) -> (r: bool)
        ensures
            r == !dedup_contents(*old(self)).contains(h),
            dedup_contents(*final(self)) == dedup_contents(*old(self)).insert(h),
    {
        self.inner.insert(h)
    }
}

/// Process-wide set of the symbols whose output sinks were already created.
#[verifier::external_body]
pub struct SymbolRegistry {
    inner: DashSet<String>,
}

/// The symbols held by a registry.
pub uninterp spec fn registry_contents(r: SymbolRegistry) -> Set<Seq<char>>;

impl SymbolRegistry {
    /// Relies on `dashmap::DashSet::new`: creates an empty set.
    #[verifier::external_body]
    pub fn new() -> (r: SymbolRegistry)
        ensures
            registry_contents(r) == Set::<Seq<char>>::empty(),
    {
        SymbolRegistry { inner: DashSet::new() }
    }

    /// Relies on `dashmap::DashSet::insert`: inserts the symbol and reports
    /// whether it was absent before, so only the first caller creates sinks.
    #[verifier::external_body]
    pub fn first_sight(&mut self, symbol: &String) -> (r: bool)
        ensures
            r == !registry_contents(*old(self)).contains(symbol@),
            registry_contents(*final(self)) == registry_contents(*old(self)).insert(symbol@),
    {
        self.inner.insert(symbol.clone())
    }
}

} // verus!
