use vstd::prelude::*;
use std::collections::HashMap;
use crate::record::{Details, DetailsView};

verus! {

broadcast use vstd::std_specs::hash::group_hash_axioms;

/// What a lookup of `k` finds in a store with contents `s`: the record, or
/// nothing when the key was never issued.
pub open spec fn lookup_spec(s: Map<i64, DetailsView>, k: i64) -> Option<DetailsView> {
    if s.dom().contains(k) {
        Some(s[k])
    } else {
        None
    }
}

/// An in-memory model of the key-value store that the service consumes: an
/// associative store from numeric keys to complete credential records. It
/// supports exactly the contract the service needs — an existence check, a
/// record write, and per-field reads — and is the store that tests and
/// verified callers run against; a deployment substitutes a networked store
/// with the same contract.
pub struct MemStore {
    m: HashMap<i64, Details>,
}

impl View for MemStore {
    type V = Map<i64, DetailsView>;

    /// A store is, abstractly, a finite map from keys to record values.
    closed spec fn view(&self) -> Map<i64, DetailsView> {
        self.m@.map_values(|d: Details| d@)
    }
}

impl MemStore {
    /// An empty store: no key has a record.
    pub fn new() -> (s: MemStore)
        ensures
            s@ == Map::<i64, DetailsView>::empty(),
    {
        let m = HashMap::new();
        let s = MemStore { m };
        proof {
            assert(s@ =~= Map::<i64, DetailsView>::empty());
        }
        s
    }

    /// The store's existence check: whether `k` has a record.
    pub fn exists_key(&self, k: i64) -> (r: bool)
        ensures
            r == self@.dom().contains(k),
    {
        self.m.contains_key(&k)
    }

    /// Writes the complete record for `k` as one logical transaction: both
    /// fields are set together, so no reader of this store ever observes a
    /// partial record.
    pub fn put_record(&mut self, k: i64, d: Details)
        ensures
            final(self)@ == old(self)@.insert(k, d@),
    {
        let ghost prior = self.m@;
        self.m.insert(k, d);
        proof {
            assert(self@ =~= prior.map_values(|x: Details| x@).insert(k, d@));
        }
    }

    /// Reads the organization field of `k`'s record; absent keys have no
    /// fields.
    pub fn get_org(&self, k: i64) -> (r: Option<String>)
        ensures
            match r {
                Some(s) => self@.dom().contains(k) && s@ == self@[k].org,
                None => !self@.dom().contains(k),
            },
    {
        match self.m.get(&k) {
            Some(d) => Some(d.org.clone()),
            None => None,
        }
    }

    /// Reads the authorization-level field of `k`'s record as the store
    /// keeps it: the canonical decimal text it was written as.
    pub fn get_level_text(&self, k: i64) -> (r: Option<String>)
        ensures
            match r {
                Some(t) => self@.dom().contains(k) && t@ == crate::levels::spec_decimal(
                    self@[k].auth_level,
                ).map_values(|b: u8| b as char),
                None => !self@.dom().contains(k),
            },
    {
        match self.m.get(&k) {
            Some(d) => Some(crate::levels::level_to_string(d.auth_level)),
            None => None,
        }
    }

    /// Every record a store holds carries a level that was written from a
    /// machine word, so every stored level fits one.
    pub proof fn lemma_levels_bounded(&self)
        ensures
            forall|k: i64|
                self@.dom().contains(k) ==> #[trigger] self@[k].auth_level <= usize::MAX,
    {
    }

    /// Reads the authorization-level field of `k`'s record.
    pub fn get_level(&self, k: i64) -> (r: Option<usize>)
        ensures
            match r {
                Some(l) => self@.dom().contains(k) && l as nat == self@[k].auth_level,
                None => !self@.dom().contains(k),
            },
    {
        match self.m.get(&k) {
            Some(d) => Some(d.auth_level),
            None => None,
        }
    }
}

} // verus!
