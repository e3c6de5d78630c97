use vstd::prelude::*;

use crate::credentials::{copy_record, dedupe_record, last_wins, record_view, Credential};
use crate::strmap::{distinct_keys, pairs_map, StrMap};

verus! {

/// The record of no entries.
pub open spec fn empty_record() -> Map<Seq<char>, Seq<char>> {
    Map::empty()
}

/// The record published under `id`, or no entries where there is none.
pub open spec fn record_or_empty(records: Map<Seq<char>, Map<Seq<char>, Seq<char>>>, id: Seq<char>) -> Map<Seq<char>, Seq<char>> {
    if records.contains_key(id) {
        records[id]
    } else {
        empty_record()
    }
}

/// An in-memory credential store: published records addressed by binding
/// (or instance) identifier, each holding one value per key.
pub struct CredentialStore {
    records: StrMap<Vec<Credential>>,
}

impl CredentialStore {
    /// The store's map is well formed and each record has distinct keys.
    pub closed spec fn wf(&self) -> bool {
        &&& self.records.wf()
        &&& forall|id: Seq<char>| #[trigger] self.records.view().contains_key(id) ==> distinct_keys(record_view(self.records.view()[id]@))
    }

    /// The published records, by identifier, each as a map from key to value.
    pub closed spec fn view(&self) -> Map<Seq<char>, Map<Seq<char>, Seq<char>>> {
        self.records.view().map_values(|v: Vec<Credential>| pairs_map(record_view(v@)))
    }

    /// An empty store.
    pub fn new() -> (r: CredentialStore)
        ensures
            r.wf(),
            r.view() == Map::<Seq<char>, Map<Seq<char>, Seq<char>>>::empty(),
    {
        let r = CredentialStore { records: StrMap::new() };
        assert(r.view() =~= Map::<Seq<char>, Map<Seq<char>, Seq<char>>>::empty());
        r
    }

    /// Publishes `creds` under `id`, replacing any record published there
    /// before; a key given twice keeps the last value given.
    pub fn publish(&mut self, id: &str, creds: Vec<Credential>)
        requires
            old(self).wf(),
        ensures
            final(self).wf(),
            final(self).view() == old(self).view().insert(id@, last_wins(record_view(creds@))),
    {
        let ghost before = self.view();
        let stored = dedupe_record(&creds);
        self.records.insert(id, stored);
        assert(self.view() =~= before.insert(id@, last_wins(record_view(creds@))));
    }

    /// Removes the record published under `id`, if there is one.
    pub fn destroy(&mut self, id: &str)
        requires
            old(self).wf(),
        ensures
            final(self).wf(),
            final(self).view() == old(self).view().remove(id@),
    {
        let ghost before = self.view();
        let _ = self.records.remove(id);
        assert(self.view() =~= before.remove(id@));
    }

    /// The record published under `id`, each key once; no entries where none is.
    pub fn fetch(&self, id: &str) -> (r: Vec<Credential>)
        requires
            self.wf(),
        ensures
            distinct_keys(record_view(r@)),
            pairs_map(record_view(r@)) == record_or_empty(self.view(), id@),
    {
        match self.records.get(id) {
            Some(v) => copy_record(v),
            None => {
                let r: Vec<Credential> = Vec::new();
                assert(pairs_map(record_view(r@)) =~= empty_record());
                r
            },
        }
    }
}

} // verus!
