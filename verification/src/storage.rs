//! The match store: every record that the pipeline accepts, kept per query
//! in the order in which it came.

use vstd::prelude::*;
use std::collections::HashMap;
use crate::records::{record_views, IndexData, RecordModel};

verus! {

broadcast use vstd::std_specs::hash::group_hash_axioms;

/// An append-only list of match records for each query id.
#[derive(Debug)]
pub struct IndexStorage {
    indexes: HashMap<u64, Vec<IndexData>>,
}

/// The records kept for `query_id` in `store`: none where nothing was ever
/// stored for it.
pub open spec fn results_of(store: Map<u64, Seq<RecordModel>>, query_id: u64) -> Seq<RecordModel> {
    if store.contains_key(query_id) {
        store[query_id]
    } else {
        Seq::empty()
    }
}

impl View for IndexStorage {
    type V = Map<u64, Seq<RecordModel>>;

    closed spec fn view(&self) -> Map<u64, Seq<RecordModel>> {
        Map::new(
            |query_id: u64| self.indexes@.contains_key(query_id),
            |query_id: u64| record_views(self.indexes@[query_id]@),
        )
    }
}

impl IndexStorage {
    /// A store that holds no record.
    pub fn new() -> (out: IndexStorage)
        ensures
            out@ == Map::<u64, Seq<RecordModel>>::empty(),
    {
        let out = IndexStorage { indexes: HashMap::new() };
        assert(out@ =~= Map::<u64, Seq<RecordModel>>::empty());
        out
    }

    /// Appends a record to the list of the query it belongs to. The lists of
    /// all other queries stay as they are.
    pub fn store_index_data(&mut self, data: IndexData)
        ensures
            final(self)@ == old(self)@.insert(
                data.source_query,
                results_of(old(self)@, data.source_query).push(data@),
            ),
    {
        let key = data.source_query;
        let ghost before = self@;
        let ghost kept = results_of(before, key);
        let mut list = match self.indexes.remove(&key) {
            Some(list) => list,
            None => Vec::new(),
        };
        assert(record_views(list@) =~= kept);
        list.push(data);
        assert(record_views(list@) =~= kept.push(data@));
        self.indexes.insert(key, list);
        assert(self@ =~= before.insert(key, kept.push(data@)));
    }

    /// All records stored for a query, oldest first. A query for which
    /// nothing was stored has the empty list.
    pub fn get_query_results(&self, query_id: u64) -> (out: &[IndexData])
        ensures
            record_views(out@) == results_of(self@, query_id),
            !self@.contains_key(query_id) ==> out@.len() == 0,
    {
        match self.indexes.get(&query_id) {
            Some(list) => list.as_slice(),
            None => {
                let none: &[IndexData] = &[];
                assert(record_views(none@) =~= Seq::<RecordModel>::empty());
                none
            },
        }
    }
}

} // verus!
