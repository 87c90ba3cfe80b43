//! The ingestion pipeline: every incoming document is matched against every
//! registered query, and each accepted match becomes one record.

use vstd::prelude::*;
use crate::errors::TarkineError;
use crate::paths::{form_path, lemma_paths_are_distinct, path_of};
use crate::records::{
    DocumentModel, IndexData, PersistentQuery, QueryModel, RecordModel, TextSource,
};
use crate::registry::QueryReader;
use crate::search::{accepted, outcome, record_of, Searcher};
use crate::storage::{results_of, IndexStorage};

verus! {

/// The views of a list of queries.
pub open spec fn query_views(queries: Seq<PersistentQuery>) -> Seq<QueryModel> {
    queries.map_values(|q: PersistentQuery| q@)
}

/// A record with its key blanked, for comparing records whose keys were
/// drawn at random.
pub open spec fn keyless(record: RecordModel) -> RecordModel {
    RecordModel { key: 0, ..record }
}

/// The views of a list of records, keys blanked.
pub open spec fn keyless_views(records: Seq<IndexData>) -> Seq<RecordModel> {
    records.map_values(|r: IndexData| keyless(r@))
}

/// The records, keys blanked, that matching `document` against `queries`
/// produces: one for each query whose match is accepted, in the order of the
/// queries.
pub open spec fn matches(queries: Seq<QueryModel>, document: DocumentModel) -> Seq<RecordModel>
    decreases queries.len(),
{
    if queries.len() == 0 {
        Seq::empty()
    } else {
        let before = matches(queries.drop_last(), document);
        let query = queries.last();
        if accepted(query, outcome(query, document)) {
            before.push(record_of(query, document, outcome(query, document).unwrap(), 0))
        } else {
            before
        }
    }
}

/// Matches one document against each of the given queries in turn. Every
/// query is judged on its own: whether it yields a record depends on that
/// query and the document alone.
pub fn match_all(engine: &Searcher, queries: &Vec<PersistentQuery>, text: &TextSource) -> (out:
    Vec<IndexData>)
    ensures
        keyless_views(out@) == matches(query_views(queries@), text@),
{
    let mut results: Vec<IndexData> = Vec::new();
    let mut i: usize = 0;
    assert(query_views(queries@).take(0) =~= Seq::<QueryModel>::empty());
    assert(keyless_views(results@) =~= matches(query_views(queries@).take(0), text@));
    while i < queries.len()
        invariant
            0 <= i <= queries.len(),
            keyless_views(results@) == matches(query_views(queries@).take(i as int), text@),
        decreases queries.len() - i,
    {
        let ghost done = keyless_views(results@);
        proof {
            let prefix = query_views(queries@).take(i + 1);
            assert(prefix.drop_last() =~= query_views(queries@).take(i as int));
            assert(prefix.last() == queries@[i as int]@);
        }
        match engine.search(&queries[i], text) {
            Some(record) => {
                results.push(record);
                assert(keyless_views(results@) =~= done.push(keyless(record@)));
            },
            None => {},
        }
        i += 1;
    }
    assert(query_views(queries@).take(i as int) =~= query_views(queries@));
    results
}

/// A reader of the registry together with the matcher that it runs every
/// document through.
pub struct QueryShard {
    inner: QueryReader,
    engine: Searcher,
}

impl QueryShard {
    /// A shard that matches against what `reader` shows.
    pub fn new(reader: QueryReader) -> (out: QueryShard)
        ensures
            out.reader() == reader,
    {
        QueryShard { inner: reader, engine: Searcher::new() }
    }

    /// The reader whose snapshots the shard matches documents against.
    pub closed spec fn reader(&self) -> QueryReader {
        self.inner
    }

    /// Matches a document against a snapshot of the registry taken at the
    /// call. A query inserted while the call runs may or may not be in it.
    pub fn search(&self, text: TextSource) -> (out: Vec<IndexData>)
        ensures
            exists|snapshot: Seq<QueryModel>|
                keyless_views(out@) == #[trigger] matches(snapshot, text@),
    {
        let queries = self.inner.snapshot();
        match_all(&self.engine, &queries, &text)
    }
}

/// Where the records that one document produced are to be persisted: for
/// each record, in order, the file named by its query and its document.
pub fn output_paths(records: &Vec<IndexData>) -> (paths: Vec<String>)
    ensures
        paths@.len() == records@.len(),
        forall|i: int|
            0 <= i < records@.len() ==> (#[trigger] paths@[i])@ == path_of(
                records@[i].source_query,
                records@[i].document_id,
            ),
{
    let mut paths: Vec<String> = Vec::with_capacity(records.len());
    let mut i: usize = 0;
    while i < records.len()
        invariant
            0 <= i <= records.len(),
            paths@.len() == i,
            forall|k: int|
                0 <= k < i ==> (#[trigger] paths@[k])@ == path_of(
                    records@[k].source_query,
                    records@[k].document_id,
                ),
        decreases records.len() - i,
    {
        paths.push(form_path(records[i].source_query, records[i].document_id));
        i += 1;
    }
    paths
}

/// What one document asks of the disk: the queries it was matched against,
/// the records it produced and, for each record, the file to write it to.
pub struct IndexPlan {
    /// The snapshot of the registry that the document was matched against.
    pub queries: Vec<PersistentQuery>,
    /// One record for each query of the snapshot whose match was accepted.
    pub records: Vec<IndexData>,
    /// For each record, the file that is to hold it.
    pub paths: Vec<String>,
}

/// Plans the work for one document that came off the channel: takes a
/// snapshot of the registry, matches the document against every query in
/// it, and names the file of every record.
pub fn plan_document(shard: &QueryShard, text: TextSource) -> (plan: IndexPlan)
    ensures
        keyless_views(plan.records@) == matches(query_views(plan.queries@), text@),
        plan.paths@.len() == plan.records@.len(),
        forall|i: int|
            0 <= i < plan.records@.len() ==> (#[trigger] plan.paths@[i])@ == path_of(
                plan.records@[i].source_query,
                plan.records@[i].document_id,
            ),
{
    let queries = shard.inner.snapshot();
    let records = match_all(&shard.engine, &queries, &text);
    let paths = output_paths(&records);
    IndexPlan { queries, records, paths }
}

/// Takes note of how the write of one record ended. A record that was
/// written enters the store at the end of its query's list; one that was not
/// is reported as a storage error and leaves the store as it was.
pub fn record_persisted(store: &mut IndexStorage, record: IndexData, written: bool) -> (out: Result<
    (),
    TarkineError,
>)
    ensures
        out.is_ok() <==> written,
        out.is_ok() ==> final(store)@ == old(store)@.insert(
            record.source_query,
            results_of(old(store)@, record.source_query).push(record@),
        ),
        out.is_err() ==> out == Err::<(), TarkineError>(TarkineError::Storage) && final(store)@
            == old(store)@,
{
    if written {
        store.store_index_data(record);
        Ok(())
    } else {
        Err(TarkineError::Storage)
    }
}

/// No two queries of the list share an id.
pub open spec fn distinct_ids(queries: Seq<QueryModel>) -> bool {
    forall|i: int, j: int| 0 <= i < j < queries.len() ==> queries[i].id != queries[j].id
}

/// Query `j` of the list is accepted for the document, and `record` is the
/// record that it yields.
pub open spec fn yields(
    queries: Seq<QueryModel>,
    document: DocumentModel,
    j: int,
    record: RecordModel,
) -> bool {
    &&& 0 <= j < queries.len()
    &&& accepted(queries[j], outcome(queries[j], document))
    &&& record == record_of(queries[j], document, outcome(queries[j], document).unwrap(), 0)
}

/// `record` stands at index `k` of `records`, and no other record there
/// belongs to the same query.
pub open spec fn sole_record(records: Seq<RecordModel>, k: int, record: RecordModel) -> bool {
    &&& 0 <= k < records.len()
    &&& records[k] == record
    &&& forall|other: int|
        0 <= other < records.len() && other != k ==> (#[trigger] records[other]).source_query
            != record.source_query
}

/// Every record that matching produces comes from an accepted query of the
/// list.
pub proof fn lemma_records_come_from_accepted_queries(
    queries: Seq<QueryModel>,
    document: DocumentModel,
    k: int,
)
    requires
        0 <= k < matches(queries, document).len(),
    ensures
        exists|j: int| yields(queries, document, j, matches(queries, document)[k]),
    decreases queries.len(),
{
    let front = queries.drop_last();
    let last = queries.last();
    if k < matches(front, document).len() {
        lemma_records_come_from_accepted_queries(front, document, k);
        let j = choose|j: int| yields(front, document, j, matches(front, document)[k]);
        assert(yields(queries, document, j, matches(queries, document)[k]));
    } else {
        assert(yields(queries, document, queries.len() - 1, matches(queries, document)[k]));
    }
}

/// Each query is judged on its own: a query whose match is accepted gets its
/// record whatever the other queries of the list are and however they fare.
pub proof fn lemma_every_accepted_query_is_served(
    queries: Seq<QueryModel>,
    document: DocumentModel,
    i: int,
)
    requires
        0 <= i < queries.len(),
        accepted(queries[i], outcome(queries[i], document)),
    ensures
        exists|k: int|
            0 <= k < matches(queries, document).len() && #[trigger] matches(queries, document)[k]
                == record_of(queries[i], document, outcome(queries[i], document).unwrap(), 0),
    decreases queries.len(),
{
    let front = queries.drop_last();
    if i < queries.len() - 1 {
        lemma_every_accepted_query_is_served(front, document, i);
        let k = choose|k: int|
            0 <= k < matches(front, document).len() && #[trigger] matches(front, document)[k]
                == record_of(front[i], document, outcome(front[i], document).unwrap(), 0);
        assert(matches(queries, document)[k] == matches(front, document)[k]);
    } else {
        let k = matches(front, document).len() as int;
        assert(matches(queries, document)[k] == record_of(
            queries[i],
            document,
            outcome(queries[i], document).unwrap(),
            0,
        ));
    }
}

/// Where the ids of the queries are distinct, a query whose match reaches
/// its threshold gets exactly one record: it names the query and the
/// document and carries the match's score and spans.
pub proof fn lemma_accepted_query_has_one_record(
    queries: Seq<QueryModel>,
    document: DocumentModel,
    i: int,
)
    requires
        distinct_ids(queries),
        0 <= i < queries.len(),
        accepted(queries[i], outcome(queries[i], document)),
    ensures
        exists|k: int|
            sole_record(
                matches(queries, document),
                k,
                record_of(queries[i], document, outcome(queries[i], document).unwrap(), 0),
            ),
{
    let records = matches(queries, document);
    let record = record_of(queries[i], document, outcome(queries[i], document).unwrap(), 0);
    lemma_every_accepted_query_is_served(queries, document, i);
    let k = choose|k: int| 0 <= k < records.len() && #[trigger] records[k] == record;
    assert forall|other: int| 0 <= other < records.len() && other != k implies (
    #[trigger] records[other]).source_query != record.source_query by {
        if records[other].source_query == record.source_query {
            lemma_records_come_from_accepted_queries(queries, document, other);
            let j = choose|j: int| yields(queries, document, j, records[other]);
            assert(j == i);
            lemma_records_in_query_order(queries, document, other, k);
        }
    }
    assert(sole_record(records, k, record));
}

/// Two different records never come from the same query of the list: equal
/// records at two indices would need the query to occur twice.
proof fn lemma_records_in_query_order(
    queries: Seq<QueryModel>,
    document: DocumentModel,
    a: int,
    b: int,
)
    requires
        distinct_ids(queries),
        0 <= a < matches(queries, document).len(),
        0 <= b < matches(queries, document).len(),
        a != b,
    ensures
        matches(queries, document)[a].source_query != matches(queries, document)[b].source_query,
    decreases queries.len(),
{
    let front = queries.drop_last();
    let inner = matches(front, document).len();
    assert(distinct_ids(front));
    if a < inner && b < inner {
        lemma_records_in_query_order(front, document, a, b);
    } else {
        let low = if a < inner { a } else { b };
        lemma_records_come_from_accepted_queries(front, document, low);
        let j = choose|j: int| yields(front, document, j, matches(front, document)[low]);
        assert(queries[j].id != queries[queries.len() - 1].id);
    }
}

/// Where the ids of the queries are distinct, a query that does not match the
/// document, or matches it below its threshold, gets no record.
pub proof fn lemma_rejected_query_has_no_record(
    queries: Seq<QueryModel>,
    document: DocumentModel,
    i: int,
)
    requires
        distinct_ids(queries),
        0 <= i < queries.len(),
        !accepted(queries[i], outcome(queries[i], document)),
    ensures
        forall|k: int|
            0 <= k < matches(queries, document).len() ==> (#[trigger] matches(
                queries,
                document,
            )[k]).source_query != queries[i].id,
{
    let records = matches(queries, document);
    assert forall|k: int| 0 <= k < records.len() implies (#[trigger] records[k]).source_query
        != queries[i].id by {
        lemma_records_come_from_accepted_queries(queries, document, k);
        let j = choose|j: int| yields(queries, document, j, records[k]);
        if j != i {
            assert(queries[j].id != queries[i].id);
        }
    }
}

/// Where the ids of the queries are distinct, a query that does not match
/// the document, or matches it below its threshold, has no file planned for
/// it: no record of the document goes to the path of that query.
pub proof fn lemma_rejected_query_has_no_file(
    queries: Seq<QueryModel>,
    document: DocumentModel,
    i: int,
    k: int,
)
    requires
        distinct_ids(queries),
        0 <= i < queries.len(),
        !accepted(queries[i], outcome(queries[i], document)),
        0 <= k < matches(queries, document).len(),
    ensures
        path_of(
            matches(queries, document)[k].source_query,
            matches(queries, document)[k].document_id,
        ) != path_of(queries[i].id, document.id),
{
    let record = matches(queries, document)[k];
    lemma_rejected_query_has_no_record(queries, document, i);
    if path_of(record.source_query, record.document_id) == path_of(queries[i].id, document.id) {
        lemma_paths_are_distinct(
            record.source_query,
            record.document_id,
            queries[i].id,
            document.id,
        );
    }
}

/// Where the ids of the queries are distinct, the records of one document
/// all go to different files.
pub proof fn lemma_planned_files_are_distinct(
    queries: Seq<QueryModel>,
    document: DocumentModel,
    a: int,
    b: int,
)
    requires
        distinct_ids(queries),
        0 <= a < matches(queries, document).len(),
        0 <= b < matches(queries, document).len(),
        a != b,
    ensures
        path_of(
            matches(queries, document)[a].source_query,
            matches(queries, document)[a].document_id,
        ) != path_of(
            matches(queries, document)[b].source_query,
            matches(queries, document)[b].document_id,
        ),
{
    let first = matches(queries, document)[a];
    let second = matches(queries, document)[b];
    lemma_records_in_query_order(queries, document, a, b);
    if path_of(first.source_query, first.document_id) == path_of(
        second.source_query,
        second.document_id,
    ) {
        lemma_paths_are_distinct(
            first.source_query,
            first.document_id,
            second.source_query,
            second.document_id,
        );
    }
}

} // verus!
