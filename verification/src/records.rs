//! The data that flows through the engine: standing queries, documents and
//! match records, each with the mathematical value its contracts speak of.

use vstd::prelude::*;
use crate::ids::fresh_id;
use crate::spans::spans_of;

verus! {

/// A standing search request.
#[derive(Debug, PartialEq, Eq, Hash, Clone)]
pub struct PersistentQuery {
    /// Human label.
    pub name: String,
    /// The text that is fuzzy-matched against every document.
    pub query: String,
    /// Primary key of the query and namespace of all its results.
    pub id: u64,
    /// A match counts only if its score is at least this.
    pub score_threshold: i64,
    /// Running count of the matches accepted for this query.
    pub result_count: u32,
}

/// What a [`PersistentQuery`] is, as a mathematical value.
pub struct QueryModel {
    pub name: Seq<char>,
    pub query: Seq<char>,
    pub id: u64,
    pub score_threshold: i64,
    pub result_count: u32,
}

impl View for PersistentQuery {
    type V = QueryModel;

    open spec fn view(&self) -> QueryModel {
        QueryModel {
            name: self.name@,
            query: self.query@,
            id: self.id,
            score_threshold: self.score_threshold,
            result_count: self.result_count,
        }
    }
}

impl PersistentQuery {
    /// A new query that has not matched anything yet.
    pub fn new(id: u64, name: String, q: String, threshold: i64) -> (out: PersistentQuery)
        ensures
            out == (PersistentQuery {
                name,
                query: q,
                id,
                score_threshold: threshold,
                result_count: 0,
            }),
    {
        PersistentQuery { name, query: q, id, score_threshold: threshold, result_count: 0 }
    }

    /// How many matches have been accepted for this query so far.
    pub fn result_count(&self) -> (count: u32)
        ensures
            count == self@.result_count,
    {
        self.result_count
    }
}

/// An ingested unit of text.
#[derive(Debug, PartialEq, Eq, Clone)]
pub struct TextSource {
    /// Assigned when the document is taken in; never changes afterwards.
    pub id: u64,
    /// Where the text came from, such as a file name.
    pub name: Option<String>,
    /// The raw text body.
    pub data: String,
}

/// What a [`TextSource`] is, as a mathematical value.
pub struct DocumentModel {
    pub id: u64,
    pub name: Option<Seq<char>>,
    pub data: Seq<char>,
}

/// The characters of an optional label.
pub open spec fn label_view(label: Option<String>) -> Option<Seq<char>> {
    match label {
        Some(text) => Some(text@),
        None => None,
    }
}

impl View for TextSource {
    type V = DocumentModel;

    open spec fn view(&self) -> DocumentModel {
        DocumentModel { id: self.id, name: label_view(self.name), data: self.data@ }
    }
}

impl TextSource {
    /// A document with the given body and label under a freshly drawn id.
    pub fn new(text: &str, text_name: Option<String>) -> (out: TextSource)
        ensures
            out.data@ == text@,
            out.name == text_name,
    {
        TextSource { id: fresh_id(), name: text_name, data: text.to_owned() }
    }
}

/// Durable evidence that a document matched a query.
#[derive(Debug, PartialEq, Eq, Clone)]
pub struct IndexData {
    /// The id of the query this match belongs to.
    pub source_query: u64,
    /// The record's own identifier.
    pub key: u64,
    /// The id of the document that matched.
    pub document_id: u64,
    /// A copy of the document's label.
    pub name: Option<String>,
    /// The highlighted `[start, end]` character ranges, both ends included.
    pub match_indices: Vec<[usize; 2]>,
    /// The score the matcher gave.
    pub score: i64,
}

/// What an [`IndexData`] is, as a mathematical value.
pub struct RecordModel {
    pub source_query: u64,
    pub key: u64,
    pub document_id: u64,
    pub name: Option<Seq<char>>,
    pub match_indices: Seq<(usize, usize)>,
    pub score: i64,
}

impl View for IndexData {
    type V = RecordModel;

    open spec fn view(&self) -> RecordModel {
        RecordModel {
            source_query: self.source_query,
            key: self.key,
            document_id: self.document_id,
            name: label_view(self.name),
            match_indices: spans_of(self.match_indices@),
            score: self.score,
        }
    }
}

/// The views of a list of records.
pub open spec fn record_views(records: Seq<IndexData>) -> Seq<RecordModel> {
    records.map_values(|r: IndexData| r@)
}

/// A peer's load, reported for operational visibility.
#[derive(Debug, PartialEq, Eq, Clone, Copy)]
pub struct LoadCapacityData {
    /// Open connections.
    pub conn_count: u32,
    /// Queries waiting to be registered.
    pub query_count: u32,
}

} // verus!
