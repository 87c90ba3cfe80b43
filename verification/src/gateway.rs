//! The gateway: what a submission must satisfy before it reaches the
//! registry or the document channel, and what the caller is told.

use vstd::prelude::*;
use vstd::std_specs::convert::FromSpecImpl;
use vstd::string::StringExecFns;
use crate::errors::ApiError;
use crate::records::{PersistentQuery, QueryModel, TextSource};
use crate::registry::QueryWriter;

verus! {

/// A request to register a standing query.
#[derive(Debug, PartialEq, Eq, Clone)]
pub struct SubmitQueryRequest {
    /// The id under which the query is registered.
    pub id: u64,
    /// Human label.
    pub name: String,
    /// The text to match documents against.
    pub query_string: String,
    /// The least score at which a match counts.
    pub threshold: i64,
}

impl SubmitQueryRequest {
    /// The query that the request asks for, with no match counted yet.
    pub open spec fn query(self) -> QueryModel {
        QueryModel {
            name: self.name@,
            query: self.query_string@,
            id: self.id,
            score_threshold: self.threshold,
            result_count: 0,
        }
    }

}

impl From<SubmitQueryRequest> for PersistentQuery {
    /// The query that the request asks for.
    fn from(src: SubmitQueryRequest) -> (out: PersistentQuery) {
        PersistentQuery::new(src.id, src.name, src.query_string, src.threshold)
    }
}

impl FromSpecImpl<SubmitQueryRequest> for PersistentQuery {
    open spec fn obeys_from_spec() -> bool {
        true
    }

    open spec fn from_spec(src: SubmitQueryRequest) -> PersistentQuery {
        PersistentQuery {
            name: src.name,
            query: src.query_string,
            id: src.id,
            score_threshold: src.threshold,
            result_count: 0,
        }
    }
}

/// The acknowledgement of a submitted query.
#[derive(Debug, PartialEq, Eq, Clone, Copy)]
pub struct QuerySubmitResponse {
    pub successful: bool,
}

impl QuerySubmitResponse {
    /// The acknowledgement of a query that was registered.
    pub fn succeeded() -> (out: QuerySubmitResponse)
        ensures
            out.successful,
    {
        QuerySubmitResponse { successful: true }
    }
}

/// The acknowledgement of a submitted document.
#[derive(Debug, PartialEq, Eq, Clone, Copy)]
pub struct DocumentSubmissionResult {
    pub successful: bool,
}

/// A query is fit for registration when it has text to match and a positive
/// threshold.
pub open spec fn query_is_valid(query: QueryModel) -> bool {
    query.query.len() > 0 && query.score_threshold > 0
}

/// Checks a query before registration.
pub fn validate_query(query: &PersistentQuery) -> (out: Result<(), ApiError>)
    ensures
        out.is_ok() <==> query_is_valid(query@),
        out.is_err() ==> out == Err::<(), ApiError>(ApiError::QuerySubmission),
{
    if query.query.as_str().is_empty() || query.score_threshold <= 0 {
        Err(ApiError::QuerySubmission)
    } else {
        Ok(())
    }
}

/// Registers a query. One without text or with a threshold of zero or less
/// is turned down and leaves the registry as it was; any other is
/// registered under its id, in place of a query that held that id before.
pub fn submit_query(registry: &mut QueryWriter, payload: SubmitQueryRequest) -> (out: Result<
    QuerySubmitResponse,
    ApiError,
>)
    ensures
        out.is_ok() <==> query_is_valid(payload.query()),
        out.is_ok() ==> out.unwrap().successful && final(registry)@ == old(registry)@.insert(
            payload.id,
            payload.query(),
        ),
        out.is_err() ==> out == Err::<QuerySubmitResponse, ApiError>(ApiError::QuerySubmission)
            && final(registry)@ == old(registry)@,
{
    let query = PersistentQuery::from(payload);
    match validate_query(&query) {
        Ok(()) => {
            registry.insert(query);
            Ok(QuerySubmitResponse::succeeded())
        },
        Err(e) => Err(e),
    }
}

/// Checks a document before it is queued: its body must not be empty.
pub fn submit_document(text_payload: &TextSource) -> (out: Result<(), ApiError>)
    ensures
        out.is_ok() <==> text_payload@.data.len() > 0,
        out.is_err() ==> out == Err::<(), ApiError>(ApiError::DocSubmission),
{
    if text_payload.data.as_str().is_empty() {
        Err(ApiError::DocSubmission)
    } else {
        Ok(())
    }
}

/// What the submitter of a valid document is told once the channel has or
/// has not taken it.
pub fn document_queued(sent: bool) -> (out: Result<DocumentSubmissionResult, ApiError>)
    ensures
        out.is_ok() <==> sent,
        out.is_ok() ==> out.unwrap().successful,
        out.is_err() ==> out == Err::<DocumentSubmissionResult, ApiError>(
            ApiError::InternalChannelError,
        ),
{
    if sent {
        Ok(DocumentSubmissionResult { successful: true })
    } else {
        Err(ApiError::InternalChannelError)
    }
}

/// Looks a registered query up by id.
pub fn get_query(registry: &mut QueryWriter, query_id: u64) -> (out: Result<
    PersistentQuery,
    ApiError,
>)
    ensures
        final(registry)@ == old(registry)@,
        out.is_ok() <==> old(registry)@.contains_key(query_id),
        out.is_ok() ==> out.unwrap()@ == old(registry)@[query_id],
        out.is_err() ==> out == Err::<PersistentQuery, ApiError>(ApiError::NonExistentId),
{
    match registry.get(query_id) {
        Some(query) => Ok(query),
        None => Err(ApiError::NonExistentId),
    }
}

/// The answer of a live server to a health probe.
pub fn healthcheck() -> (out: &'static str)
    ensures
        out@ == "Healthy!"@,
{
    "Healthy!"
}

/// The greeting for a client that has connected from `peer`.
pub fn hello(name: &str, peer: &str) -> (out: String)
    ensures
        out@ == "Hello there "@ + name@ + "! You have connected to peer "@ + peer@,
{
    let mut out = "Hello there ".to_owned();
    out.append(name);
    out.append("! You have connected to peer ");
    out.append(peer);
    out
}

} // verus!
