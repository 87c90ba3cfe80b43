use tarkine::errors::{ApiError, TarkineError};
use tarkine::gateway::{
    document_queued, get_query, healthcheck, hello, submit_document, submit_query, validate_query,
    DocumentSubmissionResult, QuerySubmitResponse, SubmitQueryRequest,
};
use tarkine::records::{LoadCapacityData, PersistentQuery, TextSource};
use tarkine::registry::registry;

fn request(id: u64, text: &str, threshold: i64) -> SubmitQueryRequest {
    SubmitQueryRequest {
        id,
        name: "label".to_string(),
        query_string: text.to_string(),
        threshold,
    }
}

#[test]
fn valid_query_is_registered() {
    let (mut writer, _reader) = registry(8);
    assert_eq!(
        submit_query(&mut writer, request(1, "Darcy", 60)),
        Ok(QuerySubmitResponse { successful: true })
    );
    assert_eq!(
        get_query(&mut writer, 1),
        Ok(PersistentQuery::new(1, "label".to_string(), "Darcy".to_string(), 60))
    );
}

#[test]
fn query_without_text_is_turned_down() {
    let (mut writer, _reader) = registry(8);
    assert_eq!(submit_query(&mut writer, request(1, "", 60)), Err(ApiError::QuerySubmission));
    assert_eq!(get_query(&mut writer, 1), Err(ApiError::NonExistentId));
}

#[test]
fn query_without_positive_threshold_is_turned_down() {
    let (mut writer, _reader) = registry(8);
    assert_eq!(submit_query(&mut writer, request(1, "Darcy", 0)), Err(ApiError::QuerySubmission));
    assert_eq!(submit_query(&mut writer, request(2, "Darcy", -5)), Err(ApiError::QuerySubmission));
    assert_eq!(get_query(&mut writer, 1), Err(ApiError::NonExistentId));
    assert_eq!(get_query(&mut writer, 2), Err(ApiError::NonExistentId));
    assert!(submit_query(&mut writer, request(3, "Darcy", 1)).is_ok());
}

#[test]
fn validate_query_checks_text_and_threshold() {
    let good = PersistentQuery::new(1, String::new(), "q".to_string(), 1);
    let no_text = PersistentQuery::new(1, "name".to_string(), String::new(), 1);
    let low = PersistentQuery::new(1, "name".to_string(), "q".to_string(), 0);
    assert_eq!(validate_query(&good), Ok(()));
    assert_eq!(validate_query(&no_text), Err(ApiError::QuerySubmission));
    assert_eq!(validate_query(&low), Err(ApiError::QuerySubmission));
}

#[test]
fn request_becomes_a_fresh_query() {
    let query = PersistentQuery::from(request(4, "Darcy", 60));
    assert_eq!(query, PersistentQuery::new(4, "label".to_string(), "Darcy".to_string(), 60));
    assert_eq!(query.result_count(), 0);
}

#[test]
fn succeeded_is_successful() {
    assert!(QuerySubmitResponse::succeeded().successful);
}

#[test]
fn document_needs_a_body() {
    let empty = TextSource { id: 1, name: None, data: String::new() };
    let full = TextSource { id: 1, name: None, data: "x".to_string() };
    assert_eq!(submit_document(&empty), Err(ApiError::DocSubmission));
    assert_eq!(submit_document(&full), Ok(()));
}

#[test]
fn channel_outcome_is_reported() {
    assert_eq!(document_queued(true), Ok(DocumentSubmissionResult { successful: true }));
    assert_eq!(document_queued(false), Err(ApiError::InternalChannelError));
}

#[test]
fn unknown_id_is_reported() {
    let (mut writer, _reader) = registry(8);
    assert_eq!(get_query(&mut writer, 77), Err(ApiError::NonExistentId));
}

#[test]
fn api_errors_have_status_and_message() {
    assert_eq!(
        ApiError::DocSubmission.into_response(),
        (400, "Could not submit document".to_string())
    );
    assert_eq!(
        ApiError::QuerySubmission.into_response(),
        (400, "Could not submit query".to_string())
    );
    assert_eq!(
        ApiError::NonExistentId.into_response(),
        (422, "Requested ID does not exist".to_string())
    );
    assert_eq!(
        ApiError::InternalChannelError.into_response(),
        (500, "Could not submit message over internal channel".to_string())
    );
    assert_eq!(ApiError::NonExistentId.status_code(), 422);
    assert_eq!(ApiError::DocSubmission.message(), "Could not submit document");
}

#[test]
fn service_errors_have_messages() {
    assert_eq!(TarkineError::Storage.message(), "Error reading/writing from storage layer");
    assert_eq!(TarkineError::Network.message(), "Error communicating over network");
    assert_eq!(TarkineError::Id.message(), "Id not found or not correct format");
    assert_eq!(TarkineError::Parsing.message(), "Could not parse bytes");
}

#[test]
fn failed_send_is_a_channel_error() {
    let unsent = tachyonix::SendError(5u8);
    assert_eq!(ApiError::from(unsent), ApiError::InternalChannelError);
}

#[test]
fn store_fault_is_a_storage_error() {
    let fault = sled::Error::Unsupported("no".to_string());
    assert_eq!(TarkineError::from(fault), TarkineError::Storage);
}

#[test]
fn health_probe_is_answered() {
    assert_eq!(healthcheck(), "Healthy!");
}

#[test]
fn greeting_names_client_and_peer() {
    assert_eq!(
        hello("Jane", "[::1]:8247"),
        "Hello there Jane! You have connected to peer [::1]:8247"
    );
    assert_eq!(hello("", ""), "Hello there ! You have connected to peer ");
}

#[test]
fn load_report_carries_both_counts() {
    let load = LoadCapacityData { conn_count: 3, query_count: 4 };
    assert_eq!(load.conn_count, 3);
    assert_eq!(load.query_count, 4);
}
