//! The errors that the engine reports to its callers.

use vstd::prelude::*;
use vstd::std_specs::convert::FromSpecImpl;

verus! {

/// A failed channel send of `tachyonix`, carried as an opaque value.
#[verifier::external_type_specification]
#[verifier::external_body]
#[verifier::reject_recursive_types(T)]
pub struct ExSendError<T>(tachyonix::SendError<T>);

/// An error of the `sled` store, carried as an opaque value.
#[verifier::external_type_specification]
#[verifier::external_body]
pub struct ExSledError(sled::Error);

/// Why a request at the gateway was turned down.
#[derive(Debug, Clone, Copy, PartialEq, Eq)]
pub enum ApiError {
    /// The document was malformed: its body was empty.
    DocSubmission,
    /// The query was malformed: its text was empty or its threshold not
    /// positive.
    QuerySubmission,
    /// Nothing is known under the requested id.
    NonExistentId,
    /// The document channel did not take the message.
    InternalChannelError,
}

impl ApiError {
    /// The text that describes the error.
    pub open spec fn message_text(self) -> Seq<char> {
        match self {
            ApiError::DocSubmission => "Could not submit document"@,
            ApiError::QuerySubmission => "Could not submit query"@,
            ApiError::NonExistentId => "Requested ID does not exist"@,
            ApiError::InternalChannelError => "Could not submit message over internal channel"@,
        }
    }

    /// The response status that stands for the error: bad input is a client
    /// error, an unknown id is unprocessable, a channel fault is a server
    /// error.
    pub open spec fn status(self) -> u16 {
        match self {
            ApiError::DocSubmission => 400,
            ApiError::QuerySubmission => 400,
            ApiError::NonExistentId => 422,
            ApiError::InternalChannelError => 500,
        }
    }

    /// The text that describes the error.
    pub fn message(&self) -> (out: String)
        ensures
            out@ == self.message_text(),
    {
        match self {
            ApiError::DocSubmission => "Could not submit document".to_owned(),
            ApiError::QuerySubmission => "Could not submit query".to_owned(),
            ApiError::NonExistentId => "Requested ID does not exist".to_owned(),
            ApiError::InternalChannelError => "Could not submit message over internal channel"
                .to_owned(),
        }
    }

    /// The response status that stands for the error.
    pub fn status_code(&self) -> (code: u16)
        ensures
            code == self.status(),
    {
        match self {
            ApiError::DocSubmission => 400,
            ApiError::QuerySubmission => 400,
            ApiError::NonExistentId => 422,
            ApiError::InternalChannelError => 500,
        }
    }

    /// The status and the message that answer a failed request.
    pub fn into_response(self) -> (out: (u16, String))
        ensures
            out.0 == self.status(),
            out.1@ == self.message_text(),
    {
        (self.status_code(), self.message())
    }
}

impl<T> From<tachyonix::SendError<T>> for ApiError {
    /// A message that the channel did not take is a channel error.
    fn from(_unsent: tachyonix::SendError<T>) -> (out: ApiError) {
        ApiError::InternalChannelError
    }
}

impl<T> FromSpecImpl<tachyonix::SendError<T>> for ApiError {
    open spec fn obeys_from_spec() -> bool {
        true
    }

    open spec fn from_spec(_unsent: tachyonix::SendError<T>) -> ApiError {
        ApiError::InternalChannelError
    }
}

/// What can go wrong behind the service interface.
#[derive(Debug, Clone, Copy, PartialEq, Eq)]
pub enum TarkineError {
    /// The durable store failed to read or write.
    Storage,
    /// A peer could not be reached.
    Network,
    /// An id was not found or was malformed.
    Id,
    /// Stored bytes did not decode.
    Parsing,
}

impl TarkineError {
    /// The text that describes the error.
    pub open spec fn message_text(self) -> Seq<char> {
        match self {
            TarkineError::Storage => "Error reading/writing from storage layer"@,
            TarkineError::Network => "Error communicating over network"@,
            TarkineError::Id => "Id not found or not correct format"@,
            TarkineError::Parsing => "Could not parse bytes"@,
        }
    }

    /// The text that describes the error.
    pub fn message(&self) -> (out: String)
        ensures
            out@ == self.message_text(),
    {
        match self {
            TarkineError::Storage => "Error reading/writing from storage layer".to_owned(),
            TarkineError::Network => "Error communicating over network".to_owned(),
            TarkineError::Id => "Id not found or not correct format".to_owned(),
            TarkineError::Parsing => "Could not parse bytes".to_owned(),
        }
    }
}

impl From<sled::Error> for TarkineError {
    /// Whatever went wrong in the store is a storage error.
    fn from(_fault: sled::Error) -> (out: TarkineError) {
        TarkineError::Storage
    }
}

impl FromSpecImpl<sled::Error> for TarkineError {
    open spec fn obeys_from_spec() -> bool {
        true
    }

    open spec fn from_spec(_fault: sled::Error) -> TarkineError {
        TarkineError::Storage
    }
}

} // verus!
