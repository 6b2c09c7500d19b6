//! The error taxonomy of the library. Every failure a caller can see is one
//! of these variants, each carrying a human-readable detail string.

use vstd::prelude::*;

verus! {

#[derive(Debug, Clone, PartialEq, Eq)]
pub enum RdfEditorError {
    /// The log file or another required resource could not be set up.
    Configuration(String),
    /// The remote store rejected a query or update.
    Sparql(String),
    /// Transport-level failure while talking to the remote store.
    Http(String),
    /// A record could not be encoded; indicates a programming defect.
    Serialization(String),
    /// The caller supplied input the library rejects.
    InvalidInput(String),
    /// The requested item is absent, or outside the recency window.
    NotFound(String),
    Cache(String),
    GraphLimitExceeded(String),
    InvalidHeader(String),
    Base64Decode(String),
    Utf8Error(String),
    /// The requested operation is not supported for this record,
    /// or an internal dispatch contract was violated.
    UnsupportedOperation(String),
}

/// The HTTP status code that reports this error to a client.
pub open spec fn spec_http_status(e: RdfEditorError) -> u16 {
    match e {
        RdfEditorError::Configuration(_) => 500,
        RdfEditorError::Sparql(_) => 502,
        RdfEditorError::Http(_) => 502,
        RdfEditorError::Serialization(_) => 400,
        RdfEditorError::InvalidInput(_) => 400,
        RdfEditorError::NotFound(_) => 404,
        RdfEditorError::Cache(_) => 500,
        RdfEditorError::GraphLimitExceeded(_) => 400,
        RdfEditorError::InvalidHeader(_) => 500,
        RdfEditorError::Base64Decode(_) => 400,
        RdfEditorError::Utf8Error(_) => 400,
        RdfEditorError::UnsupportedOperation(_) => 400,
    }
}

/// The short category label that reports this error to a client.
pub open spec fn spec_error_type(e: RdfEditorError) -> Seq<char> {
    match e {
        RdfEditorError::Configuration(_) => "configuration"@,
        RdfEditorError::Sparql(_) => "sparql"@,
        RdfEditorError::Http(_) => "http"@,
        RdfEditorError::Serialization(_) => "serialization"@,
        RdfEditorError::InvalidInput(_) => "invalid_input"@,
        RdfEditorError::NotFound(_) => "not_found"@,
        RdfEditorError::Cache(_) => "cache"@,
        RdfEditorError::GraphLimitExceeded(_) => "graph_limit"@,
        RdfEditorError::InvalidHeader(_) => "header"@,
        RdfEditorError::Base64Decode(_) => "base64"@,
        RdfEditorError::Utf8Error(_) => "utf8"@,
        RdfEditorError::UnsupportedOperation(_) => "unsupported_operation"@,
    }
}

/// The detail string the error carries.
pub open spec fn spec_error_detail(e: RdfEditorError) -> Seq<char> {
    match e {
        RdfEditorError::Configuration(s) => s@,
        RdfEditorError::Sparql(s) => s@,
        RdfEditorError::Http(s) => s@,
        RdfEditorError::Serialization(s) => s@,
        RdfEditorError::InvalidInput(s) => s@,
        RdfEditorError::NotFound(s) => s@,
        RdfEditorError::Cache(s) => s@,
        RdfEditorError::GraphLimitExceeded(s) => s@,
        RdfEditorError::InvalidHeader(s) => s@,
        RdfEditorError::Base64Decode(s) => s@,
        RdfEditorError::Utf8Error(s) => s@,
        RdfEditorError::UnsupportedOperation(s) => s@,
    }
}

impl RdfEditorError {
    /// The HTTP status code that reports this error to a client.
    pub fn http_status(&self) -> (r: u16)
        ensures
            r == spec_http_status(*self),
    {
        match self {
            RdfEditorError::Configuration(_) => 500,
            RdfEditorError::Sparql(_) => 502,
            RdfEditorError::Http(_) => 502,
            RdfEditorError::Serialization(_) => 400,
            RdfEditorError::InvalidInput(_) => 400,
            RdfEditorError::NotFound(_) => 404,
            RdfEditorError::Cache(_) => 500,
            RdfEditorError::GraphLimitExceeded(_) => 400,
            RdfEditorError::InvalidHeader(_) => 500,
            RdfEditorError::Base64Decode(_) => 400,
            RdfEditorError::Utf8Error(_) => 400,
            RdfEditorError::UnsupportedOperation(_) => 400,
        }
    }

    /// The short category label that reports this error to a client.
    pub fn error_type(&self) -> (r: &'static str)
        ensures
            r@ == spec_error_type(*self),
    {
        match self {
            RdfEditorError::Configuration(_) => "configuration",
            RdfEditorError::Sparql(_) => "sparql",
            RdfEditorError::Http(_) => "http",
            RdfEditorError::Serialization(_) => "serialization",
            RdfEditorError::InvalidInput(_) => "invalid_input",
            RdfEditorError::NotFound(_) => "not_found",
            RdfEditorError::Cache(_) => "cache",
            RdfEditorError::GraphLimitExceeded(_) => "graph_limit",
            RdfEditorError::InvalidHeader(_) => "header",
            RdfEditorError::Base64Decode(_) => "base64",
            RdfEditorError::Utf8Error(_) => "utf8",
            RdfEditorError::UnsupportedOperation(_) => "unsupported_operation",
        }
    }

    /// The detail string the error carries.
    pub fn detail(&self) -> (r: &String)
        ensures
            r@ == spec_error_detail(*self),
    {
        match self {
            RdfEditorError::Configuration(s) => s,
            RdfEditorError::Sparql(s) => s,
            RdfEditorError::Http(s) => s,
            RdfEditorError::Serialization(s) => s,
            RdfEditorError::InvalidInput(s) => s,
            RdfEditorError::NotFound(s) => s,
            RdfEditorError::Cache(s) => s,
            RdfEditorError::GraphLimitExceeded(s) => s,
            RdfEditorError::InvalidHeader(s) => s,
            RdfEditorError::Base64Decode(s) => s,
            RdfEditorError::Utf8Error(s) => s,
            RdfEditorError::UnsupportedOperation(s) => s,
        }
    }
}

} // verus!
