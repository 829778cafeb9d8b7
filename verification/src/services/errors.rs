//! The failure kinds a handler can report.

use crate::services::response::{ContentType, Payload, PayloadView, Response, ResponseView};
use vstd::prelude::*;

verus! {

/// The closed set of failures that reach a client.
#[derive(Debug, Clone, Copy, PartialEq, Eq, Structural)]
pub enum ApiErrors {
    /// The store failed, or a value could not be encoded.
    InternalError,
    /// No connection to the store could be had.
    DatabaseConnectionError,
    /// The row asked for does not exist.
    NotFound,
}

impl ApiErrors {
    /// The HTTP status that stands for this error.
    pub open spec fn status(self) -> int {
        match self {
            ApiErrors::NotFound => 404,
            _ => 500,
        }
    }

    /// The text shown to the client. The two server-side failures read the
    /// same, so that a client learns nothing of the cause.
    pub open spec fn text(self) -> Seq<char> {
        match self {
            ApiErrors::NotFound => "Not found"@,
            _ => "An internal error occurred. Please try again later."@,
        }
    }

    /// The response that stands for this error: its status, and its text as
    /// an HTML body.
    pub open spec fn response(self) -> ResponseView {
        ResponseView {
            status: self.status(),
            content_type: Some(ContentType::Html),
            payload: PayloadView::Text(self.text()),
        }
    }

    /// The HTTP status that stands for this error: 404 for a missing row,
    /// 500 for everything else.
    pub fn status_code(&self) -> (code: u16)
        ensures
            code == self.status(),
    {
        match self {
            ApiErrors::InternalError => 500,
            ApiErrors::DatabaseConnectionError => 500,
            ApiErrors::NotFound => 404,
        }
    }

    /// The text shown to the client.
    pub fn message(&self) -> (message: String)
        ensures
            message@ == self.text(),
    {
        match self {
            ApiErrors::InternalError => "An internal error occurred. Please try again later."
                .to_owned(),
            ApiErrors::DatabaseConnectionError =>
                "An internal error occurred. Please try again later.".to_owned(),
            ApiErrors::NotFound => "Not found".to_owned(),
        }
    }

    /// The response that stands for this error.
    pub fn error_response(&self) -> (response: Response)
        ensures
            response@ == self.response(),
    {
        Response {
            status: self.status_code(),
            content_type: Some(ContentType::Html),
            payload: Payload::Text(self.message()),
        }
    }
}

} // verus!
