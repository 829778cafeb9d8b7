//! What every handler shares: the envelope of a list and the first step,
//! getting a connection.

use crate::services::errors::ApiErrors;
use crate::store::statement::{Reply, ReplyView};
use vstd::prelude::*;

verus! {

/// The envelope of a list response: the rows under the key `result`.
#[derive(Debug, Clone, PartialEq, Eq)]
pub struct ResponseBodyVec<T> {
    pub result: T,
}

impl<T: DeepView> View for ResponseBodyVec<T> {
    type V = ResponseBodyVec<T::V>;

    open spec fn view(&self) -> ResponseBodyVec<T::V> {
        ResponseBodyVec { result: self.result.deep_view() }
    }
}

impl<T: DeepView> DeepView for ResponseBodyVec<T> {
    type V = ResponseBodyVec<T::V>;

    open spec fn deep_view(&self) -> ResponseBodyVec<T::V> {
        self@
    }
}

/// What the pool's answer means for a handler: it may go on only when a
/// connection was had.
pub open spec fn connection(reply: ReplyView) -> Result<(), ApiErrors> {
    match reply {
        ReplyView::Connected => Ok(()),
        _ => Err(ApiErrors::DatabaseConnectionError),
    }
}

/// Reads the pool's answer: `Ok` when a connection was had, and
/// `DatabaseConnectionError` on any other answer.
pub fn get_connection(reply: &Reply) -> (connected: Result<(), ApiErrors>)
    ensures
        connected == connection(reply@),
{
    match reply {
        Reply::Connected => Ok(()),
        _ => Err(ApiErrors::DatabaseConnectionError),
    }
}

} // verus!
