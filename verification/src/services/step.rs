//! What a handler does next.

use crate::services::errors::ApiErrors;
use crate::services::response::{Response, ResponseView};
use crate::store::statement::{Statement, StatementView};
use vstd::prelude::*;

verus! {

/// The outcome of one transition of a handler: either a statement for the
/// store, with the state in which its reply is awaited, or the response
/// that ends the request.
#[derive(Debug, Clone, PartialEq, Eq)]
pub enum Step<S> {
    Run { statement: Statement, next: S },
    Respond { response: Response },
}

/// `Step` as a mathematical value.
pub enum StepView<S> {
    Run { statement: StatementView, next: S },
    Respond { response: ResponseView },
}

impl<S: View> View for Step<S> {
    type V = StepView<S::V>;

    open spec fn view(&self) -> StepView<S::V> {
        match self {
            Step::Run { statement, next } => StepView::Run { statement: statement@, next: next@ },
            Step::Respond { response } => StepView::Respond { response: response@ },
        }
    }
}

/// The step that gives up after a write: undo the transaction, then answer
/// with the internal error.
pub open spec fn rollback<S>(aborting: S) -> StepView<S> {
    StepView::Run { statement: StatementView::Rollback, next: aborting }
}

/// The step that ends a request with an error.
pub open spec fn fail<S>(error: ApiErrors) -> StepView<S> {
    StepView::Respond { response: error.response() }
}

/// Ends a request with an error.
pub fn fail_with<S: View>(error: ApiErrors) -> (step: Step<S>)
    ensures
        step@ == fail::<S::V>(error),
{
    Step::Respond { response: error.error_response() }
}

/// Gives up after a write: asks the store to undo the transaction and goes
/// to the state that answers with the internal error.
pub fn undo<S: View>(aborting: S) -> (step: Step<S>)
    ensures
        step@ == rollback::<S::V>(aborting@),
{
    Step::Run { statement: Statement::Rollback, next: aborting }
}

} // verus!
