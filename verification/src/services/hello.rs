//! The handler of the root path: the bare list of recipes.

use crate::services::response::{Payload, PayloadView, Response, ResponseView};
use crate::services::step::{Step, StepView};
use crate::services::utils::ResponseBodyVec;
use crate::store::statement::{Reply, ReplyView, Statement, StatementView};
use vstd::prelude::*;

verus! {

/// Where a request for the root path stands.
#[derive(Debug, Clone, Copy, PartialEq, Eq, Structural)]
pub enum Hello {
    /// A connection was asked for.
    Connecting,
    /// The recipes are being read.
    Listing,
}

impl View for Hello {
    type V = Hello;

    open spec fn view(&self) -> Hello {
        *self
    }
}

impl Hello {
    /// The transition of the handler: what it does in this state on this
    /// reply.
    pub open spec fn step(self, reply: ReplyView) -> StepView<Hello> {
        match self {
            Hello::Connecting => match reply {
                ReplyView::Connected => StepView::Run {
                    statement: StatementView::ListRecipes,
                    next: Hello::Listing,
                },
                _ => StepView::Respond {
                    response: ResponseView::server_error("Unable to get connection from pool"@),
                },
            },
            Hello::Listing => match reply {
                ReplyView::Recipes(recipes) => StepView::Respond {
                    response: ResponseView::ok(
                        PayloadView::Recipes(ResponseBodyVec { result: recipes }),
                    ),
                },
                _ => StepView::Respond {
                    response: ResponseView::server_error("Cannot get recipes from the database"@),
                },
            },
        }
    }

    /// A bound on the transitions still to come.
    pub open spec fn budget(self) -> nat {
        match self {
            Hello::Connecting => 2,
            Hello::Listing => 1,
        }
    }
}

/// Lists every recipe, without its categories, in the order of the store.
/// Each failure ends the request with status 500 and a text that says which
/// step failed.
pub fn hello(state: Hello, reply: Reply) -> (step: Step<Hello>)
    ensures
        step@ == state@.step(reply@),
{
    match state {
        Hello::Connecting => match reply {
            Reply::Connected => Step::Run {
                statement: Statement::ListRecipes,
                next: Hello::Listing,
            },
            _ => Step::Respond {
                response: Response::server_error("Unable to get connection from pool"),
            },
        },
        Hello::Listing => match reply {
            Reply::Recipes(recipes) => Step::Respond {
                response: Response::ok(Payload::Recipes(ResponseBodyVec { result: recipes })),
            },
            _ => Step::Respond {
                response: Response::server_error("Cannot get recipes from the database"),
            },
        },
    }
}

} // verus!
