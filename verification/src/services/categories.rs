//! The handlers of the category endpoints.

use crate::models::category::{
    ChangeCategory, ChangeCategoryView, NewCategory, NewCategoryView,
};
use crate::services::errors::ApiErrors;
use crate::services::response::{Payload, PayloadView, Response, ResponseView};
use crate::services::routes::{crud, crud_routes, Endpoint, Route};
use crate::services::step::{fail, fail_with, rollback, undo, Step, StepView};
use crate::services::utils::{connection, get_connection, ResponseBodyVec};
use crate::store::statement::{Reply, ReplyView, Statement, StatementView};
use vstd::prelude::*;

verus! {

/// Where a request that lists the categories stands.
#[derive(Debug, Clone, Copy, PartialEq, Eq, Structural)]
pub enum CategoriesList {
    /// A connection was asked for.
    Connecting,
    /// The categories are being read.
    Listing,
}

impl View for CategoriesList {
    type V = CategoriesList;

    open spec fn view(&self) -> CategoriesList {
        *self
    }
}

impl CategoriesList {
    /// The transition of the handler: what it does in this state on this
    /// reply.
    pub open spec fn step(self, reply: ReplyView) -> StepView<CategoriesList> {
        match self {
            CategoriesList::Connecting => match connection(reply) {
                Ok(_) => StepView::Run {
                    statement: StatementView::ListCategories,
                    next: CategoriesList::Listing,
                },
                Err(error) => fail(error),
            },
            CategoriesList::Listing => match reply {
                ReplyView::Categories(categories) => StepView::Respond {
                    response: ResponseView::ok(
                        PayloadView::Categories(ResponseBodyVec { result: categories }),
                    ),
                },
                _ => fail(ApiErrors::InternalError),
            },
        }
    }

    /// A bound on the transitions still to come.
    pub open spec fn budget(self) -> nat {
        match self {
            CategoriesList::Connecting => 2,
            CategoriesList::Listing => 1,
        }
    }
}

/// Lists every category, in the order of the store. A failure of the store
/// ends the request with the internal error.
pub fn categories_list(state: CategoriesList, reply: Reply) -> (step: Step<CategoriesList>)
    ensures
        step@ == state@.step(reply@),
{
    match state {
        CategoriesList::Connecting => match get_connection(&reply) {
            Ok(_) => Step::Run {
                statement: Statement::ListCategories,
                next: CategoriesList::Listing,
            },
            Err(error) => fail_with(error),
        },
        CategoriesList::Listing => match reply {
            Reply::Categories(categories) => Step::Respond {
                response: Response::ok(
                    Payload::Categories(ResponseBodyVec { result: categories }),
                ),
            },
            _ => fail_with(ApiErrors::InternalError),
        },
    }
}

/// Where a request that reads one category stands.
#[derive(Debug, Clone, Copy, PartialEq, Eq, Structural)]
pub enum CategoriesGet {
    /// A connection was asked for.
    Connecting { id: i32 },
    /// The category is being read.
    Finding,
}

/// `CategoriesGet` as a mathematical value.
pub enum CategoriesGetView {
    Connecting { id: int },
    Finding,
}

impl View for CategoriesGet {
    type V = CategoriesGetView;

    open spec fn view(&self) -> CategoriesGetView {
        match self {
            CategoriesGet::Connecting { id } => CategoriesGetView::Connecting { id: *id as int },
            CategoriesGet::Finding => CategoriesGetView::Finding,
        }
    }
}

impl CategoriesGetView {
    /// The transition of the handler: what it does in this state on this
    /// reply.
    pub open spec fn step(self, reply: ReplyView) -> StepView<CategoriesGetView> {
        match self {
            CategoriesGetView::Connecting { id } => match connection(reply) {
                Ok(_) => StepView::Run {
                    statement: StatementView::FindCategory { id },
                    next: CategoriesGetView::Finding,
                },
                Err(error) => fail(error),
            },
            CategoriesGetView::Finding => match reply {
                ReplyView::Category(category) => StepView::Respond {
                    response: ResponseView::ok(PayloadView::Category(category)),
                },
                ReplyView::Missing => fail(ApiErrors::NotFound),
                _ => fail(ApiErrors::InternalError),
            },
        }
    }

    /// A bound on the transitions still to come.
    pub open spec fn budget(self) -> nat {
        match self {
            CategoriesGetView::Connecting { id } => 2,
            CategoriesGetView::Finding => 1,
        }
    }
}

/// Reads one category. A category that does not exist ends the request with
/// `NotFound`; a failure of the store with the internal error.
pub fn categories_get(state: CategoriesGet, reply: Reply) -> (step: Step<CategoriesGet>)
    ensures
        step@ == state@.step(reply@),
{
    match state {
        CategoriesGet::Connecting { id } => match get_connection(&reply) {
            Ok(_) => Step::Run {
                statement: Statement::FindCategory { id },
                next: CategoriesGet::Finding,
            },
            Err(error) => fail_with(error),
        },
        CategoriesGet::Finding => match reply {
            Reply::Category(category) => Step::Respond {
                response: Response::ok(Payload::Category(category)),
            },
            Reply::Missing => fail_with(ApiErrors::NotFound),
            _ => fail_with(ApiErrors::InternalError),
        },
    }
}

/// Where a request that creates a category stands.
#[derive(Debug, Clone, PartialEq, Eq)]
pub enum CategoriesCreate {
    /// A connection was asked for.
    Connecting { category: NewCategory },
    /// The category is being inserted.
    Inserting,
}

/// `CategoriesCreate` as a mathematical value.
pub enum CategoriesCreateView {
    Connecting { category: NewCategoryView },
    Inserting,
}

impl View for CategoriesCreate {
    type V = CategoriesCreateView;

    open spec fn view(&self) -> CategoriesCreateView {
        match self {
            CategoriesCreate::Connecting { category } => CategoriesCreateView::Connecting {
                category: category@,
            },
            CategoriesCreate::Inserting => CategoriesCreateView::Inserting,
        }
    }
}

impl CategoriesCreateView {
    /// The transition of the handler: what it does in this state on this
    /// reply.
    pub open spec fn step(self, reply: ReplyView) -> StepView<CategoriesCreateView> {
        match self {
            CategoriesCreateView::Connecting { category } => match connection(reply) {
                Ok(_) => StepView::Run {
                    statement: StatementView::InsertCategory { category },
                    next: CategoriesCreateView::Inserting,
                },
                Err(error) => fail(error),
            },
            CategoriesCreateView::Inserting => match reply {
                ReplyView::Category(category) => StepView::Respond {
                    response: ResponseView::ok(PayloadView::Category(category)),
                },
                _ => fail(ApiErrors::InternalError),
            },
        }
    }

    /// A bound on the transitions still to come.
    pub open spec fn budget(self) -> nat {
        match self {
            CategoriesCreateView::Connecting { category } => 2,
            CategoriesCreateView::Inserting => 1,
        }
    }
}

/// Creates a category. On success the response holds the category as the
/// store returned it, with its new `id`; a name that is taken, like any
/// other failure of the store, ends the request with the internal error.
pub fn categories_create(state: CategoriesCreate, reply: Reply) -> (step: Step<CategoriesCreate>)
    ensures
        step@ == state@.step(reply@),
{
    match state {
        CategoriesCreate::Connecting { category } => match get_connection(&reply) {
            Ok(_) => Step::Run {
                statement: Statement::InsertCategory { category },
                next: CategoriesCreate::Inserting,
            },
            Err(error) => fail_with(error),
        },
        CategoriesCreate::Inserting => match reply {
            Reply::Category(category) => Step::Respond {
                response: Response::ok(Payload::Category(category)),
            },
            _ => fail_with(ApiErrors::InternalError),
        },
    }
}

/// The statement that changes a category. A change that names no field is
/// nothing to write: the category is only read.
pub open spec fn category_change_query(id: int, changes: ChangeCategoryView) -> StatementView {
    if changes.is_empty() {
        StatementView::FindCategory { id }
    } else {
        StatementView::UpdateCategory { id, changes }
    }
}

/// The statement that changes a category.
pub fn change_category_query(id: i32, changes: ChangeCategory) -> (statement: Statement)
    ensures
        statement@ == category_change_query(id as int, changes@),
{
    if changes.is_empty() {
        Statement::FindCategory { id }
    } else {
        Statement::UpdateCategory { id, changes }
    }
}

/// Where a request that changes a category stands.
#[derive(Debug, Clone, PartialEq, Eq)]
pub enum CategoriesChange {
    /// A connection was asked for.
    Connecting { id: i32, changes: ChangeCategory },
    /// The category is being changed.
    Updating,
}

/// `CategoriesChange` as a mathematical value.
pub enum CategoriesChangeView {
    Connecting { id: int, changes: ChangeCategoryView },
    Updating,
}

impl View for CategoriesChange {
    type V = CategoriesChangeView;

    open spec fn view(&self) -> CategoriesChangeView {
        match self {
            CategoriesChange::Connecting { id, changes } => CategoriesChangeView::Connecting {
                id: *id as int,
                changes: changes@,
            },
            CategoriesChange::Updating => CategoriesChangeView::Updating,
        }
    }
}

impl CategoriesChangeView {
    /// The transition of the handler: what it does in this state on this
    /// reply.
    pub open spec fn step(self, reply: ReplyView) -> StepView<CategoriesChangeView> {
        match self {
            CategoriesChangeView::Connecting { id, changes } => match connection(reply) {
                Ok(_) => StepView::Run {
                    statement: category_change_query(id, changes),
                    next: CategoriesChangeView::Updating,
                },
                Err(error) => fail(error),
            },
            CategoriesChangeView::Updating => match reply {
                ReplyView::Category(category) => StepView::Respond {
                    response: ResponseView::ok(PayloadView::Category(category)),
                },
                _ => fail(ApiErrors::InternalError),
            },
        }
    }

    /// A bound on the transitions still to come.
    pub open spec fn budget(self) -> nat {
        match self {
            CategoriesChangeView::Connecting { id, changes } => 2,
            CategoriesChangeView::Updating => 1,
        }
    }
}

/// Changes a category. On success the response holds the category as the
/// store returned it. A category that does not exist, like any failure of
/// the store, ends the request with the internal error.
pub fn categories_change(state: CategoriesChange, reply: Reply) -> (step: Step<CategoriesChange>)
    ensures
        step@ == state@.step(reply@),
{
    match state {
        CategoriesChange::Connecting { id, changes } => match get_connection(&reply) {
            Ok(_) => Step::Run {
                statement: change_category_query(id, changes),
                next: CategoriesChange::Updating,
            },
            Err(error) => fail_with(error),
        },
        CategoriesChange::Updating => match reply {
            Reply::Category(category) => Step::Respond {
                response: Response::ok(Payload::Category(category)),
            },
            _ => fail_with(ApiErrors::InternalError),
        },
    }
}

/// Where a request that deletes a category stands.
#[derive(Debug, Clone, Copy, PartialEq, Eq, Structural)]
pub enum CategoriesDelete {
    /// A connection was asked for.
    Connecting { id: i32 },
    /// A transaction was asked for.
    Opening { id: i32 },
    /// The category's association rows are being removed.
    Unlinking { id: i32 },
    /// The category is being removed.
    Deleting,
    /// The transaction is being committed.
    Committing,
    /// The transaction is being undone.
    Aborting,
}

/// `CategoriesDelete` as a mathematical value.
pub enum CategoriesDeleteView {
    Connecting { id: int },
    Opening { id: int },
    Unlinking { id: int },
    Deleting,
    Committing,
    Aborting,
}

impl View for CategoriesDelete {
    type V = CategoriesDeleteView;

    open spec fn view(&self) -> CategoriesDeleteView {
        match self {
            CategoriesDelete::Connecting { id } => CategoriesDeleteView::Connecting {
                id: *id as int,
            },
            CategoriesDelete::Opening { id } => CategoriesDeleteView::Opening { id: *id as int },
            CategoriesDelete::Unlinking { id } => CategoriesDeleteView::Unlinking {
                id: *id as int,
            },
            CategoriesDelete::Deleting => CategoriesDeleteView::Deleting,
            CategoriesDelete::Committing => CategoriesDeleteView::Committing,
            CategoriesDelete::Aborting => CategoriesDeleteView::Aborting,
        }
    }
}

impl CategoriesDeleteView {
    /// The transition of the handler: what it does in this state on this
    /// reply.
    pub open spec fn step(self, reply: ReplyView) -> StepView<CategoriesDeleteView> {
        match self {
            CategoriesDeleteView::Connecting { id } => match connection(reply) {
                Ok(_) => StepView::Run {
                    statement: StatementView::Begin,
                    next: CategoriesDeleteView::Opening { id },
                },
                Err(error) => fail(error),
            },
            CategoriesDeleteView::Opening { id } => match reply {
                ReplyView::Done => StepView::Run {
                    statement: StatementView::DeleteRecipesOfCategory { category_id: id },
                    next: CategoriesDeleteView::Unlinking { id },
                },
                _ => fail(ApiErrors::InternalError),
            },
            CategoriesDeleteView::Unlinking { id } => match reply {
                ReplyView::Done => StepView::Run {
                    statement: StatementView::DeleteCategory { id },
                    next: CategoriesDeleteView::Deleting,
                },
                _ => rollback(CategoriesDeleteView::Aborting),
            },
            CategoriesDeleteView::Deleting => match reply {
                ReplyView::Done => StepView::Run {
                    statement: StatementView::Commit,
                    next: CategoriesDeleteView::Committing,
                },
                _ => rollback(CategoriesDeleteView::Aborting),
            },
            CategoriesDeleteView::Committing => match reply {
                ReplyView::Done => StepView::Respond { response: ResponseView::no_content() },
                _ => fail(ApiErrors::InternalError),
            },
            CategoriesDeleteView::Aborting => fail(ApiErrors::InternalError),
        }
    }

    /// A bound on the transitions still to come.
    pub open spec fn budget(self) -> nat {
        match self {
            CategoriesDeleteView::Connecting { id } => 5,
            CategoriesDeleteView::Opening { id } => 4,
            CategoriesDeleteView::Unlinking { id } => 3,
            CategoriesDeleteView::Deleting => 2,
            CategoriesDeleteView::Committing => 1,
            CategoriesDeleteView::Aborting => 1,
        }
    }
}

/// Deletes a category: in one transaction, first every association row of
/// the category, then the category itself. A category that does not exist
/// is no error. Any failure after the transaction was opened undoes it and
/// ends the request with the internal error. On success the response has
/// no body.
pub fn categories_delete(state: CategoriesDelete, reply: Reply) -> (step: Step<CategoriesDelete>)
    ensures
        step@ == state@.step(reply@),
{
    match state {
        CategoriesDelete::Connecting { id } => match get_connection(&reply) {
            Ok(_) => Step::Run {
                statement: Statement::Begin,
                next: CategoriesDelete::Opening { id },
            },
            Err(error) => fail_with(error),
        },
        CategoriesDelete::Opening { id } => match reply {
            Reply::Done => Step::Run {
                statement: Statement::DeleteRecipesOfCategory { category_id: id },
                next: CategoriesDelete::Unlinking { id },
            },
            _ => fail_with(ApiErrors::InternalError),
        },
        CategoriesDelete::Unlinking { id } => match reply {
            Reply::Done => Step::Run {
                statement: Statement::DeleteCategory { id },
                next: CategoriesDelete::Deleting,
            },
            _ => undo(CategoriesDelete::Aborting),
        },
        CategoriesDelete::Deleting => match reply {
            Reply::Done => Step::Run {
                statement: Statement::Commit,
                next: CategoriesDelete::Committing,
            },
            _ => undo(CategoriesDelete::Aborting),
        },
        CategoriesDelete::Committing => match reply {
            Reply::Done => Step::Respond { response: Response::no_content() },
            _ => fail_with(ApiErrors::InternalError),
        },
        CategoriesDelete::Aborting => fail_with(ApiErrors::InternalError),
    }
}

/// The routes of the category endpoints, below the scope they are mounted
/// under.
pub fn categories_config() -> (routes: Vec<Route>)
    ensures
        routes.deep_view() == crud_routes(
            Endpoint::CategoriesList,
            Endpoint::CategoriesGet,
            Endpoint::CategoriesCreate,
            Endpoint::CategoriesChange,
            Endpoint::CategoriesDelete,
        ),
{
    crud(
        Endpoint::CategoriesList,
        Endpoint::CategoriesGet,
        Endpoint::CategoriesCreate,
        Endpoint::CategoriesChange,
        Endpoint::CategoriesDelete,
    )
}

} // verus!
