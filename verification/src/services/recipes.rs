//! The handlers of the recipe endpoints.

use crate::models::category::{Category, CategoryView, RecipeCategory, RecipeCategoryView};
use crate::models::recipe::{
    ChangeRecipe, ChangeRecipeView, NewRecipe, NewRecipeView, Recipe, RecipeView,
};
use crate::services::associations::{
    lookup_budget, widen, Looked, LookedView, Lookup, LookupView,
};
use crate::services::errors::ApiErrors;
use crate::services::response::{Payload, PayloadView, Response, ResponseView};
use crate::services::routes::{crud, crud_routes, Endpoint, Route};
use crate::services::step::{fail, fail_with, rollback, undo, Step, StepView};
use crate::services::utils::{connection, get_connection, ResponseBodyVec};
use crate::store::statement::{Reply, ReplyView, Statement, StatementView};
use vstd::prelude::*;

verus! {

/// A recipe as a response shows it: its own fields and, beside them, the
/// categories it belongs to.
#[derive(Debug, Clone, PartialEq, Eq)]
pub struct RecipeBody {
    pub recipe: Recipe,
    pub categories: Vec<Category>,
}

/// `RecipeBody` as a mathematical value: text as sequences of characters,
/// numbers as integers, lists as sequences.
pub struct RecipeBodyView {
    pub recipe: RecipeView,
    pub categories: Seq<CategoryView>,
}

impl View for RecipeBody {
    type V = RecipeBodyView;

    open spec fn view(&self) -> RecipeBodyView {
        RecipeBodyView { recipe: self.recipe@, categories: self.categories.deep_view() }
    }
}

impl DeepView for RecipeBody {
    type V = RecipeBodyView;

    open spec fn deep_view(&self) -> RecipeBodyView {
        self@
    }
}

/// The body of a request that creates a recipe: the recipe's fields and the
/// names of its categories.
#[derive(Debug, Clone, PartialEq, Eq)]
pub struct NewRecipeBody {
    pub recipe: NewRecipe,
    pub categories: Vec<String>,
}

/// `NewRecipeBody` as a mathematical value: text as sequences of characters,
/// numbers as integers, lists as sequences.
pub struct NewRecipeBodyView {
    pub recipe: NewRecipeView,
    pub categories: Seq<Seq<char>>,
}

impl View for NewRecipeBody {
    type V = NewRecipeBodyView;

    open spec fn view(&self) -> NewRecipeBodyView {
        NewRecipeBodyView { recipe: self.recipe@, categories: self.categories.deep_view() }
    }
}

/// The body of a request that changes a recipe: the fields to change and,
/// if the categories are to be replaced, the names of the new ones.
#[derive(Debug, Clone, PartialEq, Eq)]
pub struct ChangeRecipeBody {
    pub recipe_change: ChangeRecipe,
    pub categories: Option<Vec<String>>,
}

/// `ChangeRecipeBody` as a mathematical value: text as sequences of characters,
/// numbers as integers, lists as sequences.
pub struct ChangeRecipeBodyView {
    pub recipe_change: ChangeRecipeView,
    pub categories: Option<Seq<Seq<char>>>,
}

impl View for ChangeRecipeBody {
    type V = ChangeRecipeBodyView;

    open spec fn view(&self) -> ChangeRecipeBodyView {
        ChangeRecipeBodyView {
            recipe_change: self.recipe_change@,
            categories: self.categories.deep_view(),
        }
    }
}

/// The row that puts the recipe `recipe_id` into the category `ids[at]`.
pub open spec fn link_at(recipe_id: int, ids: Seq<int>, at: int) -> RecipeCategoryView {
    RecipeCategoryView { recipe_id, category_id: ids[at] }
}

/// The statement that reads the categories of a recipe.
pub open spec fn categories_query(recipe: RecipeView) -> StatementView {
    StatementView::CategoriesOfRecipe { recipe_id: recipe.id }
}

/// What the reply to that statement holds: the categories, or the internal
/// error when the reply is anything but a list of categories.
pub open spec fn categories_read(reply: ReplyView) -> Result<Seq<CategoryView>, ApiErrors> {
    match reply {
        ReplyView::Categories(categories) => Ok(categories),
        _ => Err(ApiErrors::InternalError),
    }
}

/// The statement that reads the categories of `recipe`: the categories
/// joined with the association rows of this recipe.
pub fn get_categories(recipe: &Recipe) -> (statement: Statement)
    ensures
        statement@ == categories_query(recipe@),
{
    Statement::CategoriesOfRecipe { recipe_id: recipe.id }
}

/// Reads the reply to `get_categories`.
pub fn categories_loaded(reply: Reply) -> (loaded: Result<Vec<Category>, ApiErrors>)
    ensures
        match loaded {
            Ok(categories) => categories_read(reply@) == Ok::<Seq<CategoryView>, ApiErrors>(
                categories.deep_view(),
            ),
            Err(error) => categories_read(reply@) == Err::<Seq<CategoryView>, ApiErrors>(error),
        },
{
    match reply {
        Reply::Categories(categories) => Ok(categories),
        _ => Err(ApiErrors::InternalError),
    }
}

/// The statement that changes the fields of a recipe. A change that names
/// no field is nothing to write: the recipe is only read.
pub open spec fn recipe_change_query(id: int, changes: ChangeRecipeView) -> StatementView {
    if changes.is_empty() {
        StatementView::FindRecipe { id }
    } else {
        StatementView::UpdateRecipe { id, changes }
    }
}

/// The statement that changes the fields of a recipe.
pub fn change_recipe_query(id: i32, changes: ChangeRecipe) -> (statement: Statement)
    ensures
        statement@ == recipe_change_query(id as int, changes@),
{
    if changes.is_empty() {
        Statement::FindRecipe { id }
    } else {
        Statement::UpdateRecipe { id, changes }
    }
}

/// The ids of the categories to put a recipe into, if they are to change.
pub open spec fn ids_view(ids: Option<Vec<i32>>) -> Option<Seq<int>> {
    match ids {
        Some(ids) => Some(widen(ids@)),
        None => None,
    }
}

/// How many association rows are still to insert.
pub open spec fn links_left(ids: Seq<int>, done: nat) -> nat {
    if done < ids.len() {
        (ids.len() - done) as nat
    } else {
        0
    }
}

/// Where a request that changes a recipe stands. Each state but the first
/// awaits the reply to the statement sent last.
#[derive(Debug, Clone, PartialEq, Eq)]
#[allow(inconsistent_fields)]
pub enum RecipesChange {
    /// A connection was asked for.
    Connecting { id: i32, body: ChangeRecipeBody },
    /// The new categories are being looked up by name.
    Resolving { id: i32, changes: ChangeRecipe, lookup: Lookup },
    /// A transaction was asked for.
    Opening { id: i32, changes: ChangeRecipe, ids: Option<Vec<i32>> },
    /// The recipe's fields are being changed.
    Updating { ids: Option<Vec<i32>> },
    /// The recipe's old association rows are being removed.
    Unlinking { recipe: Recipe, ids: Vec<i32> },
    /// The row for `ids[done]` is being inserted.
    Linking { recipe: Recipe, ids: Vec<i32>, done: usize },
    /// The recipe's categories are being read back.
    Loading { recipe: Recipe },
    /// The transaction is being committed.
    Committing { body: RecipeBody },
    /// The transaction is being undone.
    Aborting,
}

/// `RecipesChange` as a mathematical value.
#[allow(inconsistent_fields)]
pub enum RecipesChangeView {
    Connecting { id: int, body: ChangeRecipeBodyView },
    Resolving { id: int, changes: ChangeRecipeView, lookup: LookupView },
    Opening { id: int, changes: ChangeRecipeView, ids: Option<Seq<int>> },
    Updating { ids: Option<Seq<int>> },
    Unlinking { recipe: RecipeView, ids: Seq<int> },
    Linking { recipe: RecipeView, ids: Seq<int>, done: nat },
    Loading { recipe: RecipeView },
    Committing { body: RecipeBodyView },
    Aborting,
}

impl View for RecipesChange {
    type V = RecipesChangeView;

    open spec fn view(&self) -> RecipesChangeView {
        match self {
            RecipesChange::Connecting { id, body } => RecipesChangeView::Connecting {
                id: *id as int,
                body: body@,
            },
            RecipesChange::Resolving { id, changes, lookup } => RecipesChangeView::Resolving {
                id: *id as int,
                changes: changes@,
                lookup: lookup@,
            },
            RecipesChange::Opening { id, changes, ids } => RecipesChangeView::Opening {
                id: *id as int,
                changes: changes@,
                ids: ids_view(*ids),
            },
            RecipesChange::Updating { ids } => RecipesChangeView::Updating { ids: ids_view(*ids) },
            RecipesChange::Unlinking { recipe, ids } => RecipesChangeView::Unlinking {
                recipe: recipe@,
                ids: widen(ids@),
            },
            RecipesChange::Linking { recipe, ids, done } => RecipesChangeView::Linking {
                recipe: recipe@,
                ids: widen(ids@),
                done: *done as nat,
            },
            RecipesChange::Loading { recipe } => RecipesChangeView::Loading { recipe: recipe@ },
            RecipesChange::Committing { body } => RecipesChangeView::Committing { body: body@ },
            RecipesChange::Aborting => RecipesChangeView::Aborting,
        }
    }
}

impl RecipesChangeView {
    /// After a step of the lookup: go on asking, open the transaction once
    /// every name has an id, or end the request.
    pub open spec fn after_lookup(id: int, changes: ChangeRecipeView, looked: LookedView)
        -> StepView<RecipesChangeView> {
        match looked {
            LookedView::Pending { statement, lookup } => StepView::Run {
                statement,
                next: RecipesChangeView::Resolving { id, changes, lookup },
            },
            LookedView::Resolved { ids } => StepView::Run {
                statement: StatementView::Begin,
                next: RecipesChangeView::Opening { id, changes, ids: Some(ids) },
            },
            LookedView::Unknown => StepView::Respond {
                response: ResponseView::category_not_found(),
            },
            LookedView::Failed => fail(ApiErrors::InternalError),
        }
    }

    /// Insert the row for `ids[done]`, or read the categories back once
    /// every row is in.
    pub open spec fn link_or_load(recipe: RecipeView, ids: Seq<int>, done: nat) -> StepView<
        RecipesChangeView,
    > {
        if done < ids.len() {
            StepView::Run {
                statement: StatementView::InsertRecipeCategory {
                    link: link_at(recipe.id, ids, done as int),
                },
                next: RecipesChangeView::Linking { recipe, ids, done },
            }
        } else {
            StepView::Run {
                statement: categories_query(recipe),
                next: RecipesChangeView::Loading { recipe },
            }
        }
    }

    /// The transition of the handler: what it does in this state on this
    /// reply.
    pub open spec fn step(self, reply: ReplyView) -> StepView<RecipesChangeView> {
        match self {
            RecipesChangeView::Connecting { id, body } => match connection(reply) {
                Ok(_) => match body.categories {
                    Some(names) => Self::after_lookup(
                        id,
                        body.recipe_change,
                        LookupView::begin(names),
                    ),
                    None => StepView::Run {
                        statement: StatementView::Begin,
                        next: RecipesChangeView::Opening {
                            id,
                            changes: body.recipe_change,
                            ids: None,
                        },
                    },
                },
                Err(error) => fail(error),
            },
            RecipesChangeView::Resolving { id, changes, lookup } => Self::after_lookup(
                id,
                changes,
                lookup.resume(reply),
            ),
            RecipesChangeView::Opening { id, changes, ids } => match reply {
                ReplyView::Done => StepView::Run {
                    statement: recipe_change_query(id, changes),
                    next: RecipesChangeView::Updating { ids },
                },
                _ => fail(ApiErrors::InternalError),
            },
            RecipesChangeView::Updating { ids } => match reply {
                ReplyView::Recipe(recipe) => match ids {
                    Some(ids) => StepView::Run {
                        statement: StatementView::DeleteCategoriesOfRecipe {
                            recipe_id: recipe.id,
                        },
                        next: RecipesChangeView::Unlinking { recipe, ids },
                    },
                    None => StepView::Run {
                        statement: categories_query(recipe),
                        next: RecipesChangeView::Loading { recipe },
                    },
                },
                _ => rollback(RecipesChangeView::Aborting),
            },
            RecipesChangeView::Unlinking { recipe, ids } => match reply {
                ReplyView::Done => Self::link_or_load(recipe, ids, 0),
                _ => rollback(RecipesChangeView::Aborting),
            },
            RecipesChangeView::Linking { recipe, ids, done } => match reply {
                ReplyView::Done => Self::link_or_load(recipe, ids, done + 1),
                _ => rollback(RecipesChangeView::Aborting),
            },
            RecipesChangeView::Loading { recipe } => match categories_read(reply) {
                Ok(categories) => StepView::Run {
                    statement: StatementView::Commit,
                    next: RecipesChangeView::Committing {
                        body: RecipeBodyView { recipe, categories },
                    },
                },
                Err(_) => rollback(RecipesChangeView::Aborting),
            },
            RecipesChangeView::Committing { body } => match reply {
                ReplyView::Done => StepView::Respond {
                    response: ResponseView::ok(PayloadView::RecipeBody(body)),
                },
                _ => fail(ApiErrors::InternalError),
            },
            RecipesChangeView::Aborting => fail(ApiErrors::InternalError),
        }
    }

    /// A bound on the transitions still to come.
    pub open spec fn budget(self) -> nat {
        match self {
            RecipesChangeView::Connecting { id, body } => match body.categories {
                Some(names) => 8 + 2 * names.len(),
                None => 8,
            },
            RecipesChangeView::Resolving { id, changes, lookup } => 7 + lookup_budget(lookup),
            RecipesChangeView::Opening { id, changes, ids } => match ids {
                Some(ids) => 6 + ids.len(),
                None => 6,
            },
            RecipesChangeView::Updating { ids } => match ids {
                Some(ids) => 5 + ids.len(),
                None => 5,
            },
            RecipesChangeView::Unlinking { recipe, ids } => 4 + ids.len(),
            RecipesChangeView::Linking { recipe, ids, done } => 3 + links_left(ids, done),
            RecipesChangeView::Loading { recipe } => 2,
            RecipesChangeView::Committing { body } => 1,
            RecipesChangeView::Aborting => 1,
        }
    }
}

/// After a step of the lookup: go on asking, open the transaction once
/// every name has an id, or end the request.
fn change_after_lookup(id: i32, changes: ChangeRecipe, looked: Looked) -> (step: Step<
    RecipesChange,
>)
    ensures
        step@ == RecipesChangeView::after_lookup(id as int, changes@, looked@),
{
    match looked {
        Looked::Pending { statement, lookup } => Step::Run {
            statement,
            next: RecipesChange::Resolving { id, changes, lookup },
        },
        Looked::Resolved { ids } => Step::Run {
            statement: Statement::Begin,
            next: RecipesChange::Opening { id, changes, ids: Some(ids) },
        },
        Looked::Unknown => Step::Respond { response: Response::category_not_found() },
        Looked::Failed => fail_with(ApiErrors::InternalError),
    }
}

/// Insert the row for `ids[done]`, or read the categories back once every
/// row is in.
fn change_link_or_load(recipe: Recipe, ids: Vec<i32>, done: usize) -> (step: Step<RecipesChange>)
    ensures
        step@ == RecipesChangeView::link_or_load(recipe@, widen(ids@), done as nat),
{
    if done < ids.len() {
        let link = RecipeCategory { recipe_id: recipe.id, category_id: ids[done] };
        Step::Run {
            statement: Statement::InsertRecipeCategory { link },
            next: RecipesChange::Linking { recipe, ids, done },
        }
    } else {
        Step::Run {
            statement: get_categories(&recipe),
            next: RecipesChange::Loading { recipe },
        }
    }
}

/// Changes a recipe. If the request names categories, each must exist, or
/// the request ends with "category not found" before anything is written.
/// Then, in one transaction: the fields that the request names are changed;
/// if it names categories, every old association row of the recipe is
/// removed and one row per name is inserted; and the recipe is read back
/// with its categories. Any failure after the transaction was opened undoes
/// it and ends the request with the internal error; so does a recipe that
/// does not exist.
pub fn recipes_change(state: RecipesChange, reply: Reply) -> (step: Step<RecipesChange>)
    ensures
        step@ == state@.step(reply@),
{
    match state {
        RecipesChange::Connecting { id, body } => match get_connection(&reply) {
            Ok(_) => match body.categories {
                Some(names) => change_after_lookup(id, body.recipe_change, Lookup::begin(names)),
                None => Step::Run {
                    statement: Statement::Begin,
                    next: RecipesChange::Opening { id, changes: body.recipe_change, ids: None },
                },
            },
            Err(error) => fail_with(error),
        },
        RecipesChange::Resolving { id, changes, lookup } => change_after_lookup(
            id,
            changes,
            lookup.resume(reply),
        ),
        RecipesChange::Opening { id, changes, ids } => match reply {
            Reply::Done => Step::Run {
                statement: change_recipe_query(id, changes),
                next: RecipesChange::Updating { ids },
            },
            _ => fail_with(ApiErrors::InternalError),
        },
        RecipesChange::Updating { ids } => match reply {
            Reply::Recipe(recipe) => match ids {
                Some(ids) => Step::Run {
                    statement: Statement::DeleteCategoriesOfRecipe { recipe_id: recipe.id },
                    next: RecipesChange::Unlinking { recipe, ids },
                },
                None => Step::Run {
                    statement: get_categories(&recipe),
                    next: RecipesChange::Loading { recipe },
                },
            },
            _ => undo(RecipesChange::Aborting),
        },
        RecipesChange::Unlinking { recipe, ids } => match reply {
            Reply::Done => change_link_or_load(recipe, ids, 0),
            _ => undo(RecipesChange::Aborting),
        },
        RecipesChange::Linking { recipe, ids, done } => match reply {
            Reply::Done => {
                if done < ids.len() {
                    change_link_or_load(recipe, ids, done + 1)
                } else {
                    change_link_or_load(recipe, ids, done)
                }
            },
            _ => undo(RecipesChange::Aborting),
        },
        RecipesChange::Loading { recipe } => match categories_loaded(reply) {
            Ok(categories) => Step::Run {
                statement: Statement::Commit,
                next: RecipesChange::Committing { body: RecipeBody { recipe, categories } },
            },
            Err(_) => undo(RecipesChange::Aborting),
        },
        RecipesChange::Committing { body } => match reply {
            Reply::Done => Step::Respond { response: Response::ok(Payload::RecipeBody(body)) },
            _ => fail_with(ApiErrors::InternalError),
        },
        RecipesChange::Aborting => fail_with(ApiErrors::InternalError),
    }
}

/// Where a request that creates a recipe stands.
#[derive(Debug, Clone, PartialEq, Eq)]
#[allow(inconsistent_fields)]
pub enum RecipesCreate {
    /// A connection was asked for.
    Connecting { body: NewRecipeBody },
    /// The categories are being looked up by name.
    Resolving { recipe: NewRecipe, lookup: Lookup },
    /// A transaction was asked for.
    Opening { recipe: NewRecipe, ids: Vec<i32> },
    /// The recipe is being inserted.
    Inserting { ids: Vec<i32> },
    /// The row for `ids[done]` is being inserted.
    Linking { recipe: Recipe, ids: Vec<i32>, done: usize },
    /// The transaction is being committed.
    Committing { recipe: Recipe },
    /// The transaction is being undone.
    Aborting,
}

/// `RecipesCreate` as a mathematical value.
#[allow(inconsistent_fields)]
pub enum RecipesCreateView {
    Connecting { body: NewRecipeBodyView },
    Resolving { recipe: NewRecipeView, lookup: LookupView },
    Opening { recipe: NewRecipeView, ids: Seq<int> },
    Inserting { ids: Seq<int> },
    Linking { recipe: RecipeView, ids: Seq<int>, done: nat },
    Committing { recipe: RecipeView },
    Aborting,
}

impl View for RecipesCreate {
    type V = RecipesCreateView;

    open spec fn view(&self) -> RecipesCreateView {
        match self {
            RecipesCreate::Connecting { body } => RecipesCreateView::Connecting { body: body@ },
            RecipesCreate::Resolving { recipe, lookup } => RecipesCreateView::Resolving {
                recipe: recipe@,
                lookup: lookup@,
            },
            RecipesCreate::Opening { recipe, ids } => RecipesCreateView::Opening {
                recipe: recipe@,
                ids: widen(ids@),
            },
            RecipesCreate::Inserting { ids } => RecipesCreateView::Inserting { ids: widen(ids@) },
            RecipesCreate::Linking { recipe, ids, done } => RecipesCreateView::Linking {
                recipe: recipe@,
                ids: widen(ids@),
                done: *done as nat,
            },
            RecipesCreate::Committing { recipe } => RecipesCreateView::Committing {
                recipe: recipe@,
            },
            RecipesCreate::Aborting => RecipesCreateView::Aborting,
        }
    }
}

impl RecipesCreateView {
    /// After a step of the lookup: go on asking, open the transaction once
    /// every name has an id, or end the request.
    pub open spec fn after_lookup(recipe: NewRecipeView, looked: LookedView) -> StepView<
        RecipesCreateView,
    > {
        match looked {
            LookedView::Pending { statement, lookup } => StepView::Run {
                statement,
                next: RecipesCreateView::Resolving { recipe, lookup },
            },
            LookedView::Resolved { ids } => StepView::Run {
                statement: StatementView::Begin,
                next: RecipesCreateView::Opening { recipe, ids },
            },
            LookedView::Unknown => StepView::Respond {
                response: ResponseView::category_not_found(),
            },
            LookedView::Failed => fail(ApiErrors::InternalError),
        }
    }

    /// Insert the row for `ids[done]`, or commit once every row is in.
    pub open spec fn link_or_commit(recipe: RecipeView, ids: Seq<int>, done: nat) -> StepView<
        RecipesCreateView,
    > {
        if done < ids.len() {
            StepView::Run {
                statement: StatementView::InsertRecipeCategory {
                    link: link_at(recipe.id, ids, done as int),
                },
                next: RecipesCreateView::Linking { recipe, ids, done },
            }
        } else {
            StepView::Run {
                statement: StatementView::Commit,
                next: RecipesCreateView::Committing { recipe },
            }
        }
    }

    /// The transition of the handler: what it does in this state on this
    /// reply.
    pub open spec fn step(self, reply: ReplyView) -> StepView<RecipesCreateView> {
        match self {
            RecipesCreateView::Connecting { body } => match connection(reply) {
                Ok(_) => Self::after_lookup(body.recipe, LookupView::begin(body.categories)),
                Err(error) => fail(error),
            },
            RecipesCreateView::Resolving { recipe, lookup } => Self::after_lookup(
                recipe,
                lookup.resume(reply),
            ),
            RecipesCreateView::Opening { recipe, ids } => match reply {
                ReplyView::Done => StepView::Run {
                    statement: StatementView::InsertRecipe { recipe },
                    next: RecipesCreateView::Inserting { ids },
                },
                _ => fail(ApiErrors::InternalError),
            },
            RecipesCreateView::Inserting { ids } => match reply {
                ReplyView::Recipe(recipe) => Self::link_or_commit(recipe, ids, 0),
                _ => rollback(RecipesCreateView::Aborting),
            },
            RecipesCreateView::Linking { recipe, ids, done } => match reply {
                ReplyView::Done => Self::link_or_commit(recipe, ids, done + 1),
                _ => rollback(RecipesCreateView::Aborting),
            },
            RecipesCreateView::Committing { recipe } => match reply {
                ReplyView::Done => StepView::Respond {
                    response: ResponseView::ok(PayloadView::Recipe(recipe)),
                },
                _ => fail(ApiErrors::InternalError),
            },
            RecipesCreateView::Aborting => fail(ApiErrors::InternalError),
        }
    }

    /// A bound on the transitions still to come.
    pub open spec fn budget(self) -> nat {
        match self {
            RecipesCreateView::Connecting { body } => 6 + 2 * body.categories.len(),
            RecipesCreateView::Resolving { recipe, lookup } => 5 + lookup_budget(lookup),
            RecipesCreateView::Opening { recipe, ids } => 4 + ids.len(),
            RecipesCreateView::Inserting { ids } => 3 + ids.len(),
            RecipesCreateView::Linking { recipe, ids, done } => 2 + links_left(ids, done),
            RecipesCreateView::Committing { recipe } => 1,
            RecipesCreateView::Aborting => 1,
        }
    }
}

/// After a step of the lookup: go on asking, open the transaction once
/// every name has an id, or end the request.
fn create_after_lookup(recipe: NewRecipe, looked: Looked) -> (step: Step<RecipesCreate>)
    ensures
        step@ == RecipesCreateView::after_lookup(recipe@, looked@),
{
    match looked {
        Looked::Pending { statement, lookup } => Step::Run {
            statement,
            next: RecipesCreate::Resolving { recipe, lookup },
        },
        Looked::Resolved { ids } => Step::Run {
            statement: Statement::Begin,
            next: RecipesCreate::Opening { recipe, ids },
        },
        Looked::Unknown => Step::Respond { response: Response::category_not_found() },
        Looked::Failed => fail_with(ApiErrors::InternalError),
    }
}

/// Insert the row for `ids[done]`, or commit once every row is in.
fn create_link_or_commit(recipe: Recipe, ids: Vec<i32>, done: usize) -> (step: Step<
    RecipesCreate,
>)
    ensures
        step@ == RecipesCreateView::link_or_commit(recipe@, widen(ids@), done as nat),
{
    if done < ids.len() {
        let link = RecipeCategory { recipe_id: recipe.id, category_id: ids[done] };
        Step::Run {
            statement: Statement::InsertRecipeCategory { link },
            next: RecipesCreate::Linking { recipe, ids, done },
        }
    } else {
        Step::Run { statement: Statement::Commit, next: RecipesCreate::Committing { recipe } }
    }
}

/// Creates a recipe. Each category that the request names must exist, or
/// the request ends with "category not found" before anything is written.
/// Then, in one transaction, the recipe is inserted and one association row
/// per name. Any failure after the transaction was opened undoes it and
/// ends the request with the internal error. On success the response holds
/// the recipe as the store returned it, with its new `id`.
pub fn recipes_create(state: RecipesCreate, reply: Reply) -> (step: Step<RecipesCreate>)
    ensures
        step@ == state@.step(reply@),
{
    match state {
        RecipesCreate::Connecting { body } => match get_connection(&reply) {
            Ok(_) => create_after_lookup(body.recipe, Lookup::begin(body.categories)),
            Err(error) => fail_with(error),
        },
        RecipesCreate::Resolving { recipe, lookup } => create_after_lookup(
            recipe,
            lookup.resume(reply),
        ),
        RecipesCreate::Opening { recipe, ids } => match reply {
            Reply::Done => Step::Run {
                statement: Statement::InsertRecipe { recipe },
                next: RecipesCreate::Inserting { ids },
            },
            _ => fail_with(ApiErrors::InternalError),
        },
        RecipesCreate::Inserting { ids } => match reply {
            Reply::Recipe(recipe) => create_link_or_commit(recipe, ids, 0),
            _ => undo(RecipesCreate::Aborting),
        },
        RecipesCreate::Linking { recipe, ids, done } => match reply {
            Reply::Done => {
                if done < ids.len() {
                    create_link_or_commit(recipe, ids, done + 1)
                } else {
                    create_link_or_commit(recipe, ids, done)
                }
            },
            _ => undo(RecipesCreate::Aborting),
        },
        RecipesCreate::Committing { recipe } => match reply {
            Reply::Done => Step::Respond { response: Response::ok(Payload::Recipe(recipe)) },
            _ => fail_with(ApiErrors::InternalError),
        },
        RecipesCreate::Aborting => fail_with(ApiErrors::InternalError),
    }
}

/// Where a request that lists the recipes stands.
#[derive(Debug, Clone, PartialEq, Eq)]
pub enum RecipesList {
    /// A connection was asked for.
    Connecting,
    /// The recipes are being read.
    Listing,
    /// The categories of `recipes[bodies.len()]` are being read; `bodies`
    /// holds the recipes before it, each with its categories.
    Loading { recipes: Vec<Recipe>, bodies: Vec<RecipeBody> },
}

/// `RecipesList` as a mathematical value.
pub enum RecipesListView {
    Connecting,
    Listing,
    Loading { recipes: Seq<RecipeView>, bodies: Seq<RecipeBodyView> },
}

impl View for RecipesList {
    type V = RecipesListView;

    open spec fn view(&self) -> RecipesListView {
        match self {
            RecipesList::Connecting => RecipesListView::Connecting,
            RecipesList::Listing => RecipesListView::Listing,
            RecipesList::Loading { recipes, bodies } => RecipesListView::Loading {
                recipes: recipes.deep_view(),
                bodies: bodies.deep_view(),
            },
        }
    }
}

impl RecipesListView {
    /// Read the categories of the first recipe without them, or answer once
    /// every recipe has its categories.
    pub open spec fn load_or_respond(recipes: Seq<RecipeView>, bodies: Seq<RecipeBodyView>)
        -> StepView<RecipesListView> {
        if bodies.len() < recipes.len() {
            StepView::Run {
                statement: categories_query(recipes[bodies.len() as int]),
                next: RecipesListView::Loading { recipes, bodies },
            }
        } else {
            StepView::Respond {
                response: ResponseView::ok(
                    PayloadView::RecipeBodies(ResponseBodyVec { result: bodies }),
                ),
            }
        }
    }

    /// The transition of the handler: what it does in this state on this
    /// reply.
    pub open spec fn step(self, reply: ReplyView) -> StepView<RecipesListView> {
        match self {
            RecipesListView::Connecting => match connection(reply) {
                Ok(_) => StepView::Run {
                    statement: StatementView::ListRecipes,
                    next: RecipesListView::Listing,
                },
                Err(error) => fail(error),
            },
            RecipesListView::Listing => match reply {
                ReplyView::Recipes(recipes) => Self::load_or_respond(recipes, Seq::empty()),
                _ => fail(ApiErrors::InternalError),
            },
            RecipesListView::Loading { recipes, bodies } => match categories_read(reply) {
                Ok(categories) => if bodies.len() < recipes.len() {
                    Self::load_or_respond(
                        recipes,
                        bodies.push(
                            RecipeBodyView { recipe: recipes[bodies.len() as int], categories },
                        ),
                    )
                } else {
                    Self::load_or_respond(recipes, bodies)
                },
                Err(error) => fail(error),
            },
        }
    }

    /// A bound on the transitions still to come, the one on `reply`
    /// included, where the store holds `stored` recipes.
    pub open spec fn budget(self, reply: ReplyView, stored: nat) -> nat {
        match self {
            RecipesListView::Connecting => 3 + stored,
            RecipesListView::Listing => match reply {
                ReplyView::Recipes(recipes) => 2 + recipes.len(),
                _ => 2,
            },
            RecipesListView::Loading { recipes, bodies } => if bodies.len() < recipes.len() {
                (1 + recipes.len() - bodies.len()) as nat
            } else {
                1
            },
        }
    }
}

/// Read the categories of the first recipe without them, or answer once
/// every recipe has its categories.
fn list_load_or_respond(recipes: Vec<Recipe>, bodies: Vec<RecipeBody>) -> (step: Step<
    RecipesList,
>)
    ensures
        step@ == RecipesListView::load_or_respond(recipes.deep_view(), bodies.deep_view()),
{
    if bodies.len() < recipes.len() {
        let statement = get_categories(&recipes[bodies.len()]);
        Step::Run { statement, next: RecipesList::Loading { recipes, bodies } }
    } else {
        Step::Respond {
            response: Response::ok(Payload::RecipeBodies(ResponseBodyVec { result: bodies })),
        }
    }
}

/// Lists every recipe, each with its categories, in the order of the store.
/// The categories are read recipe by recipe; any failure of the store ends
/// the request with the internal error.
pub fn recipes_list(state: RecipesList, reply: Reply) -> (step: Step<RecipesList>)
    ensures
        step@ == state@.step(reply@),
{
    match state {
        RecipesList::Connecting => match get_connection(&reply) {
            Ok(_) => Step::Run { statement: Statement::ListRecipes, next: RecipesList::Listing },
            Err(error) => fail_with(error),
        },
        RecipesList::Listing => match reply {
            Reply::Recipes(recipes) => {
                let bodies: Vec<RecipeBody> = Vec::new();
                assert(bodies.deep_view() =~= Seq::<RecipeBodyView>::empty());
                list_load_or_respond(recipes, bodies)
            },
            _ => fail_with(ApiErrors::InternalError),
        },
        RecipesList::Loading { recipes, bodies } => match categories_loaded(reply) {
            Ok(categories) => {
                let mut bodies = bodies;
                let ghost before = bodies.deep_view();
                if bodies.len() < recipes.len() {
                    let body = RecipeBody { recipe: recipes[bodies.len()].clone(), categories };
                    bodies.push(body);
                    assert(bodies.deep_view() =~= before.push(body@));
                }
                list_load_or_respond(recipes, bodies)
            },
            Err(error) => fail_with(error),
        },
    }
}

/// Where a request that reads one recipe stands.
#[derive(Debug, Clone, PartialEq, Eq)]
pub enum RecipesGet {
    /// A connection was asked for.
    Connecting { id: i32 },
    /// The recipe is being read.
    Finding,
    /// The recipe's categories are being read.
    Loading { recipe: Recipe },
}

/// `RecipesGet` as a mathematical value.
pub enum RecipesGetView {
    Connecting { id: int },
    Finding,
    Loading { recipe: RecipeView },
}

impl View for RecipesGet {
    type V = RecipesGetView;

    open spec fn view(&self) -> RecipesGetView {
        match self {
            RecipesGet::Connecting { id } => RecipesGetView::Connecting { id: *id as int },
            RecipesGet::Finding => RecipesGetView::Finding,
            RecipesGet::Loading { recipe } => RecipesGetView::Loading { recipe: recipe@ },
        }
    }
}

impl RecipesGetView {
    /// The transition of the handler: what it does in this state on this
    /// reply.
    pub open spec fn step(self, reply: ReplyView) -> StepView<RecipesGetView> {
        match self {
            RecipesGetView::Connecting { id } => match connection(reply) {
                Ok(_) => StepView::Run {
                    statement: StatementView::FindRecipe { id },
                    next: RecipesGetView::Finding,
                },
                Err(error) => fail(error),
            },
            RecipesGetView::Finding => match reply {
                ReplyView::Recipe(recipe) => StepView::Run {
                    statement: categories_query(recipe),
                    next: RecipesGetView::Loading { recipe },
                },
                ReplyView::Missing => fail(ApiErrors::NotFound),
                _ => fail(ApiErrors::InternalError),
            },
            RecipesGetView::Loading { recipe } => match categories_read(reply) {
                Ok(categories) => StepView::Respond {
                    response: ResponseView::ok(
                        PayloadView::RecipeBody(RecipeBodyView { recipe, categories }),
                    ),
                },
                Err(error) => fail(error),
            },
        }
    }

    /// A bound on the transitions still to come.
    pub open spec fn budget(self) -> nat {
        match self {
            RecipesGetView::Connecting { id } => 3,
            RecipesGetView::Finding => 2,
            RecipesGetView::Loading { recipe } => 1,
        }
    }
}

/// Reads one recipe with its categories. A recipe that does not exist ends
/// the request with `NotFound`; a failure of the store with the internal
/// error.
pub fn recipes_get(state: RecipesGet, reply: Reply) -> (step: Step<RecipesGet>)
    ensures
        step@ == state@.step(reply@),
{
    match state {
        RecipesGet::Connecting { id } => match get_connection(&reply) {
            Ok(_) => Step::Run {
                statement: Statement::FindRecipe { id },
                next: RecipesGet::Finding,
            },
            Err(error) => fail_with(error),
        },
        RecipesGet::Finding => match reply {
            Reply::Recipe(recipe) => Step::Run {
                statement: get_categories(&recipe),
                next: RecipesGet::Loading { recipe },
            },
            Reply::Missing => fail_with(ApiErrors::NotFound),
            _ => fail_with(ApiErrors::InternalError),
        },
        RecipesGet::Loading { recipe } => match categories_loaded(reply) {
            Ok(categories) => Step::Respond {
                response: Response::ok(Payload::RecipeBody(RecipeBody { recipe, categories })),
            },
            Err(error) => fail_with(error),
        },
    }
}

/// Where a request that deletes a recipe stands.
#[derive(Debug, Clone, PartialEq, Eq)]
pub enum RecipesDelete {
    /// A connection was asked for.
    Connecting { id: i32 },
    /// A transaction was asked for.
    Opening { id: i32 },
    /// The recipe's association rows are being removed.
    Unlinking { id: i32 },
    /// The recipe is being removed.
    Deleting,
    /// The transaction is being committed.
    Committing,
    /// The transaction is being undone.
    Aborting,
}

/// `RecipesDelete` as a mathematical value.
pub enum RecipesDeleteView {
    Connecting { id: int },
    Opening { id: int },
    Unlinking { id: int },
    Deleting,
    Committing,
    Aborting,
}

impl View for RecipesDelete {
    type V = RecipesDeleteView;

    open spec fn view(&self) -> RecipesDeleteView {
        match self {
            RecipesDelete::Connecting { id } => RecipesDeleteView::Connecting { id: *id as int },
            RecipesDelete::Opening { id } => RecipesDeleteView::Opening { id: *id as int },
            RecipesDelete::Unlinking { id } => RecipesDeleteView::Unlinking { id: *id as int },
            RecipesDelete::Deleting => RecipesDeleteView::Deleting,
            RecipesDelete::Committing => RecipesDeleteView::Committing,
            RecipesDelete::Aborting => RecipesDeleteView::Aborting,
        }
    }
}

impl RecipesDeleteView {
    /// The transition of the handler: what it does in this state on this
    /// reply.
    pub open spec fn step(self, reply: ReplyView) -> StepView<RecipesDeleteView> {
        match self {
            RecipesDeleteView::Connecting { id } => match connection(reply) {
                Ok(_) => StepView::Run {
                    statement: StatementView::Begin,
                    next: RecipesDeleteView::Opening { id },
                },
                Err(error) => fail(error),
            },
            RecipesDeleteView::Opening { id } => match reply {
                ReplyView::Done => StepView::Run {
                    statement: StatementView::DeleteCategoriesOfRecipe { recipe_id: id },
                    next: RecipesDeleteView::Unlinking { id },
                },
                _ => fail(ApiErrors::InternalError),
            },
            RecipesDeleteView::Unlinking { id } => match reply {
                ReplyView::Done => StepView::Run {
                    statement: StatementView::DeleteRecipe { id },
                    next: RecipesDeleteView::Deleting,
                },
                _ => rollback(RecipesDeleteView::Aborting),
            },
            RecipesDeleteView::Deleting => match reply {
                ReplyView::Done => StepView::Run {
                    statement: StatementView::Commit,
                    next: RecipesDeleteView::Committing,
                },
                _ => rollback(RecipesDeleteView::Aborting),
            },
            RecipesDeleteView::Committing => match reply {
                ReplyView::Done => StepView::Respond { response: ResponseView::no_content() },
                _ => fail(ApiErrors::InternalError),
            },
            RecipesDeleteView::Aborting => fail(ApiErrors::InternalError),
        }
    }

    /// A bound on the transitions still to come.
    pub open spec fn budget(self) -> nat {
        match self {
            RecipesDeleteView::Connecting { id } => 5,
            RecipesDeleteView::Opening { id } => 4,
            RecipesDeleteView::Unlinking { id } => 3,
            RecipesDeleteView::Deleting => 2,
            RecipesDeleteView::Committing => 1,
            RecipesDeleteView::Aborting => 1,
        }
    }
}

/// Deletes a recipe: in one transaction, first every association row of the
/// recipe, then the recipe itself. A recipe that does not exist is no
/// error. Any failure after the transaction was opened undoes it and ends
/// the request with the internal error. On success the response has no
/// body.
pub fn recipes_delete(state: RecipesDelete, reply: Reply) -> (step: Step<RecipesDelete>)
    ensures
        step@ == state@.step(reply@),
{
    match state {
        RecipesDelete::Connecting { id } => match get_connection(&reply) {
            Ok(_) => Step::Run {
                statement: Statement::Begin,
                next: RecipesDelete::Opening { id },
            },
            Err(error) => fail_with(error),
        },
        RecipesDelete::Opening { id } => match reply {
            Reply::Done => Step::Run {
                statement: Statement::DeleteCategoriesOfRecipe { recipe_id: id },
                next: RecipesDelete::Unlinking { id },
            },
            _ => fail_with(ApiErrors::InternalError),
        },
        RecipesDelete::Unlinking { id } => match reply {
            Reply::Done => Step::Run {
                statement: Statement::DeleteRecipe { id },
                next: RecipesDelete::Deleting,
            },
            _ => undo(RecipesDelete::Aborting),
        },
        RecipesDelete::Deleting => match reply {
            Reply::Done => Step::Run {
                statement: Statement::Commit,
                next: RecipesDelete::Committing,
            },
            _ => undo(RecipesDelete::Aborting),
        },
        RecipesDelete::Committing => match reply {
            Reply::Done => Step::Respond { response: Response::no_content() },
            _ => fail_with(ApiErrors::InternalError),
        },
        RecipesDelete::Aborting => fail_with(ApiErrors::InternalError),
    }
}

/// The routes of the recipe endpoints, below the scope they are mounted
/// under.
pub fn recipes_config() -> (routes: Vec<Route>)
    ensures
        routes.deep_view() == crud_routes(
            Endpoint::RecipesList,
            Endpoint::RecipesGet,
            Endpoint::RecipesCreate,
            Endpoint::RecipesChange,
            Endpoint::RecipesDelete,
        ),
{
    crud(
        Endpoint::RecipesList,
        Endpoint::RecipesGet,
        Endpoint::RecipesCreate,
        Endpoint::RecipesChange,
        Endpoint::RecipesDelete,
    )
}

} // verus!
