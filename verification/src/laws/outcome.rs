//! The service in one statement: what each request does to the store and
//! how it is answered.

use crate::laws::categories::{
    category_deleted, category_or_error, category_read, law_categories_change,
    law_categories_create, law_categories_delete, law_categories_get, law_categories_list,
};
use crate::laws::recipes::{
    changed, created, law_hello, law_recipes_change, law_recipes_create, law_recipes_delete,
    law_recipes_get, law_recipes_list, recipe_deleted, recipe_read, with_categories,
};
use crate::service::{answered, served, RequestView};
use crate::services::response::{PayloadView, ResponseView};
use crate::services::utils::ResponseBodyVec;
use crate::store::model::{Database, Session};
use vstd::prelude::*;

verus! {

/// What a request does to a valid store and how it is answered.
///
/// - The root path and the lists answer with every row, in the order of
///   the store; the list of recipes shows each recipe with its categories.
/// - A read answers with the row, or with `NotFound`.
/// - The creation of a recipe and its change are what `created` and
///   `changed` say.
/// - The creation and the change of a category do what the one statement
///   does that they send, and answer with the category or with the internal
///   error.
/// - A deletion removes the row with its association rows and answers
///   without a body.
pub open spec fn outcome(db: Database, request: RequestView) -> (Database, ResponseView) {
    match request {
        RequestView::Hello => (
            db,
            ResponseView::ok(PayloadView::Recipes(ResponseBodyVec { result: db.recipes })),
        ),
        RequestView::RecipesList => (
            db,
            ResponseView::ok(
                PayloadView::RecipeBodies(
                    ResponseBodyVec { result: db.recipes.map_values(with_categories(db)) },
                ),
            ),
        ),
        RequestView::RecipesGet { id } => (db, recipe_read(db, id)),
        RequestView::RecipesCreate { body } => created(db, body),
        RequestView::RecipesChange { id, body } => changed(db, id, body),
        RequestView::RecipesDelete { id } => (recipe_deleted(db, id), ResponseView::no_content()),
        RequestView::CategoriesList => (
            db,
            ResponseView::ok(PayloadView::Categories(ResponseBodyVec { result: db.categories })),
        ),
        RequestView::CategoriesGet { id } => (db, category_read(db, id)),
        RequestView::CategoriesCreate { category } => (
            db.insert_category(category).0,
            category_or_error(db.insert_category(category).1),
        ),
        RequestView::CategoriesChange { id, changes } => (
            db.update_category(id, changes).0,
            category_or_error(db.update_category(id, changes).1),
        ),
        RequestView::CategoriesDelete { id } => (
            category_deleted(db, id),
            ResponseView::no_content(),
        ),
    }
}

/// The handlers do what `outcome` says: run on a fresh connection to a
/// valid store, the handler of a request leaves the store and gives the
/// response that `outcome` names, and leaves no transaction open.
pub proof fn law_outcome(db: Database, request: RequestView)
    requires
        db.valid(),
    ensures
        served(db, request) == outcome(db, request),
        answered(db, request) == (Session::open(outcome(db, request).0), outcome(db, request).1),
{
    match request {
        RequestView::Hello => law_hello(db),
        RequestView::RecipesList => law_recipes_list(db),
        RequestView::RecipesGet { id } => law_recipes_get(db, id),
        RequestView::RecipesCreate { body } => law_recipes_create(db, body),
        RequestView::RecipesChange { id, body } => law_recipes_change(db, id, body),
        RequestView::RecipesDelete { id } => law_recipes_delete(db, id),
        RequestView::CategoriesList => law_categories_list(db),
        RequestView::CategoriesGet { id } => law_categories_get(db, id),
        RequestView::CategoriesCreate { category } => law_categories_create(db, category),
        RequestView::CategoriesChange { id, changes } => law_categories_change(db, id, changes),
        RequestView::CategoriesDelete { id } => law_categories_delete(db, id),
    }
}

} // verus!
