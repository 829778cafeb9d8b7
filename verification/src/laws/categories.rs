//! The category endpoints: what each does to the store and how it answers.

use crate::models::category::{ChangeCategoryView, NewCategoryView};
use crate::service::{answered, served, HandlerView, RequestView};
use crate::services::errors::ApiErrors;
use crate::services::response::{PayloadView, ResponseView};
use crate::services::utils::ResponseBodyVec;
use crate::store::model::{
    category_with, category_without, change_category, lemma_selected, link_outside_category,
    Database,
};
use crate::store::statement::ReplyView;
use vstd::prelude::*;

verus! {

/// Listing the categories leaves the store as it is and answers with every
/// category, in the order of the store.
pub proof fn law_categories_list(db: Database)
    ensures
        answered(db, RequestView::CategoriesList).0.saved is None,
        served(db, RequestView::CategoriesList) == (
            db,
            ResponseView::ok(
                PayloadView::Categories(
                    ResponseBodyVec { result: db.categories },
                ),
            ),
        ),
{
    reveal_with_fuel(HandlerView::run, 3);
}

/// What reading the category `id` answers: the category, or `NotFound`.
pub open spec fn category_read(db: Database, id: int) -> ResponseView {
    match db.category(id) {
        Some(category) => ResponseView::ok(PayloadView::Category(category)),
        None => ApiErrors::NotFound.response(),
    }
}

/// Reading a category leaves the store as it is and answers with the
/// category, or with `NotFound` when there is no such category.
pub proof fn law_categories_get(db: Database, id: int)
    ensures
        answered(db, RequestView::CategoriesGet { id }).0.saved is None,
        served(db, RequestView::CategoriesGet { id }) == (db, category_read(db, id)),
{
    reveal_with_fuel(HandlerView::run, 3);
}

/// How a statement that returns a category is answered: with the category,
/// or with the internal error on any other reply.
pub open spec fn category_or_error(reply: ReplyView) -> ResponseView {
    match reply {
        ReplyView::Category(category) => ResponseView::ok(PayloadView::Category(category)),
        _ => ApiErrors::InternalError.response(),
    }
}

/// Creating a category stores it under the next id and answers with it as
/// stored; where the name is taken or the ids ran out, nothing is written
/// and the answer is the internal error.
pub proof fn law_categories_create(
    db: Database,
    category: NewCategoryView,
)
    ensures
        answered(db, RequestView::CategoriesCreate { category }).0.saved is None,
        served(db, RequestView::CategoriesCreate { category }) == (
            db.insert_category(category).0,
            category_or_error(db.insert_category(category).1),
        ),
{
    reveal_with_fuel(HandlerView::run, 3);
}

/// Changing a category changes its name, if one is given, and answers with
/// the category as changed; where the category does not exist or another
/// has the name, nothing is written and the answer is the internal error.
pub proof fn law_categories_change(
    db: Database,
    id: int,
    changes: ChangeCategoryView,
)
    ensures
        answered(db, RequestView::CategoriesChange { id, changes }).0.saved is None,
        served(db, RequestView::CategoriesChange { id, changes }) == (
            db.update_category(id, changes).0,
            category_or_error(db.update_category(id, changes).1),
        ),
{
    reveal_with_fuel(HandlerView::run, 3);
    if changes.is_empty() {
        assert(db.categories.map_values(change_category(id, changes)) =~= db.categories);
    }
}

/// The store after the category `id` was deleted: without the category
/// and without its association rows.
pub open spec fn category_deleted(db: Database, id: int) -> Database {
    Database {
        categories: db.categories.filter(category_without(id)),
        links: db.links.filter(link_outside_category(id)),
        ..db
    }
}

/// Deleting a category removes its association rows and the category
/// itself, and answers without a body. What was deleted is not found any
/// more.
pub proof fn law_categories_delete(db: Database, id: int)
    ensures
        answered(db, RequestView::CategoriesDelete { id }).0.saved is None,
        ({
            let (after, response) = served(db, RequestView::CategoriesDelete { id });
            &&& response == ResponseView::no_content()
            &&& after == category_deleted(db, id)
            &&& after.category(id) is None
            &&& !after.category_in_use(id)
            &&& served(after, RequestView::CategoriesGet { id }).1 == ApiErrors::NotFound.response()
        }),
{
    reveal_with_fuel(HandlerView::run, 6);
    let unlinked = Database { links: db.links.filter(link_outside_category(id)), ..db };
    lemma_selected(db.links, link_outside_category(id));
    assert(!unlinked.category_in_use(id));
    let after = Database { categories: db.categories.filter(category_without(id)), ..unlinked };
    lemma_selected(db.categories, category_without(id));
    lemma_selected(after.categories, category_with(id));
    if after.category(id) is Some {
        let row = after.categories.filter(category_with(id))[0];
        assert(after.categories.contains(row));
        let i = choose|i: int| 0 <= i < after.categories.len() && after.categories[i] == row;
        assert(category_without(id)(after.categories[i]));
    }
    law_categories_get(after, id);
}

} // verus!
