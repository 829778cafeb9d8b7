//! The statements keep a valid store valid.

use crate::models::category::{
    CategoryView, ChangeCategoryView, NewCategoryView, RecipeCategoryView,
};
use crate::models::recipe::{ChangeRecipeView, NewRecipeView, RecipeView};
use crate::store::model::{
    category_with, category_without, lemma_selected,
    lemma_selected_in_order, link_outside_category, link_outside_recipe, recipe_with,
    recipe_without, Database, Session,
};
use crate::store::statement::StatementView;
use vstd::prelude::*;

verus! {

/// A recipe is found under an id exactly when some recipe has the id; the
/// one found has the id and is a row of the table.
pub proof fn lemma_found_recipe(db: Database, id: int)
    ensures
        db.recipe(id) is Some <==> db.has_recipe(id),
        db.recipe(id) matches Some(recipe) ==> recipe.id == id && db.recipes.contains(recipe),
{
    lemma_selected(db.recipes, recipe_with(id));
    if db.has_recipe(id) {
        let i = choose|i: int| 0 <= i < db.recipes.len() && (#[trigger] db.recipes[i]).id == id;
        assert(recipe_with(id)(db.recipes[i]));
        assert(db.recipes.filter(recipe_with(id)).contains(db.recipes[i]));
    }
    if let Some(recipe) = db.recipe(id) {
        assert(db.recipes.contains(db.recipes.filter(recipe_with(id))[0]));
        let i = choose|i: int| 0 <= i < db.recipes.len() && db.recipes[i] == recipe;
        assert(db.recipes[i].id == id);
    }
}

/// A category is found under an id exactly when some category has the id;
/// the one found has the id and is a row of the table.
pub proof fn lemma_found_category(db: Database, id: int)
    ensures
        db.category(id) is Some <==> db.has_category(id),
        db.category(id) matches Some(category) ==> category.id == id && db.categories.contains(
            category,
        ),
{
    lemma_selected(db.categories, category_with(id));
    if db.has_category(id) {
        let i = choose|i: int|
            0 <= i < db.categories.len() && (#[trigger] db.categories[i]).id == id;
        assert(category_with(id)(db.categories[i]));
        assert(db.categories.filter(category_with(id)).contains(db.categories[i]));
    }
    if let Some(category) = db.category(id) {
        assert(db.categories.contains(db.categories.filter(category_with(id))[0]));
        let i = choose|i: int| 0 <= i < db.categories.len() && db.categories[i] == category;
        assert(db.categories[i].id == id);
    }
}

/// A store has a recipe under an id when a row of its table has the id.
proof fn lemma_has_recipe(db: Database, i: int)
    requires
        0 <= i < db.recipes.len(),
    ensures
        db.has_recipe(db.recipes[i].id),
{
}

/// A store has a category under an id when a row of its table has the id.
proof fn lemma_has_category(db: Database, i: int)
    requires
        0 <= i < db.categories.len(),
    ensures
        db.has_category(db.categories[i].id),
{
}

/// The row that shows that a store has a recipe under an id.
spec fn recipe_at(db: Database, id: int) -> int {
    choose|i: int| 0 <= i < db.recipes.len() && (#[trigger] db.recipes[i]).id == id
}

/// The row that shows that a store has a category under an id.
spec fn category_at(db: Database, id: int) -> int {
    choose|i: int| 0 <= i < db.categories.len() && (#[trigger] db.categories[i]).id == id
}

/// Where the recipes keep their ids, the association rows still refer to
/// recipes that exist.
proof fn lemma_same_recipe_ids(db: Database, recipes: Seq<RecipeView>)
    requires
        db.valid(),
        recipes.len() >= db.recipes.len(),
        forall|i: int| 0 <= i < db.recipes.len() ==> (#[trigger] recipes[i]).id == db.recipes[i].id,
    ensures
        (Database { recipes, ..db }).resolved(),
{
    let after = Database { recipes, ..db };
    assert forall|i: int| 0 <= i < after.links.len() implies after.has_recipe(
        (#[trigger] after.links[i]).recipe_id,
    ) && after.has_category(after.links[i].category_id) by {
        assert(db.has_recipe(db.links[i].recipe_id));
        let j = choose|j: int|
            0 <= j < db.recipes.len() && (#[trigger] db.recipes[j]).id == db.links[i].recipe_id;
        assert(after.recipes[j].id == db.links[i].recipe_id);
        assert(db.has_category(db.links[i].category_id));
        let k = choose|k: int|
            0 <= k < db.categories.len() && (#[trigger] db.categories[k]).id
                == db.links[i].category_id;
        assert(after.categories[k].id == db.links[i].category_id);
    }
}

/// Where the categories keep their ids, the association rows still refer
/// to categories that exist.
proof fn lemma_same_category_ids(db: Database, categories: Seq<CategoryView>)
    requires
        db.valid(),
        categories.len() >= db.categories.len(),
        forall|i: int|
            0 <= i < db.categories.len() ==> (#[trigger] categories[i]).id == db.categories[i].id,
    ensures
        (Database { categories, ..db }).resolved(),
{
    let after = Database { categories, ..db };
    assert forall|i: int| 0 <= i < after.links.len() implies after.has_recipe(
        (#[trigger] after.links[i]).recipe_id,
    ) && after.has_category(after.links[i].category_id) by {
        assert(db.has_recipe(db.links[i].recipe_id));
        let j = choose|j: int|
            0 <= j < db.recipes.len() && (#[trigger] db.recipes[j]).id == db.links[i].recipe_id;
        assert(after.recipes[j].id == db.links[i].recipe_id);
        assert(db.has_category(db.links[i].category_id));
        let k = choose|k: int|
            0 <= k < db.categories.len() && (#[trigger] db.categories[k]).id
                == db.links[i].category_id;
        assert(after.categories[k].id == db.links[i].category_id);
    }
}

/// Inserting a recipe keeps a store valid.
pub proof fn lemma_insert_recipe_valid(db: Database, recipe: NewRecipeView)
    requires
        db.valid(),
    ensures
        db.insert_recipe(recipe).0.valid(),
{
    let after = db.insert_recipe(recipe).0;
    if after != db {
        let grown = Database { recipes: after.recipes, ..db };
        lemma_same_recipe_ids(db, after.recipes);
        assert(grown.resolved());
        assert forall|i: int| 0 <= i < after.links.len() implies after.has_recipe(
            (#[trigger] after.links[i]).recipe_id,
        ) && after.has_category(after.links[i].category_id) by {
            assert(grown.has_recipe(grown.links[i].recipe_id));
            assert(grown.has_category(grown.links[i].category_id));
            lemma_has_recipe(after, recipe_at(grown, grown.links[i].recipe_id));
            lemma_has_category(after, category_at(grown, grown.links[i].category_id));
        }
    }
}

/// Changing a recipe keeps a store valid.
pub proof fn lemma_update_recipe_valid(db: Database, id: int, changes: ChangeRecipeView)
    requires
        db.valid(),
    ensures
        db.update_recipe(id, changes).0.valid(),
{
    let after = db.update_recipe(id, changes).0;
    if after != db {
        assert forall|i: int| 0 <= i < db.recipes.len() implies (#[trigger] after.recipes[i]).id
            == db.recipes[i].id by {}
        lemma_same_recipe_ids(db, after.recipes);
    }
}

/// Deleting a recipe keeps a store valid.
pub proof fn lemma_delete_recipe_valid(db: Database, id: int)
    requires
        db.valid(),
    ensures
        db.delete_recipe(id).0.valid(),
{
    let after = db.delete_recipe(id).0;
    if !db.recipe_in_use(id) {
        let keep = recipe_without(id);
        lemma_selected(db.recipes, keep);
        assert forall|i: int, j: int| 0 <= i < j < after.recipes.len() implies (
        #[trigger] after.recipes[i]).id != (#[trigger] after.recipes[j]).id by {
            lemma_selected_in_order(db.recipes, keep, i, j);
        }
        assert forall|i: int| 0 <= i < after.links.len() implies after.has_recipe(
            (#[trigger] after.links[i]).recipe_id,
        ) && after.has_category(after.links[i].category_id) by {
            assert(db.has_recipe(db.links[i].recipe_id));
            let j = choose|j: int|
                0 <= j < db.recipes.len() && (#[trigger] db.recipes[j]).id
                    == db.links[i].recipe_id;
            assert(keep(db.recipes[j]));
            assert(after.recipes.contains(db.recipes[j]));
            let k = choose|k: int|
                0 <= k < after.recipes.len() && after.recipes[k] == db.recipes[j];
            lemma_has_recipe(after, k);
            assert(db.has_category(db.links[i].category_id));
            lemma_has_category(after, category_at(db, db.links[i].category_id));
        }
    }
}

/// Inserting a category keeps a store valid.
pub proof fn lemma_insert_category_valid(db: Database, category: NewCategoryView)
    requires
        db.valid(),
    ensures
        db.insert_category(category).0.valid(),
{
    let after = db.insert_category(category).0;
    if after != db {
        let grown = Database { categories: after.categories, ..db };
        lemma_same_category_ids(db, after.categories);
        assert(grown.resolved());
        assert forall|i: int| 0 <= i < after.links.len() implies after.has_recipe(
            (#[trigger] after.links[i]).recipe_id,
        ) && after.has_category(after.links[i].category_id) by {
            assert(grown.has_recipe(grown.links[i].recipe_id));
            assert(grown.has_category(grown.links[i].category_id));
            lemma_has_recipe(after, recipe_at(grown, grown.links[i].recipe_id));
            lemma_has_category(after, category_at(grown, grown.links[i].category_id));
        }
    }
}

/// Changing a category keeps a store valid.
pub proof fn lemma_update_category_valid(db: Database, id: int, changes: ChangeCategoryView)
    requires
        db.valid(),
    ensures
        db.update_category(id, changes).0.valid(),
{
    let after = db.update_category(id, changes).0;
    if after != db {
        assert forall|i: int| 0 <= i < db.categories.len() implies (
        #[trigger] after.categories[i]).id == db.categories[i].id by {}
        lemma_same_category_ids(db, after.categories);
        assert forall|i: int, j: int| 0 <= i < j < after.categories.len() implies (
        #[trigger] after.categories[i]).name != (#[trigger] after.categories[j]).name by {
            assert(db.categories[i].id != db.categories[j].id);
            assert(db.categories[i].name != db.categories[j].name);
        }
    }
}

/// Deleting a category keeps a store valid.
pub proof fn lemma_delete_category_valid(db: Database, id: int)
    requires
        db.valid(),
    ensures
        db.delete_category(id).0.valid(),
{
    let after = db.delete_category(id).0;
    if !db.category_in_use(id) {
        let keep = category_without(id);
        lemma_selected(db.categories, keep);
        assert forall|i: int, j: int| 0 <= i < j < after.categories.len() implies (
        #[trigger] after.categories[i]).id != (#[trigger] after.categories[j]).id && (
        #[trigger] after.categories[i]).name != (#[trigger] after.categories[j]).name by {
            lemma_selected_in_order(db.categories, keep, i, j);
        }
        assert forall|i: int| 0 <= i < after.links.len() implies after.has_recipe(
            (#[trigger] after.links[i]).recipe_id,
        ) && after.has_category(after.links[i].category_id) by {
            assert(db.has_category(db.links[i].category_id));
            let j = choose|j: int|
                0 <= j < db.categories.len() && (#[trigger] db.categories[j]).id
                    == db.links[i].category_id;
            assert(keep(db.categories[j]));
            assert(after.categories.contains(db.categories[j]));
            let k = choose|k: int|
                0 <= k < after.categories.len() && after.categories[k] == db.categories[j];
            lemma_has_category(after, k);
            assert(db.has_recipe(db.links[i].recipe_id));
            lemma_has_recipe(after, recipe_at(db, db.links[i].recipe_id));
        }
    }
}

/// Inserting an association row keeps a store valid.
pub proof fn lemma_insert_link_valid(db: Database, link: RecipeCategoryView)
    requires
        db.valid(),
    ensures
        db.insert_link(link).0.valid(),
{
    let after = db.insert_link(link).0;
    if after != db {
        lemma_found_recipe(db, link.recipe_id);
        lemma_found_category(db, link.category_id);
        let a = choose|a: int|
            0 <= a < db.recipes.len() && (#[trigger] db.recipes[a]).id == link.recipe_id;
        let b = choose|b: int|
            0 <= b < db.categories.len() && (#[trigger] db.categories[b]).id == link.category_id;
        assert forall|i: int| 0 <= i < after.links.len() implies after.has_recipe(
            (#[trigger] after.links[i]).recipe_id,
        ) && after.has_category(after.links[i].category_id) by {
            if i < db.links.len() {
                assert(db.has_recipe(db.links[i].recipe_id));
                assert(db.has_category(db.links[i].category_id));
                lemma_has_recipe(after, recipe_at(db, db.links[i].recipe_id));
                lemma_has_category(after, category_at(db, db.links[i].category_id));
            } else {
                lemma_has_recipe(after, a);
                lemma_has_category(after, b);
            }
        }
        assert forall|i: int, j: int|
            0 <= i < j < after.links.len() implies #[trigger] after.links[i]
                != #[trigger] after.links[j] by {
            if j == db.links.len() {
                assert(db.links[i] != link);
            }
        }
    }
}

/// Removing association rows keeps a store valid.
pub proof fn lemma_fewer_links_valid(db: Database, keep: spec_fn(RecipeCategoryView) -> bool)
    requires
        db.valid(),
    ensures
        (Database { links: db.links.filter(keep), ..db }).valid(),
{
    let after = Database { links: db.links.filter(keep), ..db };
    lemma_selected(db.links, keep);
    assert forall|i: int, j: int| 0 <= i < j < after.links.len() implies #[trigger] after.links[i]
        != #[trigger] after.links[j] by {
        lemma_selected_in_order(db.links, keep, i, j);
    }
    assert forall|i: int| 0 <= i < after.links.len() implies after.has_recipe(
        (#[trigger] after.links[i]).recipe_id,
    ) && after.has_category(after.links[i].category_id) by {
        assert(db.links.contains(after.links[i]));
        let j = choose|j: int| 0 <= j < db.links.len() && db.links[j] == after.links[i];
        assert(db.has_recipe(db.links[j].recipe_id));
        assert(db.has_category(db.links[j].category_id));
        lemma_has_recipe(after, recipe_at(db, db.links[j].recipe_id));
        lemma_has_category(after, category_at(db, db.links[j].category_id));
    }
}

/// Tables that were valid stay valid when the counters have grown.
proof fn lemma_later_counters_valid(db: Database, later: Database)
    requires
        db.valid(),
        later.valid(),
        later.next_recipe_id >= db.next_recipe_id,
        later.next_category_id >= db.next_category_id,
    ensures
        later.restored(db).valid(),
{
    let kept = later.restored(db);
    assert forall|i: int| 0 <= i < kept.links.len() implies kept.has_recipe(
        (#[trigger] kept.links[i]).recipe_id,
    ) && kept.has_category(kept.links[i].category_id) by {
        assert(db.has_recipe(db.links[i].recipe_id));
        let j = choose|j: int|
            0 <= j < db.recipes.len() && (#[trigger] db.recipes[j]).id == db.links[i].recipe_id;
        assert(kept.recipes[j].id == db.links[i].recipe_id);
        assert(db.has_category(db.links[i].category_id));
        let k = choose|k: int|
            0 <= k < db.categories.len() && (#[trigger] db.categories[k]).id
                == db.links[i].category_id;
        assert(kept.categories[k].id == db.links[i].category_id);
    }
}

/// Every statement leaves a valid store valid, and with it what a rollback
/// would leave. No statement takes a counter back.
pub proof fn lemma_execute_valid(session: Session, statement: StatementView)
    requires
        session.valid(),
    ensures
        session.execute(statement).0.valid(),
        session.execute(statement).0.db.next_recipe_id >= session.db.next_recipe_id,
        session.execute(statement).0.db.next_category_id >= session.db.next_category_id,
{
    let db = session.db;
    let after = session.execute(statement).0;
    match statement {
        StatementView::Begin => {
            assert(db.restored(db) == db);
        },
        StatementView::InsertRecipe { recipe } => {
            lemma_insert_recipe_valid(db, recipe);
        },
        StatementView::UpdateRecipe { id, changes } => {
            lemma_update_recipe_valid(db, id, changes);
        },
        StatementView::DeleteRecipe { id } => {
            lemma_delete_recipe_valid(db, id);
        },
        StatementView::InsertCategory { category } => {
            lemma_insert_category_valid(db, category);
        },
        StatementView::UpdateCategory { id, changes } => {
            lemma_update_category_valid(db, id, changes);
        },
        StatementView::DeleteCategory { id } => {
            lemma_delete_category_valid(db, id);
        },
        StatementView::InsertRecipeCategory { link } => {
            lemma_insert_link_valid(db, link);
        },
        StatementView::DeleteCategoriesOfRecipe { recipe_id } => {
            lemma_fewer_links_valid(db, link_outside_recipe(recipe_id));
        },
        StatementView::DeleteRecipesOfCategory { category_id } => {
            lemma_fewer_links_valid(db, link_outside_category(category_id));
        },
        _ => {},
    }
    assert(after.db.valid());
    if let Some(saved) = after.saved {
        let before = match session.saved {
            Some(saved) => db.restored(saved),
            None => db,
        };
        assert(before.valid());
        lemma_later_counters_valid(before, after.db);
        assert(after.db.restored(saved) == after.db.restored(before));
    }
}

} // verus!
