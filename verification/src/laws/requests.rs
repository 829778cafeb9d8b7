//! What holds of every request, and of requests made one after the other.

use crate::laws::outcome::law_outcome;
use crate::laws::recipes::{
    all_known, categories_replaced, ids_of, law_recipes_change, law_recipes_create,
    law_recipes_delete, law_recipes_get, lemma_named_exists, lemma_updated_recipe,
    recipe_deleted, recipe_updated,
};
use crate::models::category::{CategoryView, RecipeCategoryView};
use crate::models::recipe::patched;
use crate::service::{answered, lemma_budget_decreases, served, HandlerView, RequestView};
use crate::services::errors::ApiErrors;
use crate::services::recipes::{ChangeRecipeBodyView, NewRecipeBodyView, RecipeBodyView};
use crate::services::response::{PayloadView, ResponseView};
use crate::services::step::StepView;
use crate::store::model::{
    category_of, lemma_selected, lemma_selected_in_order, link_outside_recipe, max_id,
    recipe_with, recipe_without, Database, Session,
};
use crate::store::statement::ReplyView;
use crate::store::validity::lemma_execute_valid;
use vstd::prelude::*;

verus! {

/// A handler leaves a valid store valid, whatever it is asked.
proof fn lemma_run_valid(handler: HandlerView, session: Session, reply: ReplyView)
    requires
        session.valid(),
    ensures
        handler.run(session, reply).0.valid(),
    decreases handler.budget(reply, session.db.recipes.len()),
{
    match handler.step(reply) {
        StepView::Run { statement, next } => {
            lemma_budget_decreases(handler, session, reply, false);
            lemma_execute_valid(session, statement);
            let (after, answer) = session.execute(statement);
            lemma_run_valid(next, after, answer);
        },
        StepView::Respond { response } => {},
    }
}

/// Every request leaves a valid store valid: ids are never given twice,
/// what the store holds to be unique stays unique, and no association row
/// is left without its recipe or its category. Every request ends the
/// transaction it began.
pub proof fn law_served_valid(db: Database, request: RequestView)
    requires
        db.valid(),
    ensures
        served(db, request).0.valid(),
        answered(db, request).0.saved is None,
{
    lemma_run_valid(HandlerView::start(request), Session::open(db), ReplyView::Connected);
    law_outcome(db, request);
}

/// Without a connection nothing is asked of the store: every endpoint but
/// the root path answers with the error of the connection, status 500.
pub proof fn law_no_connection(request: RequestView, session: Session)
    requires
        !(request is Hello),
    ensures
        HandlerView::start(request).run(session, ReplyView::Unavailable) == (
            session,
            ApiErrors::DatabaseConnectionError.response(),
        ),
        ApiErrors::DatabaseConnectionError.response().status == 500,
{
    reveal_with_fuel(HandlerView::run, 2);
}

/// Reading a recipe that does not exist is answered with `NotFound`, never
/// with the internal error.
pub proof fn law_missing_recipe_is_not_found(db: Database, id: int)
    requires
        db.recipe(id) is None,
    ensures
        served(db, RequestView::RecipesGet { id }) == (db, ApiErrors::NotFound.response()),
        served(db, RequestView::RecipesGet { id }).1.status == 404,
{
    law_recipes_get(db, id);
}

/// A recipe that was created is read back as it was created: with every
/// field of the request and the id that the store gave it. The creation
/// succeeds exactly when every category named exists, none is named twice,
/// and an id is left.
pub proof fn law_create_then_get(db: Database, body: NewRecipeBodyView)
    requires
        db.valid(),
    ensures
        ({
            let (after, response) = served(db, RequestView::RecipesCreate { body });
            let row = body.recipe.with_id(db.next_recipe_id);
            &&& response.status == 200 <==> all_known(db, body.categories) && ids_of(
                db,
                body.categories,
            ).no_duplicates() && db.next_recipe_id <= max_id()
            &&& response.status == 200 ==> {
                &&& response == ResponseView::ok(PayloadView::Recipe(row))
                &&& row.id >= 1
                &&& after.recipe(row.id) == Some(row)
                &&& served(after, RequestView::RecipesGet { id: row.id }) == (
                    after,
                    ResponseView::ok(
                        PayloadView::RecipeBody(
                            RecipeBodyView { recipe: row, categories: after.categories_of(row.id) },
                        ),
                    ),
                )
            }
        }),
{
    law_recipes_create(db, body);
    let (after, response) = served(db, RequestView::RecipesCreate { body });
    let row = body.recipe.with_id(db.next_recipe_id);
    if response.status == 200 {
        lemma_selected(db.recipes, recipe_with(row.id));
        db.recipes.lemma_filter_push(row, recipe_with(row.id));
        assert(db.recipes.filter(recipe_with(row.id)).len() == 0);
        law_recipes_get(after, row.id);
    }
}

/// A change touches only the fields it names and only the recipe it is
/// for: in the recipe as answered and as stored, each field that the
/// request names has the new value and every other field the value it had;
/// every other recipe is as it was.
pub proof fn law_change_keeps_the_rest(db: Database, id: int, body: ChangeRecipeBodyView)
    requires
        db.valid(),
    ensures
        ({
            let (after, response) = served(db, RequestView::RecipesChange { id, body });
            let changes = body.recipe_change;
            response.status == 200 ==> {
                &&& db.recipe(id) matches Some(stored)
                &&& response.payload matches PayloadView::RecipeBody(answered)
                &&& after.recipe(id) == Some(answered.recipe)
                &&& answered.recipe.id == id
                &&& answered.recipe.name == patched(changes.name, stored.name)
                &&& answered.recipe.instructions == patched(
                    changes.instructions,
                    stored.instructions,
                )
                &&& answered.recipe.cuisine == patched(changes.cuisine, stored.cuisine)
                &&& answered.recipe.duration_min == patched(
                    changes.duration_min,
                    stored.duration_min,
                )
                &&& answered.recipe.preparation_needed == patched(
                    changes.preparation_needed,
                    stored.preparation_needed,
                )
                &&& answered.recipe.portions == patched(changes.portions, stored.portions)
                &&& answered.recipe.difficulty == patched(changes.difficulty, stored.difficulty)
                &&& forall|other: int| other != id ==> after.recipe(other) == db.recipe(other)
            }
        }),
{
    law_recipes_change(db, id, body);
    let (after, response) = served(db, RequestView::RecipesChange { id, body });
    if response.status == 200 {
        lemma_selected(db.recipes, recipe_with(id));
        lemma_updated_recipe(db, id, body.recipe_change, id);
        assert forall|other: int| other != id implies after.recipe(other) == db.recipe(other) by {
            lemma_updated_recipe(db, id, body.recipe_change, other);
            lemma_selected(db.recipes, recipe_with(other));
        }
    }
}

/// The names of these categories.
pub open spec fn names_of(categories: Seq<CategoryView>) -> Seq<Seq<char>> {
    categories.map_values(|category: CategoryView| category.name)
}

/// After the replacement a recipe is in a category exactly when the
/// category's id was among those given.
proof fn lemma_replaced_links(db: Database, id: int, ids: Seq<int>)
    ensures
        forall|category_id: int|
            categories_replaced(db, id, ids).linked(id, category_id) <==> ids.contains(
                category_id,
            ),
{
    let after = categories_replaced(db, id, ids);
    let kept = db.links.filter(link_outside_recipe(id));
    lemma_selected(db.links, link_outside_recipe(id));
    assert forall|category_id: int| after.linked(id, category_id) <==> ids.contains(
        category_id,
    ) by {
        let wanted = RecipeCategoryView { recipe_id: id, category_id };
        if after.linked(id, category_id) {
            let i = choose|i: int| 0 <= i < after.links.len() && after.links[i] == wanted;
            if i < kept.len() {
                assert(link_outside_recipe(id)(kept[i]));
            } else {
                assert(ids[i - kept.len()] == category_id);
            }
        }
        if ids.contains(category_id) {
            let k = choose|k: int| 0 <= k < ids.len() && ids[k] == category_id;
            assert(after.links[kept.len() + k] == wanted);
        }
    }
}

/// Where a recipe is in exactly the categories whose ids are those of the
/// names given, the names of its categories are the names given.
proof fn lemma_categories_are_those_named(db: Database, id: int, names: Seq<Seq<char>>)
    requires
        db.valid(),
        all_known(db, names),
        forall|category_id: int|
            db.linked(id, category_id) <==> ids_of(db, names).contains(category_id),
    ensures
        names_of(db.categories_of(id)).to_set() == names.to_set(),
{
    let ids = ids_of(db, names);
    let categories = db.categories_of(id);
    let keep = category_of(db.links, id);
    lemma_selected(db.categories, keep);
    let found = names_of(categories).to_set();
    assert forall|name: Seq<char>| found.contains(name) implies names.to_set().contains(name) by {
        let i = choose|i: int|
            0 <= i < names_of(categories).len() && names_of(categories)[i] == name;
        let category = categories[i];
        assert(keep(category));
        assert(db.linked(id, category.id));
        assert(ids.contains(category.id));
        let k = choose|k: int| 0 <= k < ids.len() && ids[k] == category.id;
        assert(db.category_named(names[k]) is Some);
        lemma_named_exists(db, names[k]);
        let named = db.category_named(names[k])->Some_0;
        assert(db.categories.contains(category));
        let a = choose|a: int| 0 <= a < db.categories.len() && db.categories[a] == category;
        let b = choose|b: int| 0 <= b < db.categories.len() && db.categories[b] == named;
        assert(a == b);
        assert(names[k] == name);
    }
    assert forall|name: Seq<char>| names.to_set().contains(name) implies names_of(
        categories,
    ).to_set().contains(name) by {
        let k = choose|k: int| 0 <= k < names.len() && names[k] == name;
        assert(db.category_named(names[k]) is Some);
        lemma_named_exists(db, name);
        let named = db.category_named(name)->Some_0;
        assert(ids[k] == named.id);
        assert(ids.contains(named.id));
        assert(db.linked(id, named.id));
        let b = choose|b: int| 0 <= b < db.categories.len() && db.categories[b] == named;
        assert(keep(db.categories[b]));
        assert(categories.contains(named));
        let i = choose|i: int| 0 <= i < categories.len() && categories[i] == named;
        assert(names_of(categories)[i] == name);
    }
    assert(names_of(categories).to_set() =~= names.to_set());
}

/// After a recipe's categories were replaced, its categories are exactly
/// those named, whatever they were before: every category named is among
/// them, every one of them was named, and none comes twice. This is also
/// what reading the recipe shows.
pub proof fn law_replace_then_categories(
    db: Database,
    id: int,
    body: ChangeRecipeBodyView,
    names: Seq<Seq<char>>,
)
    requires
        db.valid(),
        body.categories == Some(names),
    ensures
        ({
            let (after, response) = served(db, RequestView::RecipesChange { id, body });
            let categories = after.categories_of(id);
            response.status == 200 ==> {
                &&& response.payload matches PayloadView::RecipeBody(answered)
                &&& answered.categories == categories
                &&& names_of(categories).to_set() == names.to_set()
                &&& forall|i: int, j: int|
                    0 <= i < j < categories.len() ==> (#[trigger] categories[i]).id != (
                    #[trigger] categories[j]).id
                &&& served(after, RequestView::RecipesGet { id }).1 == response
            }
        }),
{
    law_recipes_change(db, id, body);
    law_served_valid(db, RequestView::RecipesChange { id, body });
    let (after, response) = served(db, RequestView::RecipesChange { id, body });
    if response.status == 200 {
        let ids = ids_of(db, names);
        let categories = after.categories_of(id);
        let updated = recipe_updated(db, id, body.recipe_change);
        assert(after == categories_replaced(updated, id, ids));
        lemma_replaced_links(updated, id, ids);
        assert(ids_of(after, names) == ids);
        assert(all_known(after, names));
        lemma_categories_are_those_named(after, id, names);
        lemma_selected(db.recipes, recipe_with(id));
        lemma_updated_recipe(db, id, body.recipe_change, id);
        law_recipes_get(after, id);
        assert forall|i: int, j: int| 0 <= i < j < categories.len() implies (
        #[trigger] categories[i]).id != (#[trigger] categories[j]).id by {
            lemma_selected_in_order(
                after.categories,
                category_of(after.links, id),
                i,
                j,
            );
        }
    }
}

/// A recipe that was created belongs to exactly the categories that the
/// request named.
pub proof fn law_create_then_categories(db: Database, body: NewRecipeBodyView)
    requires
        db.valid(),
    ensures
        ({
            let (after, response) = served(db, RequestView::RecipesCreate { body });
            let categories = after.categories_of(db.next_recipe_id);
            response.status == 200 ==> {
                &&& names_of(categories).to_set() == body.categories.to_set()
                &&& forall|i: int, j: int|
                    0 <= i < j < categories.len() ==> (#[trigger] categories[i]).id != (
                    #[trigger] categories[j]).id
            }
        }),
{
    law_recipes_create(db, body);
    law_served_valid(db, RequestView::RecipesCreate { body });
    let (after, response) = served(db, RequestView::RecipesCreate { body });
    if response.status == 200 {
        let id = db.next_recipe_id;
        let names = body.categories;
        let ids = ids_of(db, names);
        let categories = after.categories_of(id);
        assert forall|category_id: int| after.linked(id, category_id) <==> ids.contains(
            category_id,
        ) by {
            let wanted = RecipeCategoryView { recipe_id: id, category_id };
            if after.linked(id, category_id) {
                let i = choose|i: int| 0 <= i < after.links.len() && after.links[i] == wanted;
                if i < db.links.len() {
                    assert(db.links[i].recipe_id < db.next_recipe_id);
                } else {
                    assert(ids[i - db.links.len()] == category_id);
                }
            }
            if ids.contains(category_id) {
                let k = choose|k: int| 0 <= k < ids.len() && ids[k] == category_id;
                assert(after.links[db.links.len() + k] == wanted);
            }
        }
        assert(ids_of(after, names) == ids);
        assert(all_known(after, names));
        lemma_categories_are_those_named(after, id, names);
        assert forall|i: int, j: int| 0 <= i < j < categories.len() implies (
        #[trigger] categories[i]).id != (#[trigger] categories[j]).id by {
            lemma_selected_in_order(after.categories, category_of(after.links, id), i, j);
        }
    }
}

/// A request that names a category that does not exist writes nothing: the
/// store is as it was, associations included, and the answer is "category
/// not found".
pub proof fn law_unknown_category_writes_nothing(
    db: Database,
    id: int,
    change: ChangeRecipeBodyView,
    create: NewRecipeBodyView,
    names: Seq<Seq<char>>,
)
    requires
        db.valid(),
        !all_known(db, names),
        change.categories == Some(names),
        create.categories == names,
    ensures
        served(db, RequestView::RecipesChange { id, body: change }) == (
            db,
            ResponseView::category_not_found(),
        ),
        served(db, RequestView::RecipesCreate { body: create }) == (
            db,
            ResponseView::category_not_found(),
        ),
        ResponseView::category_not_found().status == 404,
{
    law_recipes_change(db, id, change);
    law_recipes_create(db, create);
}

/// Deleting a recipe removes the recipe and every association row of it;
/// reading it afterwards is answered with `NotFound`.
pub proof fn law_delete_then_get(db: Database, id: int)
    ensures
        ({
            let (after, response) = served(db, RequestView::RecipesDelete { id });
            &&& response == ResponseView::no_content()
            &&& after.recipe(id) is None
            &&& !after.recipe_in_use(id)
            &&& forall|other: int| !after.linked(id, other)
            &&& served(after, RequestView::RecipesGet { id }) == (
                after,
                ApiErrors::NotFound.response(),
            )
        }),
{
    law_recipes_delete(db, id);
    let after = recipe_deleted(db, id);
    lemma_selected(db.recipes, recipe_without(id));
    lemma_selected(after.recipes, recipe_with(id));
    lemma_selected(db.links, link_outside_recipe(id));
    if after.recipe(id) is Some {
        let row = after.recipes.filter(recipe_with(id))[0];
        assert(after.recipes.contains(row));
        let i = choose|i: int| 0 <= i < after.recipes.len() && after.recipes[i] == row;
        assert(recipe_without(id)(after.recipes[i]));
    }
    assert forall|other: int| !after.linked(id, other) by {
        if after.linked(id, other) {
            let wanted = RecipeCategoryView { recipe_id: id, category_id: other };
            let i = choose|i: int| 0 <= i < after.links.len() && after.links[i] == wanted;
            assert(link_outside_recipe(id)(after.links[i]));
        }
    }
    law_recipes_get(after, id);
}

} // verus!
