//! The recipe endpoints: what each does to the store and how it answers.

use crate::models::category::RecipeCategoryView;
use crate::models::recipe::{ChangeRecipeView, NewRecipeView, RecipeView};
use crate::service::{answered, served, HandlerView, RequestView};
use crate::services::associations::LookupView;
use crate::services::errors::ApiErrors;
use crate::services::recipes::{
    recipe_change_query, ChangeRecipeBodyView, NewRecipeBodyView, RecipeBodyView, RecipesChangeView,
    RecipesCreateView, RecipesListView,
};
use crate::services::response::{PayloadView, ResponseView};
use crate::services::utils::ResponseBodyVec;
use crate::store::model::{
    category_named, category_with, change_recipe, lemma_selected, link_outside_recipe, max_id,
    one_category, recipe_with, recipe_without, Database, Session,
};
use crate::store::statement::{ReplyView, StatementView};
use vstd::prelude::*;

verus! {

/// What reading the recipe `id` answers: the recipe with its categories,
/// or `NotFound`.
pub open spec fn recipe_read(db: Database, id: int) -> ResponseView {
    match db.recipe(id) {
        Some(recipe) => ResponseView::ok(
            PayloadView::RecipeBody(
                RecipeBodyView { recipe, categories: db.categories_of(recipe.id) },
            ),
        ),
        None => ApiErrors::NotFound.response(),
    }
}

/// Reading a recipe leaves the store as it is and answers with the recipe
/// and its categories, or with `NotFound` when there is no such recipe.
pub proof fn law_recipes_get(db: Database, id: int)
    ensures
        answered(db, RequestView::RecipesGet { id }).0.saved is None,
        served(db, RequestView::RecipesGet { id }) == (db, recipe_read(db, id)),
{
    reveal_with_fuel(HandlerView::run, 4);
}

/// A recipe with its categories.
pub open spec fn with_categories(db: Database) -> spec_fn(RecipeView) -> RecipeBodyView {
    |recipe: RecipeView| RecipeBodyView { recipe, categories: db.categories_of(recipe.id) }
}

/// The listing from the point at which the categories of the recipe
/// `recipes[bodies.len()]` arrive: it ends with every recipe and its
/// categories.
proof fn lemma_list_loading(
    recipes: Seq<RecipeView>,
    bodies: Seq<RecipeBodyView>,
    session: Session,
)
    requires
        bodies.len() < recipes.len(),
        bodies == recipes.take(bodies.len() as int).map_values(with_categories(session.db)),
    ensures
        HandlerView::RecipesList(RecipesListView::Loading { recipes, bodies }).run(
            session,
            ReplyView::Categories(session.db.categories_of(recipes[bodies.len() as int].id)),
        ) == (
            session,
            ResponseView::ok(
                PayloadView::RecipeBodies(
                    ResponseBodyVec {
                        result: recipes.map_values(with_categories(session.db)),
                    },
                ),
            ),
        ),
    decreases recipes.len() - bodies.len(),
{
    reveal_with_fuel(HandlerView::run, 2);
    let at = bodies.len() as int;
    let more = bodies.push(with_categories(session.db)(recipes[at]));
    assert(more =~= recipes.take(at + 1).map_values(with_categories(session.db)));
    if more.len() < recipes.len() {
        lemma_list_loading(recipes, more, session);
    } else {
        assert(recipes.take(at + 1) =~= recipes);
    }
}

/// Listing the recipes leaves the store as it is and answers with every
/// recipe, each with its categories, in the order of the store.
pub proof fn law_recipes_list(db: Database)
    ensures
        answered(db, RequestView::RecipesList).0.saved is None,
        served(db, RequestView::RecipesList) == (
            db,
            ResponseView::ok(
                PayloadView::RecipeBodies(
                    ResponseBodyVec {
                        result: db.recipes.map_values(with_categories(db)),
                    },
                ),
            ),
        ),
{
    reveal_with_fuel(HandlerView::run, 3);
    let session = Session::open(db);
    if db.recipes.len() > 0 {
        assert(Seq::<RecipeBodyView>::empty() =~= db.recipes.take(0).map_values(
            with_categories(db),
        ));
        lemma_list_loading(db.recipes, Seq::empty(), session);
    } else {
        assert(db.recipes.map_values(with_categories(db)) =~= Seq::<RecipeBodyView>::empty());
    }
}

/// The root path answers with every recipe, without its categories, in
/// the order of the store.
pub proof fn law_hello(db: Database)
    ensures
        answered(db, RequestView::Hello).0.saved is None,
        served(db, RequestView::Hello) == (
            db,
            ResponseView::ok(
                PayloadView::Recipes(ResponseBodyVec { result: db.recipes }),
            ),
        ),
{
    reveal_with_fuel(HandlerView::run, 3);
}

/// The store after the recipe `id` was deleted: without the recipe and
/// without its association rows.
pub open spec fn recipe_deleted(db: Database, id: int) -> Database {
    Database {
        recipes: db.recipes.filter(recipe_without(id)),
        links: db.links.filter(link_outside_recipe(id)),
        ..db
    }
}

/// Deleting a recipe removes its association rows and the recipe itself,
/// and answers without a body.
pub proof fn law_recipes_delete(db: Database, id: int)
    ensures
        answered(db, RequestView::RecipesDelete { id }).0.saved is None,
        served(db, RequestView::RecipesDelete { id }) == (
            recipe_deleted(db, id),
            ResponseView::no_content(),
        ),
{
    reveal_with_fuel(HandlerView::run, 6);
    let unlinked = Database { links: db.links.filter(link_outside_recipe(id)), ..db };
    lemma_selected(db.links, link_outside_recipe(id));
    assert(!unlinked.recipe_in_use(id));
}

/// The id of the category with this name, where there is one.
pub open spec fn id_of(db: Database) -> spec_fn(Seq<char>) -> int {
    |name: Seq<char>| db.category_named(name)->Some_0.id
}

/// The ids of the categories with these names, in the order of the names.
pub open spec fn ids_of(db: Database, names: Seq<Seq<char>>) -> Seq<int> {
    names.map_values(id_of(db))
}

/// True when every name is the name of a category.
pub open spec fn all_known(db: Database, names: Seq<Seq<char>>) -> bool {
    forall|k: int| 0 <= k < names.len() ==> db.category_named(#[trigger] names[k]) is Some
}

/// The association row of a recipe for a category.
pub open spec fn link_to(recipe_id: int) -> spec_fn(int) -> RecipeCategoryView {
    |category_id: int| RecipeCategoryView { recipe_id, category_id }
}

/// The association rows that put a recipe into these categories.
pub open spec fn links_for(recipe_id: int, ids: Seq<int>) -> Seq<RecipeCategoryView> {
    ids.map_values(link_to(recipe_id))
}

/// True when no id from `from` on repeats an id before it.
pub open spec fn fresh_from(ids: Seq<int>, from: nat) -> bool {
    forall|k: int| from <= k < ids.len() ==> !ids.take(k).contains(#[trigger] ids[k])
}

/// The category with a known name is a row of the table, found under its
/// id as well.
pub proof fn lemma_named_exists(db: Database, name: Seq<char>)
    requires
        db.category_named(name) is Some,
    ensures
        db.category_named(name)->Some_0.name == name,
        db.categories.contains(db.category_named(name)->Some_0),
        db.category(db.category_named(name)->Some_0.id) is Some,
{
    let category = db.category_named(name)->Some_0;
    lemma_selected(db.categories, category_named(name));
    lemma_selected(db.categories, category_with(category.id));
    let i = choose|i: int| 0 <= i < db.categories.len() && db.categories[i] == category;
    assert(category_with(category.id)(db.categories[i]));
    assert(db.categories.filter(category_with(category.id)).contains(db.categories[i]));
}

/// Ids that never repeat are ids of which none repeats an earlier one.
proof fn lemma_fresh_is_distinct(ids: Seq<int>)
    ensures
        fresh_from(ids, 0) <==> ids.no_duplicates(),
{
    if ids.no_duplicates() {
        assert forall|k: int| 0 <= k < ids.len() implies !ids.take(k).contains(
            #[trigger] ids[k],
        ) by {
            if ids.take(k).contains(ids[k]) {
                let j = choose|j: int| 0 <= j < ids.take(k).len() && ids.take(k)[j] == ids[k];
                assert(ids[j] == ids[k]);
            }
        }
    }
    if fresh_from(ids, 0) {
        assert forall|i: int, j: int|
            0 <= i < ids.len() && 0 <= j < ids.len() && i != j implies ids[i] != ids[j] by {
            if i < j {
                assert(!ids.take(j).contains(ids[j]));
                assert(ids.take(j)[i] == ids[i]);
            } else {
                assert(!ids.take(i).contains(ids[i]));
                assert(ids.take(i)[j] == ids[j]);
            }
        }
    }
}

/// The run of a recipe's creation from the point at which the rows from
/// `ids[done]` on are still to insert.
pub open spec fn create_links_from(row: RecipeView, ids: Seq<int>, done: nat, session: Session)
    -> (Session, ResponseView) {
    if done < ids.len() {
        let (after, answer) = session.execute(
            StatementView::InsertRecipeCategory {
                link: RecipeCategoryView { recipe_id: row.id, category_id: ids[done as int] },
            },
        );
        HandlerView::RecipesCreate(RecipesCreateView::Linking { recipe: row, ids, done }).run(
            after,
            answer,
        )
    } else {
        let (after, answer) = session.execute(StatementView::Commit);
        HandlerView::RecipesCreate(RecipesCreateView::Committing { recipe: row }).run(
            after,
            answer,
        )
    }
}

/// Inserting the association rows of a new recipe from `ids[done]` on
/// commits every row if no id repeats an earlier one, and else undoes the
/// transaction.
proof fn lemma_create_links(row: RecipeView, ids: Seq<int>, done: nat, session: Session)
    requires
        session.saved is Some,
        done <= ids.len(),
        session.db.recipe(row.id) is Some,
        forall|k: int| 0 <= k < ids.len() ==> session.db.category(#[trigger] ids[k]) is Some,
        forall|id: int| session.db.linked(row.id, id) <==> ids.take(done as int).contains(id),
    ensures
        create_links_from(row, ids, done, session) == if fresh_from(ids, done) {
            (
                Session {
                    db: Database {
                        links: session.db.links + links_for(row.id, ids.skip(done as int)),
                        ..session.db
                    },
                    saved: None,
                },
                ResponseView::ok(PayloadView::Recipe(row)),
            )
        } else {
            (session.undone(), ApiErrors::InternalError.response())
        },
    decreases ids.len() - done,
{
    reveal_with_fuel(HandlerView::run, 3);
    let db = session.db;
    if done < ids.len() {
        let link = RecipeCategoryView { recipe_id: row.id, category_id: ids[done as int] };
        let (after, answer) = session.execute(StatementView::InsertRecipeCategory { link });
        assert(db.category(ids[done as int]) is Some);
        assert(db.links.contains(link) == db.linked(row.id, ids[done as int]));
        if ids.take(done as int).contains(ids[done as int]) {
            assert(answer is Failed);
            assert(!fresh_from(ids, done));
        } else {
            assert(answer is Done);
            assert(after.db.links == db.links.push(link));
            let before = ids.take(done as int);
            let now = ids.take(done as int + 1);
            assert(now =~= before.push(ids[done as int]));
            assert forall|id: int| after.db.linked(row.id, id) <==> now.contains(id) by {
                let wanted = RecipeCategoryView { recipe_id: row.id, category_id: id };
                if after.db.linked(row.id, id) {
                    let i = choose|i: int|
                        0 <= i < after.db.links.len() && after.db.links[i] == wanted;
                    if i < db.links.len() {
                        assert(db.links[i] == wanted);
                        assert(db.linked(row.id, id));
                        let j = choose|j: int| 0 <= j < before.len() && before[j] == id;
                        assert(now[j] == id);
                    } else {
                        assert(now[done as int] == id);
                    }
                }
                if now.contains(id) {
                    let j = choose|j: int| 0 <= j < now.len() && now[j] == id;
                    if j < done {
                        assert(before[j] == id);
                        assert(db.linked(row.id, id));
                        let i = choose|i: int| 0 <= i < db.links.len() && db.links[i] == wanted;
                        assert(after.db.links[i] == wanted);
                    } else {
                        assert(after.db.links[db.links.len() as int] == wanted);
                    }
                }
            }
            lemma_create_links(row, ids, (done + 1) as nat, after);
            assert(fresh_from(ids, done) <==> fresh_from(ids, (done + 1) as nat));
            assert(ids.skip(done as int) =~= seq![ids[done as int]] + ids.skip(done as int + 1));
            assert(db.links + links_for(row.id, ids.skip(done as int)) =~= after.db.links
                + links_for(row.id, ids.skip(done as int + 1)));
            assert(after.undone() == session.undone());
        }
    } else {
        assert(fresh_from(ids, done));
        assert(db.links + links_for(row.id, ids.skip(done as int)) =~= db.links);
    }
}

/// The run of a recipe's creation from the point at which every category
/// is known by its id and the transaction is still to open.
pub open spec fn create_from_ids(recipe: NewRecipeView, ids: Seq<int>, session: Session)
    -> (Session, ResponseView) {
    let (after, answer) = session.execute(StatementView::Begin);
    HandlerView::RecipesCreate(RecipesCreateView::Opening { recipe, ids }).run(after, answer)
}

/// Looking up the names of a new recipe's categories from the name
/// `names[found.len()]` on goes on to the writes if every name is known,
/// and else ends with "category not found".
proof fn lemma_create_lookup(
    recipe: NewRecipeView,
    names: Seq<Seq<char>>,
    found: Seq<int>,
    session: Session,
)
    requires
        found.len() < names.len(),
    ensures
        HandlerView::RecipesCreate(
            RecipesCreateView::Resolving {
                recipe,
                lookup: LookupView { names, found },
            },
        ).run(
            session,
            one_category(
                session.db.category_named(names[found.len() as int]),
            ),
        ) == if all_known(session.db, names.skip(found.len() as int)) {
            create_from_ids(
                recipe,
                found + ids_of(session.db, names.skip(found.len() as int)),
                session,
            )
        } else {
            (session, ResponseView::category_not_found())
        },
    decreases names.len() - found.len(),
{
    reveal_with_fuel(HandlerView::run, 2);
    let db = session.db;
    let at = found.len() as int;
    let rest = names.skip(at);
    assert(rest[0] == names[at]);
    match db.category_named(names[at]) {
        Some(category) => {
            let more = found.push(category.id);
            assert(rest.skip(1) =~= names.skip(at + 1));
            assert(all_known(db, rest) <==> all_known(db, names.skip(at + 1))) by {
                if all_known(db, names.skip(at + 1)) {
                    assert forall|k: int| 0 <= k < rest.len() implies db.category_named(
                        #[trigger] rest[k],
                    ) is Some by {
                        if k > 0 {
                            assert(rest[k] == names.skip(at + 1)[k - 1]);
                        }
                    }
                }
                if all_known(db, rest) {
                    let tail = names.skip(at + 1);
                    assert forall|k: int| 0 <= k < tail.len() implies db.category_named(
                        #[trigger] tail[k],
                    ) is Some by {
                        assert(tail[k] == rest[k + 1]);
                    }
                }
            }
            assert(found + ids_of(db, rest) =~= more + ids_of(db, names.skip(at + 1)));
            if more.len() < names.len() {
                lemma_create_lookup(recipe, names, more, session);
            } else {
                assert(names.skip(at + 1) =~= Seq::<Seq<char>>::empty());
                assert(more + ids_of(db, names.skip(at + 1)) =~= more);
            }
        },
        None => {
            assert(!all_known(db, rest));
        },
    }
}

/// What creating a recipe does to a valid store and how it is answered.
///
/// - Unless every category named exists: nothing, and "category not
///   found".
/// - Where the ids ran out: nothing, and the internal error.
/// - Where a category is named twice: the next id is used up, the tables
///   stay as they were, and the answer is the internal error.
/// - Otherwise the recipe is stored under the next id, with one association
///   row per category in the order of the names, and the answer is the
///   recipe as stored.
pub open spec fn created(db: Database, body: NewRecipeBodyView) -> (Database, ResponseView) {
    if !all_known(db, body.categories) {
        (db, ResponseView::category_not_found())
    } else if db.next_recipe_id > max_id() {
        (db, ApiErrors::InternalError.response())
    } else {
        let row = body.recipe.with_id(db.next_recipe_id);
        let ids = ids_of(db, body.categories);
        if ids.no_duplicates() {
            (
                Database {
                    recipes: db.recipes.push(row),
                    links: db.links + links_for(row.id, ids),
                    next_recipe_id: db.next_recipe_id + 1,
                    ..db
                },
                ResponseView::ok(PayloadView::Recipe(row)),
            )
        } else {
            (
                Database { next_recipe_id: db.next_recipe_id + 1, ..db },
                ApiErrors::InternalError.response(),
            )
        }
    }
}

/// What the creation of a recipe comes to once the ids of its categories
/// are known.
proof fn lemma_create_with_ids(db: Database, recipe: NewRecipeView, ids: Seq<int>)
    requires
        db.valid(),
        forall|k: int| 0 <= k < ids.len() ==> db.category(#[trigger] ids[k]) is Some,
    ensures
        create_from_ids(recipe, ids, Session::open(db)) == if db.next_recipe_id > max_id() {
            (Session::open(db), ApiErrors::InternalError.response())
        } else {
            let row = recipe.with_id(db.next_recipe_id);
            if ids.no_duplicates() {
                (
                    Session::open(
                        Database {
                            recipes: db.recipes.push(row),
                            links: db.links + links_for(row.id, ids),
                            next_recipe_id: db.next_recipe_id + 1,
                            ..db
                        },
                    ),
                    ResponseView::ok(PayloadView::Recipe(row)),
                )
            } else {
                (
                    Session::open(Database { next_recipe_id: db.next_recipe_id + 1, ..db }),
                    ApiErrors::InternalError.response(),
                )
            }
        },
{
    reveal_with_fuel(HandlerView::run, 3);
    let session = Session::open(db);
    let (opened, _) = session.execute(StatementView::Begin);
    assert(opened == Session { db, saved: Some(db) });
    assert(db.restored(db) == db);
    if db.next_recipe_id <= max_id() {
        let row = recipe.with_id(db.next_recipe_id);
        let (inserted, _) = opened.execute(StatementView::InsertRecipe { recipe });
        lemma_selected(inserted.db.recipes, recipe_with(row.id));
        assert(inserted.db.recipes[db.recipes.len() as int] == row);
        assert(inserted.db.recipe(row.id) is Some);
        assert forall|k: int| 0 <= k < ids.len() implies inserted.db.category(
            #[trigger] ids[k],
        ) is Some by {
            assert(db.category(ids[k]) is Some);
        }
        assert forall|id: int| inserted.db.linked(row.id, id) <==> ids.take(0).contains(id) by {
            if inserted.db.linked(row.id, id) {
                let wanted = RecipeCategoryView { recipe_id: row.id, category_id: id };
                let i = choose|i: int| 0 <= i < db.links.len() && db.links[i] == wanted;
                assert(db.links[i].recipe_id < db.next_recipe_id);
            }
        }
        lemma_create_links(row, ids, 0, inserted);
        lemma_fresh_is_distinct(ids);
        assert(ids.skip(0) =~= ids);
        assert(HandlerView::RecipesCreate(RecipesCreateView::Inserting { ids }).run(
            inserted,
            ReplyView::Recipe(row),
        ) == create_links_from(row, ids, 0, inserted));
        assert(create_from_ids(recipe, ids, session) == create_links_from(row, ids, 0, inserted));
    }
}

/// Creating a recipe. Unless every category named exists, nothing is
/// written and the answer is "category not found". Otherwise the recipe
/// gets the next id and is stored with one association row per category,
/// and the answer is the recipe as stored. Where the ids ran out, or a
/// category was named twice, the tables stay as they were and the answer is
/// the internal error.
pub proof fn law_recipes_create(db: Database, body: NewRecipeBodyView)
    requires
        db.valid(),
    ensures
        answered(db, RequestView::RecipesCreate { body }).0.saved is None,
        served(db, RequestView::RecipesCreate { body }) == created(db, body),
{
    reveal_with_fuel(HandlerView::run, 1);
    let names = body.categories;
    let session = Session::open(db);
    let ids = ids_of(db, names);
    let run = answered(db, RequestView::RecipesCreate { body });
    assert(names.skip(0) =~= names);
    assert(Seq::<int>::empty() + ids =~= ids);
    if names.len() > 0 {
        lemma_create_lookup(body.recipe, names, Seq::empty(), session);
    } else {
        assert(ids =~= Seq::<int>::empty());
        assert(run == create_from_ids(body.recipe, ids, session));
    }
    if all_known(db, names) {
        lemma_ids_exist(db, names);
        lemma_create_with_ids(db, body.recipe, ids);
        assert(run == create_from_ids(body.recipe, ids, session));
    }
}

/// The run of a recipe's change from the point at which the rows from
/// `ids[done]` on are still to insert.
pub open spec fn change_links_from(row: RecipeView, ids: Seq<int>, done: nat, session: Session)
    -> (Session, ResponseView) {
    if done < ids.len() {
        let (after, answer) = session.execute(
            StatementView::InsertRecipeCategory {
                link: RecipeCategoryView { recipe_id: row.id, category_id: ids[done as int] },
            },
        );
        HandlerView::RecipesChange(RecipesChangeView::Linking { recipe: row, ids, done }).run(
            after,
            answer,
        )
    } else {
        let (after, answer) = session.execute(
            StatementView::CategoriesOfRecipe { recipe_id: row.id },
        );
        HandlerView::RecipesChange(RecipesChangeView::Loading { recipe: row }).run(after, answer)
    }
}

/// Inserting the new association rows of a recipe from `ids[done]` on
/// commits every row if no id repeats an earlier one, and else undoes the
/// transaction.
proof fn lemma_change_links(row: RecipeView, ids: Seq<int>, done: nat, session: Session)
    requires
        session.saved is Some,
        done <= ids.len(),
        session.db.recipe(row.id) is Some,
        forall|k: int| 0 <= k < ids.len() ==> session.db.category(#[trigger] ids[k]) is Some,
        forall|id: int| session.db.linked(row.id, id) <==> ids.take(done as int).contains(id),
    ensures
        change_links_from(row, ids, done, session) == if fresh_from(ids, done) {
            let db = Database {
                links: session.db.links + links_for(row.id, ids.skip(done as int)),
                ..session.db
            };
            (
                Session { db, saved: None },
                ResponseView::ok(
                    PayloadView::RecipeBody(
                        RecipeBodyView { recipe: row, categories: db.categories_of(row.id) },
                    ),
                ),
            )
        } else {
            (session.undone(), ApiErrors::InternalError.response())
        },
    decreases ids.len() - done,
{
    reveal_with_fuel(HandlerView::run, 3);
    let db = session.db;
    if done < ids.len() {
        let link = RecipeCategoryView { recipe_id: row.id, category_id: ids[done as int] };
        let (after, answer) = session.execute(StatementView::InsertRecipeCategory { link });
        assert(db.category(ids[done as int]) is Some);
        assert(db.links.contains(link) == db.linked(row.id, ids[done as int]));
        if ids.take(done as int).contains(ids[done as int]) {
            assert(answer is Failed);
            assert(!fresh_from(ids, done));
        } else {
            assert(answer is Done);
            assert(after.db.links == db.links.push(link));
            let before = ids.take(done as int);
            let now = ids.take(done as int + 1);
            assert(now =~= before.push(ids[done as int]));
            assert forall|id: int| after.db.linked(row.id, id) <==> now.contains(id) by {
                let wanted = RecipeCategoryView { recipe_id: row.id, category_id: id };
                if after.db.linked(row.id, id) {
                    let i = choose|i: int|
                        0 <= i < after.db.links.len() && after.db.links[i] == wanted;
                    if i < db.links.len() {
                        assert(db.links[i] == wanted);
                        assert(db.linked(row.id, id));
                        let j = choose|j: int| 0 <= j < before.len() && before[j] == id;
                        assert(now[j] == id);
                    } else {
                        assert(now[done as int] == id);
                    }
                }
                if now.contains(id) {
                    let j = choose|j: int| 0 <= j < now.len() && now[j] == id;
                    if j < done {
                        assert(before[j] == id);
                        assert(db.linked(row.id, id));
                        let i = choose|i: int| 0 <= i < db.links.len() && db.links[i] == wanted;
                        assert(after.db.links[i] == wanted);
                    } else {
                        assert(after.db.links[db.links.len() as int] == wanted);
                    }
                }
            }
            lemma_change_links(row, ids, (done + 1) as nat, after);
            assert(fresh_from(ids, done) <==> fresh_from(ids, (done + 1) as nat));
            assert(ids.skip(done as int) =~= seq![ids[done as int]] + ids.skip(done as int + 1));
            assert(db.links + links_for(row.id, ids.skip(done as int)) =~= after.db.links
                + links_for(row.id, ids.skip(done as int + 1)));
            assert(after.undone() == session.undone());
        }
    } else {
        assert(fresh_from(ids, done));
        assert(db.links + links_for(row.id, ids.skip(done as int)) =~= db.links);
    }
}

/// The run of a recipe's change from the point at which every category, if
/// any was named, is known by its id and the transaction is still to open.
pub open spec fn change_from_ids(
    id: int,
    changes: ChangeRecipeView,
    ids: Option<Seq<int>>,
    session: Session,
) -> (Session, ResponseView) {
    let (after, answer) = session.execute(StatementView::Begin);
    HandlerView::RecipesChange(RecipesChangeView::Opening { id, changes, ids }).run(after, answer)
}

/// Looking up the names of a recipe's new categories from the name
/// `names[found.len()]` on goes on to the writes if every name is known,
/// and else ends with "category not found".
proof fn lemma_change_lookup(
    id: int,
    changes: ChangeRecipeView,
    names: Seq<Seq<char>>,
    found: Seq<int>,
    session: Session,
)
    requires
        found.len() < names.len(),
    ensures
        HandlerView::RecipesChange(
            RecipesChangeView::Resolving {
                id,
                changes,
                lookup: LookupView { names, found },
            },
        ).run(
            session,
            one_category(
                session.db.category_named(names[found.len() as int]),
            ),
        ) == if all_known(session.db, names.skip(found.len() as int)) {
            change_from_ids(
                id,
                changes,
                Some(found + ids_of(session.db, names.skip(found.len() as int))),
                session,
            )
        } else {
            (session, ResponseView::category_not_found())
        },
    decreases names.len() - found.len(),
{
    reveal_with_fuel(HandlerView::run, 2);
    let db = session.db;
    let at = found.len() as int;
    let rest = names.skip(at);
    assert(rest[0] == names[at]);
    match db.category_named(names[at]) {
        Some(category) => {
            let more = found.push(category.id);
            assert(rest.skip(1) =~= names.skip(at + 1));
            assert(all_known(db, rest) <==> all_known(db, names.skip(at + 1))) by {
                if all_known(db, names.skip(at + 1)) {
                    assert forall|k: int| 0 <= k < rest.len() implies db.category_named(
                        #[trigger] rest[k],
                    ) is Some by {
                        if k > 0 {
                            assert(rest[k] == names.skip(at + 1)[k - 1]);
                        }
                    }
                }
                if all_known(db, rest) {
                    let tail = names.skip(at + 1);
                    assert forall|k: int| 0 <= k < tail.len() implies db.category_named(
                        #[trigger] tail[k],
                    ) is Some by {
                        assert(tail[k] == rest[k + 1]);
                    }
                }
            }
            assert(found + ids_of(db, rest) =~= more + ids_of(db, names.skip(at + 1)));
            if more.len() < names.len() {
                lemma_change_lookup(id, changes, names, more, session);
            } else {
                assert(names.skip(at + 1) =~= Seq::<Seq<char>>::empty());
                assert(more + ids_of(db, names.skip(at + 1)) =~= more);
            }
        },
        None => {
            assert(!all_known(db, rest));
        },
    }
}

/// The store after the fields of the recipe `id` were changed.
pub open spec fn recipe_updated(
    db: Database,
    id: int,
    changes: ChangeRecipeView,
) -> Database {
    Database {
        recipes: db.recipes.map_values(change_recipe(id, changes)),
        ..db
    }
}

/// The store after the categories of the recipe `id` were replaced by
/// those with these ids.
pub open spec fn categories_replaced(db: Database, id: int, ids: Seq<int>) -> Database {
    Database { links: db.links.filter(link_outside_recipe(id)) + links_for(id, ids), ..db }
}

/// What changing a recipe does to a valid store and how it is answered.
///
/// - If categories are named and one of them does not exist: nothing, and
///   "category not found".
/// - If the recipe does not exist, or a category is named twice: nothing,
///   and the internal error.
/// - Otherwise the fields named are changed. If categories are named, the
///   recipe's association rows are replaced by one row per category, in the
///   order of the names. The answer is the recipe as changed, with its
///   categories.
pub open spec fn changed(db: Database, id: int, body: ChangeRecipeBodyView) -> (
    Database,
    ResponseView,
) {
    if body.categories is Some && !all_known(db, body.categories->Some_0) {
        (db, ResponseView::category_not_found())
    } else {
        match db.recipe(id) {
            None => (db, ApiErrors::InternalError.response()),
            Some(recipe) => {
                let row = body.recipe_change.apply(recipe);
                let updated = recipe_updated(db, id, body.recipe_change);
                match body.categories {
                    None => (
                        updated,
                        ResponseView::ok(
                            PayloadView::RecipeBody(
                                RecipeBodyView {
                                    recipe: row,
                                    categories: updated.categories_of(id),
                                },
                            ),
                        ),
                    ),
                    Some(names) => {
                        let ids = ids_of(db, names);
                        let replaced = categories_replaced(updated, id, ids);
                        if ids.no_duplicates() {
                            (
                                replaced,
                                ResponseView::ok(
                                    PayloadView::RecipeBody(
                                        RecipeBodyView {
                                            recipe: row,
                                            categories: replaced.categories_of(id),
                                        },
                                    ),
                                ),
                            )
                        } else {
                            (db, ApiErrors::InternalError.response())
                        }
                    },
                }
            },
        }
    }
}

/// Selecting by id after a change of rows that keeps ids gives the changed
/// rows of the selection before.
proof fn lemma_mapped_selection(
    rows: Seq<RecipeView>,
    change: spec_fn(RecipeView) -> RecipeView,
    keep: spec_fn(RecipeView) -> bool,
)
    requires
        forall|row: RecipeView| keep(#[trigger] change(row)) == keep(row),
    ensures
        rows.map_values(change).filter(keep) == rows.filter(keep).map_values(change),
    decreases rows.len(),
{
    reveal(Seq::filter);
    if rows.len() > 0 {
        let front = rows.drop_last();
        lemma_mapped_selection(front, change, keep);
        assert(rows.map_values(change).drop_last() =~= front.map_values(change));
        assert(rows.map_values(change).last() == change(rows.last()));
        assert(keep(change(rows.last())) == keep(rows.last()));
        if keep(rows.last()) {
            assert(rows.filter(keep) == front.filter(keep).push(rows.last()));
            assert(rows.filter(keep).map_values(change) =~= front.filter(keep).map_values(
                change,
            ).push(change(rows.last())));
        }
    } else {
        assert(rows.map_values(change) =~= rows);
        assert(rows.filter(keep).map_values(change) =~= rows.filter(keep));
    }
}

/// A change of rows keeps which rows have the id `id`: the row found under
/// an id after the change is the changed row found under it before.
pub proof fn lemma_updated_recipe(
    db: Database,
    id: int,
    changes: ChangeRecipeView,
    other: int,
)
    ensures
        recipe_updated(db, id, changes).recipe(other) == match db.recipe(other) {
            Some(recipe) => Some(change_recipe(id, changes)(recipe)),
            None => None,
        },
    decreases db.recipes.len(),
{
    let change = change_recipe(id, changes);
    let keep = recipe_with(other);
    lemma_mapped_selection(db.recipes, change, keep);
}

/// A change that names no field changes no recipe.
pub proof fn lemma_empty_change(db: Database, id: int, changes: ChangeRecipeView)
    ensures
        changes.is_empty() ==> recipe_updated(db, id, changes) == db,
        changes.is_empty() ==> forall|recipe: RecipeView| #[trigger]
            changes.apply(recipe) == recipe,
{
    if changes.is_empty() {
        assert(db.recipes.map_values(change_recipe(id, changes)) =~= db.recipes);
    }
}

/// The ids found for known names are ids of categories.
proof fn lemma_ids_exist(db: Database, names: Seq<Seq<char>>)
    requires
        all_known(db, names),
    ensures
        forall|k: int|
            0 <= k < names.len() ==> db.category(#[trigger] ids_of(db, names)[k]) is Some,
{
    assert forall|k: int| 0 <= k < names.len() implies db.category(
        #[trigger] ids_of(db, names)[k],
    ) is Some by {
        assert(db.category_named(names[k]) is Some);
        lemma_named_exists(db, names[k]);
    }
}

/// What the change of a recipe comes to once the ids of its new categories
/// are known.
proof fn lemma_change_with_ids(db: Database, id: int, changes: ChangeRecipeView, ids: Seq<int>)
    requires
        db.valid(),
        forall|k: int| 0 <= k < ids.len() ==> db.category(#[trigger] ids[k]) is Some,
    ensures
        change_from_ids(id, changes, Some(ids), Session::open(db)) == match db.recipe(id) {
            Some(recipe) if ids.no_duplicates() => {
                let replaced = categories_replaced(recipe_updated(db, id, changes), id, ids);
                (
                    Session::open(replaced),
                    ResponseView::ok(
                        PayloadView::RecipeBody(
                            RecipeBodyView {
                                recipe: changes.apply(recipe),
                                categories: replaced.categories_of(id),
                            },
                        ),
                    ),
                )
            },
            _ => (Session::open(db), ApiErrors::InternalError.response()),
        },
{
    reveal_with_fuel(HandlerView::run, 3);
    let session = Session::open(db);
    let (opened, _) = session.execute(StatementView::Begin);
    assert(opened == Session { db, saved: Some(db) });
    assert(db.restored(db) == db);
    let (updated, found) = opened.execute(recipe_change_query(id, changes));
    lemma_selected(db.recipes, recipe_with(id));
    lemma_empty_change(db, id, changes);
    match db.recipe(id) {
        Some(recipe) => {
            let row = changes.apply(recipe);
            assert(row.id == id);
            assert(found == ReplyView::Recipe(row));
            let (unlinked, _) = updated.execute(
                StatementView::DeleteCategoriesOfRecipe { recipe_id: id },
            );
            lemma_updated_recipe(db, id, changes, id);
            assert(unlinked.db.recipe(id) is Some);
            assert(unlinked.db.categories == db.categories);
            assert forall|k: int| 0 <= k < ids.len() implies unlinked.db.category(
                #[trigger] ids[k],
            ) is Some by {
                assert(db.category(ids[k]) is Some);
            }
            lemma_selected(db.links, link_outside_recipe(id));
            assert forall|other: int| unlinked.db.linked(id, other) <==> ids.take(0).contains(
                other,
            ) by {
                if unlinked.db.linked(id, other) {
                    let wanted = RecipeCategoryView { recipe_id: id, category_id: other };
                    let i = choose|i: int|
                        0 <= i < unlinked.db.links.len() && unlinked.db.links[i] == wanted;
                    assert(link_outside_recipe(id)(unlinked.db.links[i]));
                }
            }
            lemma_change_links(row, ids, 0, unlinked);
            lemma_fresh_is_distinct(ids);
            assert(ids.skip(0) =~= ids);
            assert(unlinked.undone() == Session::open(db));
            assert(HandlerView::RecipesChange(
                RecipesChangeView::Unlinking { recipe: row, ids },
            ).run(unlinked, ReplyView::Done) == change_links_from(row, ids, 0, unlinked));
            assert(change_from_ids(id, changes, Some(ids), session)
                == change_links_from(row, ids, 0, unlinked));
        },
        None => {
            assert(found == ReplyView::Missing);
            assert(updated == opened);
        },
    }
}

/// What the change of a recipe comes to when its categories stay.
proof fn lemma_change_fields_only(db: Database, id: int, changes: ChangeRecipeView)
    ensures
        change_from_ids(id, changes, None, Session::open(db)) == match db.recipe(id) {
            Some(recipe) => {
                let updated = recipe_updated(db, id, changes);
                (
                    Session::open(updated),
                    ResponseView::ok(
                        PayloadView::RecipeBody(
                            RecipeBodyView {
                                recipe: changes.apply(recipe),
                                categories: updated.categories_of(id),
                            },
                        ),
                    ),
                )
            },
            None => (Session::open(db), ApiErrors::InternalError.response()),
        },
{
    reveal_with_fuel(HandlerView::run, 4);
    let session = Session::open(db);
    let (opened, _) = session.execute(StatementView::Begin);
    assert(opened == Session { db, saved: Some(db) });
    assert(db.restored(db) == db);
    lemma_selected(db.recipes, recipe_with(id));
    lemma_empty_change(db, id, changes);
}

/// Changing a recipe. If categories are named and one of them does not
/// exist, nothing is written and the answer is "category not found". If
/// the recipe does not exist, or a category was named twice, nothing is
/// written and the answer is the internal error. Otherwise the fields named
/// are changed, the recipe's categories, if any were named, are replaced by
/// those named, and the answer is the recipe as changed with its
/// categories.
pub proof fn law_recipes_change(db: Database, id: int, body: ChangeRecipeBodyView)
    requires
        db.valid(),
    ensures
        answered(db, RequestView::RecipesChange { id, body }).0.saved is None,
        served(db, RequestView::RecipesChange { id, body }) == changed(db, id, body),
{
    reveal_with_fuel(HandlerView::run, 1);
    let changes = body.recipe_change;
    let session = Session::open(db);
    let run = answered(db, RequestView::RecipesChange { id, body });
    match body.categories {
        Some(names) => {
            let ids = ids_of(db, names);
            assert(names.skip(0) =~= names);
            assert(Seq::<int>::empty() + ids =~= ids);
            if names.len() > 0 {
                lemma_change_lookup(id, changes, names, Seq::empty(), session);
            } else {
                assert(ids =~= Seq::<int>::empty());
                assert(run == change_from_ids(id, changes, Some(ids), session));
            }
            if all_known(db, names) {
                lemma_ids_exist(db, names);
                lemma_change_with_ids(db, id, changes, ids);
                assert(run == change_from_ids(id, changes, Some(ids), session));
            }
        },
        None => {
            lemma_change_fields_only(db, id, changes);
            assert(run == change_from_ids(id, changes, None, session));
        },
    }
}

} // verus!
