use recipes_rs::models::category::{Category, ChangeCategory, NewCategory, RecipeCategory};
use recipes_rs::models::recipe::{ChangeRecipe, NewRecipe, Recipe};
use recipes_rs::service::{Handler, Request};
use recipes_rs::services::associations::{Looked, Lookup};
use recipes_rs::services::categories::{
    categories_change, categories_create, categories_delete, categories_get, categories_list,
    CategoriesChange, CategoriesCreate, CategoriesDelete, CategoriesGet, CategoriesList,
};
use recipes_rs::services::errors::ApiErrors;
use recipes_rs::services::hello::{hello, Hello};
use recipes_rs::services::recipes::{
    categories_loaded, get_categories, recipes_change, recipes_create, recipes_delete,
    recipes_get, recipes_list, ChangeRecipeBody, NewRecipeBody, RecipeBody, RecipesChange,
    RecipesCreate, RecipesDelete, RecipesGet, RecipesList,
};
use recipes_rs::services::response::{Payload, Response};
use recipes_rs::services::step::Step;
use recipes_rs::services::utils::{get_connection, ResponseBodyVec};
use recipes_rs::store::statement::{Reply, Statement};

fn tart() -> Recipe {
    Recipe {
        id: 7,
        name: String::from("Tart"),
        instructions: String::from("bake"),
        cuisine: String::from("fr"),
        duration_min: 50,
        preparation_needed: true,
        portions: 6,
        difficulty: 4,
    }
}

fn new_tart() -> NewRecipe {
    NewRecipe {
        name: String::from("Tart"),
        instructions: String::from("bake"),
        cuisine: String::from("fr"),
        duration_min: 50,
        preparation_needed: true,
        portions: 6,
        difficulty: 4,
    }
}

fn rename(name: &str) -> ChangeRecipe {
    ChangeRecipe {
        name: Some(String::from(name)),
        instructions: None,
        cuisine: None,
        duration_min: None,
        preparation_needed: None,
        portions: None,
        difficulty: None,
    }
}

fn internal<S>() -> Step<S> {
    Step::Respond { response: ApiErrors::InternalError.error_response() }
}

#[test]
fn connection_is_had_only_on_connected() {
    assert_eq!(get_connection(&Reply::Connected), Ok(()));
    assert_eq!(get_connection(&Reply::Unavailable), Err(ApiErrors::DatabaseConnectionError));
    assert_eq!(get_connection(&Reply::Failed), Err(ApiErrors::DatabaseConnectionError));
    assert_eq!(get_connection(&Reply::Done), Err(ApiErrors::DatabaseConnectionError));
}

#[test]
fn every_handler_gives_up_without_a_connection() {
    let unavailable: Step<Handler> =
        Step::Respond { response: ApiErrors::DatabaseConnectionError.error_response() };
    let requests = vec![
        Request::RecipesList,
        Request::RecipesGet { id: 1 },
        Request::RecipesCreate { body: NewRecipeBody { recipe: new_tart(), categories: vec![] } },
        Request::RecipesChange {
            id: 1,
            body: ChangeRecipeBody { recipe_change: rename("x"), categories: None },
        },
        Request::RecipesDelete { id: 1 },
        Request::CategoriesList,
        Request::CategoriesGet { id: 1 },
        Request::CategoriesCreate { category: NewCategory { name: String::from("a") } },
        Request::CategoriesChange { id: 1, changes: ChangeCategory { name: None } },
        Request::CategoriesDelete { id: 1 },
    ];
    for request in requests {
        assert_eq!(Handler::start(request).step(Reply::Unavailable), unavailable);
    }
}

#[test]
fn hello_names_the_step_that_failed() {
    assert_eq!(
        hello(Hello::Connecting, Reply::Unavailable),
        Step::Respond { response: Response::server_error("Unable to get connection from pool") }
    );
    assert_eq!(
        hello(Hello::Connecting, Reply::Connected),
        Step::Run { statement: Statement::ListRecipes, next: Hello::Listing }
    );
    assert_eq!(
        hello(Hello::Listing, Reply::Failed),
        Step::Respond { response: Response::server_error("Cannot get recipes from the database") }
    );
    assert_eq!(
        hello(Hello::Listing, Reply::Recipes(vec![tart()])),
        Step::Respond {
            response: Response::ok(Payload::Recipes(ResponseBodyVec { result: vec![tart()] })),
        }
    );
}

#[test]
fn get_categories_asks_for_the_recipes_categories() {
    assert_eq!(get_categories(&tart()), Statement::CategoriesOfRecipe { recipe_id: 7 });
}

#[test]
fn categories_loaded_takes_only_categories() {
    let sweet = Category { id: 2, name: String::from("sweet") };
    assert_eq!(categories_loaded(Reply::Categories(vec![sweet.clone()])), Ok(vec![sweet]));
    assert_eq!(categories_loaded(Reply::Failed), Err(ApiErrors::InternalError));
    assert_eq!(categories_loaded(Reply::Missing), Err(ApiErrors::InternalError));
    assert_eq!(categories_loaded(Reply::Done), Err(ApiErrors::InternalError));
}

#[test]
fn recipes_get_step_by_step() {
    assert_eq!(
        recipes_get(RecipesGet::Connecting { id: 7 }, Reply::Connected),
        Step::Run { statement: Statement::FindRecipe { id: 7 }, next: RecipesGet::Finding }
    );
    assert_eq!(
        recipes_get(RecipesGet::Finding, Reply::Recipe(tart())),
        Step::Run {
            statement: Statement::CategoriesOfRecipe { recipe_id: 7 },
            next: RecipesGet::Loading { recipe: tart() },
        }
    );
    let sweet = Category { id: 2, name: String::from("sweet") };
    assert_eq!(
        recipes_get(RecipesGet::Loading { recipe: tart() }, Reply::Categories(vec![sweet.clone()])),
        Step::Respond {
            response: Response::ok(Payload::RecipeBody(RecipeBody {
                recipe: tart(),
                categories: vec![sweet],
            })),
        }
    );
}

#[test]
fn recipes_get_tells_missing_from_failed() {
    assert_eq!(
        recipes_get(RecipesGet::Finding, Reply::Missing),
        Step::Respond { response: ApiErrors::NotFound.error_response() }
    );
    assert_eq!(recipes_get(RecipesGet::Finding, Reply::Failed), internal());
    assert_eq!(recipes_get(RecipesGet::Loading { recipe: tart() }, Reply::Failed), internal());
}

#[test]
fn recipes_list_loads_categories_recipe_by_recipe() {
    let second = Recipe { id: 8, ..tart() };
    let recipes = vec![tart(), second.clone()];
    assert_eq!(
        recipes_list(RecipesList::Connecting, Reply::Connected),
        Step::Run { statement: Statement::ListRecipes, next: RecipesList::Listing }
    );
    assert_eq!(
        recipes_list(RecipesList::Listing, Reply::Recipes(recipes.clone())),
        Step::Run {
            statement: Statement::CategoriesOfRecipe { recipe_id: 7 },
            next: RecipesList::Loading { recipes: recipes.clone(), bodies: vec![] },
        }
    );
    let first_body = RecipeBody { recipe: tart(), categories: vec![] };
    assert_eq!(
        recipes_list(
            RecipesList::Loading { recipes: recipes.clone(), bodies: vec![] },
            Reply::Categories(vec![])
        ),
        Step::Run {
            statement: Statement::CategoriesOfRecipe { recipe_id: 8 },
            next: RecipesList::Loading {
                recipes: recipes.clone(),
                bodies: vec![first_body.clone()],
            },
        }
    );
    let sweet = Category { id: 2, name: String::from("sweet") };
    let second_body = RecipeBody { recipe: second, categories: vec![sweet.clone()] };
    assert_eq!(
        recipes_list(
            RecipesList::Loading { recipes, bodies: vec![first_body.clone()] },
            Reply::Categories(vec![sweet])
        ),
        Step::Respond {
            response: Response::ok(Payload::RecipeBodies(ResponseBodyVec {
                result: vec![first_body, second_body],
            })),
        }
    );
}

#[test]
fn recipes_list_of_nothing_answers_at_once() {
    assert_eq!(
        recipes_list(RecipesList::Listing, Reply::Recipes(vec![])),
        Step::Respond {
            response: Response::ok(Payload::RecipeBodies(ResponseBodyVec { result: vec![] })),
        }
    );
    assert_eq!(recipes_list(RecipesList::Listing, Reply::Failed), internal());
}

#[test]
fn lookup_asks_name_by_name() {
    let names = vec![String::from("a"), String::from("b")];
    let first = Lookup::begin(names.clone());
    assert_eq!(
        first,
        Looked::Pending {
            statement: Statement::FindCategoryByName { name: String::from("a") },
            lookup: Lookup { names: names.clone(), found: vec![] },
        }
    );
    let lookup = Lookup { names: names.clone(), found: vec![] };
    let second = lookup.resume(Reply::Category(Category { id: 5, name: String::from("a") }));
    assert_eq!(
        second,
        Looked::Pending {
            statement: Statement::FindCategoryByName { name: String::from("b") },
            lookup: Lookup { names: names.clone(), found: vec![5] },
        }
    );
    let lookup = Lookup { names, found: vec![5] };
    assert_eq!(
        lookup.resume(Reply::Category(Category { id: 9, name: String::from("b") })),
        Looked::Resolved { ids: vec![5, 9] }
    );
}

#[test]
fn lookup_ends_on_a_missing_name_or_a_failure() {
    let names = vec![String::from("a")];
    let lookup = Lookup { names: names.clone(), found: vec![] };
    assert_eq!(lookup.resume(Reply::Missing), Looked::Unknown);
    assert_eq!(Lookup { names, found: vec![] }.resume(Reply::Failed), Looked::Failed);
    assert_eq!(Lookup::begin(vec![]), Looked::Resolved { ids: vec![] });
}

#[test]
fn recipes_create_checks_categories_before_it_writes() {
    let body = NewRecipeBody { recipe: new_tart(), categories: vec![String::from("sweet")] };
    let step = recipes_create(RecipesCreate::Connecting { body }, Reply::Connected);
    let lookup = Lookup { names: vec![String::from("sweet")], found: vec![] };
    assert_eq!(
        step,
        Step::Run {
            statement: Statement::FindCategoryByName { name: String::from("sweet") },
            next: RecipesCreate::Resolving { recipe: new_tart(), lookup },
        }
    );
    let lookup = Lookup { names: vec![String::from("sweet")], found: vec![] };
    assert_eq!(
        recipes_create(RecipesCreate::Resolving { recipe: new_tart(), lookup }, Reply::Missing),
        Step::Respond { response: Response::category_not_found() }
    );
    let lookup = Lookup { names: vec![String::from("sweet")], found: vec![] };
    assert_eq!(
        recipes_create(RecipesCreate::Resolving { recipe: new_tart(), lookup }, Reply::Failed),
        internal()
    );
}

#[test]
fn recipes_create_writes_in_one_transaction() {
    let lookup = Lookup { names: vec![String::from("sweet")], found: vec![] };
    let sweet = Category { id: 2, name: String::from("sweet") };
    assert_eq!(
        recipes_create(
            RecipesCreate::Resolving { recipe: new_tart(), lookup },
            Reply::Category(sweet)
        ),
        Step::Run {
            statement: Statement::Begin,
            next: RecipesCreate::Opening { recipe: new_tart(), ids: vec![2] },
        }
    );
    assert_eq!(
        recipes_create(RecipesCreate::Opening { recipe: new_tart(), ids: vec![2] }, Reply::Done),
        Step::Run {
            statement: Statement::InsertRecipe { recipe: new_tart() },
            next: RecipesCreate::Inserting { ids: vec![2] },
        }
    );
    assert_eq!(
        recipes_create(RecipesCreate::Inserting { ids: vec![2] }, Reply::Recipe(tart())),
        Step::Run {
            statement: Statement::InsertRecipeCategory {
                link: RecipeCategory { recipe_id: 7, category_id: 2 },
            },
            next: RecipesCreate::Linking { recipe: tart(), ids: vec![2], done: 0 },
        }
    );
    assert_eq!(
        recipes_create(
            RecipesCreate::Linking { recipe: tart(), ids: vec![2], done: 0 },
            Reply::Done
        ),
        Step::Run {
            statement: Statement::Commit,
            next: RecipesCreate::Committing { recipe: tart() },
        }
    );
    assert_eq!(
        recipes_create(RecipesCreate::Committing { recipe: tart() }, Reply::Done),
        Step::Respond { response: Response::ok(Payload::Recipe(tart())) }
    );
}

#[test]
fn recipes_create_undoes_a_failed_write() {
    let undo = Step::Run { statement: Statement::Rollback, next: RecipesCreate::Aborting };
    assert_eq!(recipes_create(RecipesCreate::Inserting { ids: vec![2] }, Reply::Failed), undo);
    assert_eq!(
        recipes_create(
            RecipesCreate::Linking { recipe: tart(), ids: vec![2, 2], done: 1 },
            Reply::Failed
        ),
        undo
    );
    assert_eq!(recipes_create(RecipesCreate::Aborting, Reply::Done), internal());
    assert_eq!(recipes_create(RecipesCreate::Aborting, Reply::Failed), internal());
    assert_eq!(
        recipes_create(RecipesCreate::Opening { recipe: new_tart(), ids: vec![] }, Reply::Failed),
        internal()
    );
    assert_eq!(
        recipes_create(RecipesCreate::Committing { recipe: tart() }, Reply::Failed),
        internal()
    );
}

#[test]
fn recipes_create_without_categories_inserts_and_commits() {
    let body = NewRecipeBody { recipe: new_tart(), categories: vec![] };
    assert_eq!(
        recipes_create(RecipesCreate::Connecting { body }, Reply::Connected),
        Step::Run {
            statement: Statement::Begin,
            next: RecipesCreate::Opening { recipe: new_tart(), ids: vec![] },
        }
    );
    assert_eq!(
        recipes_create(RecipesCreate::Inserting { ids: vec![] }, Reply::Recipe(tart())),
        Step::Run {
            statement: Statement::Commit,
            next: RecipesCreate::Committing { recipe: tart() },
        }
    );
}

#[test]
fn recipes_change_without_categories_keeps_the_associations() {
    let body = ChangeRecipeBody { recipe_change: rename("Pie"), categories: None };
    assert_eq!(
        recipes_change(RecipesChange::Connecting { id: 7, body }, Reply::Connected),
        Step::Run {
            statement: Statement::Begin,
            next: RecipesChange::Opening { id: 7, changes: rename("Pie"), ids: None },
        }
    );
    assert_eq!(
        recipes_change(
            RecipesChange::Opening { id: 7, changes: rename("Pie"), ids: None },
            Reply::Done
        ),
        Step::Run {
            statement: Statement::UpdateRecipe { id: 7, changes: rename("Pie") },
            next: RecipesChange::Updating { ids: None },
        }
    );
    assert_eq!(
        recipes_change(RecipesChange::Updating { ids: None }, Reply::Recipe(tart())),
        Step::Run {
            statement: Statement::CategoriesOfRecipe { recipe_id: 7 },
            next: RecipesChange::Loading { recipe: tart() },
        }
    );
}

#[test]
fn change_that_names_no_field_only_reads() {
    let nothing = ChangeRecipe {
        name: None,
        instructions: None,
        cuisine: None,
        duration_min: None,
        preparation_needed: None,
        portions: None,
        difficulty: None,
    };
    assert_eq!(
        recipes_change(
            RecipesChange::Opening { id: 7, changes: nothing, ids: Some(vec![2]) },
            Reply::Done
        ),
        Step::Run {
            statement: Statement::FindRecipe { id: 7 },
            next: RecipesChange::Updating { ids: Some(vec![2]) },
        }
    );
    assert_eq!(
        categories_change(
            CategoriesChange::Connecting { id: 2, changes: ChangeCategory { name: None } },
            Reply::Connected
        ),
        Step::Run {
            statement: Statement::FindCategory { id: 2 },
            next: CategoriesChange::Updating,
        }
    );
}

#[test]
fn recipes_change_replaces_every_association() {
    assert_eq!(
        recipes_change(RecipesChange::Updating { ids: Some(vec![2, 3]) }, Reply::Recipe(tart())),
        Step::Run {
            statement: Statement::DeleteCategoriesOfRecipe { recipe_id: 7 },
            next: RecipesChange::Unlinking { recipe: tart(), ids: vec![2, 3] },
        }
    );
    assert_eq!(
        recipes_change(RecipesChange::Unlinking { recipe: tart(), ids: vec![2, 3] }, Reply::Done),
        Step::Run {
            statement: Statement::InsertRecipeCategory {
                link: RecipeCategory { recipe_id: 7, category_id: 2 },
            },
            next: RecipesChange::Linking { recipe: tart(), ids: vec![2, 3], done: 0 },
        }
    );
    assert_eq!(
        recipes_change(
            RecipesChange::Linking { recipe: tart(), ids: vec![2, 3], done: 0 },
            Reply::Done
        ),
        Step::Run {
            statement: Statement::InsertRecipeCategory {
                link: RecipeCategory { recipe_id: 7, category_id: 3 },
            },
            next: RecipesChange::Linking { recipe: tart(), ids: vec![2, 3], done: 1 },
        }
    );
    assert_eq!(
        recipes_change(
            RecipesChange::Linking { recipe: tart(), ids: vec![2, 3], done: 1 },
            Reply::Done
        ),
        Step::Run {
            statement: Statement::CategoriesOfRecipe { recipe_id: 7 },
            next: RecipesChange::Loading { recipe: tart() },
        }
    );
    let body = RecipeBody { recipe: tart(), categories: vec![] };
    assert_eq!(
        recipes_change(RecipesChange::Loading { recipe: tart() }, Reply::Categories(vec![])),
        Step::Run {
            statement: Statement::Commit,
            next: RecipesChange::Committing { body: body.clone() },
        }
    );
    assert_eq!(
        recipes_change(RecipesChange::Committing { body: body.clone() }, Reply::Done),
        Step::Respond { response: Response::ok(Payload::RecipeBody(body)) }
    );
}

#[test]
fn recipes_change_of_a_missing_recipe_is_an_internal_error() {
    let undo = Step::Run { statement: Statement::Rollback, next: RecipesChange::Aborting };
    assert_eq!(recipes_change(RecipesChange::Updating { ids: None }, Reply::Missing), undo);
    assert_eq!(recipes_change(RecipesChange::Updating { ids: None }, Reply::Failed), undo);
    assert_eq!(recipes_change(RecipesChange::Aborting, Reply::Done), internal());
}

#[test]
fn recipes_change_stops_at_an_unknown_category() {
    let lookup = Lookup { names: vec![String::from("nonexistent")], found: vec![] };
    assert_eq!(
        recipes_change(
            RecipesChange::Resolving { id: 7, changes: rename("Pie"), lookup },
            Reply::Missing
        ),
        Step::Respond { response: Response::category_not_found() }
    );
}

#[test]
fn recipes_delete_removes_associations_first() {
    assert_eq!(
        recipes_delete(RecipesDelete::Connecting { id: 7 }, Reply::Connected),
        Step::Run { statement: Statement::Begin, next: RecipesDelete::Opening { id: 7 } }
    );
    assert_eq!(
        recipes_delete(RecipesDelete::Opening { id: 7 }, Reply::Done),
        Step::Run {
            statement: Statement::DeleteCategoriesOfRecipe { recipe_id: 7 },
            next: RecipesDelete::Unlinking { id: 7 },
        }
    );
    assert_eq!(
        recipes_delete(RecipesDelete::Unlinking { id: 7 }, Reply::Done),
        Step::Run { statement: Statement::DeleteRecipe { id: 7 }, next: RecipesDelete::Deleting }
    );
    assert_eq!(
        recipes_delete(RecipesDelete::Deleting, Reply::Done),
        Step::Run { statement: Statement::Commit, next: RecipesDelete::Committing }
    );
    assert_eq!(
        recipes_delete(RecipesDelete::Committing, Reply::Done),
        Step::Respond { response: Response::no_content() }
    );
    assert_eq!(
        recipes_delete(RecipesDelete::Deleting, Reply::Failed),
        Step::Run { statement: Statement::Rollback, next: RecipesDelete::Aborting }
    );
    assert_eq!(recipes_delete(RecipesDelete::Aborting, Reply::Done), internal());
}

#[test]
fn categories_handlers_step_by_step() {
    let sweet = Category { id: 2, name: String::from("sweet") };
    assert_eq!(
        categories_list(CategoriesList::Connecting, Reply::Connected),
        Step::Run { statement: Statement::ListCategories, next: CategoriesList::Listing }
    );
    assert_eq!(
        categories_list(CategoriesList::Listing, Reply::Categories(vec![sweet.clone()])),
        Step::Respond {
            response: Response::ok(Payload::Categories(ResponseBodyVec {
                result: vec![sweet.clone()],
            })),
        }
    );
    assert_eq!(categories_list(CategoriesList::Listing, Reply::Failed), internal());
    assert_eq!(
        categories_get(CategoriesGet::Connecting { id: 2 }, Reply::Connected),
        Step::Run { statement: Statement::FindCategory { id: 2 }, next: CategoriesGet::Finding }
    );
    assert_eq!(
        categories_get(CategoriesGet::Finding, Reply::Category(sweet.clone())),
        Step::Respond { response: Response::ok(Payload::Category(sweet.clone())) }
    );
    assert_eq!(
        categories_get(CategoriesGet::Finding, Reply::Missing),
        Step::Respond { response: ApiErrors::NotFound.error_response() }
    );
    assert_eq!(categories_get(CategoriesGet::Finding, Reply::Failed), internal());
    let new = NewCategory { name: String::from("sweet") };
    assert_eq!(
        categories_create(CategoriesCreate::Connecting { category: new.clone() }, Reply::Connected),
        Step::Run {
            statement: Statement::InsertCategory { category: new },
            next: CategoriesCreate::Inserting,
        }
    );
    assert_eq!(
        categories_create(CategoriesCreate::Inserting, Reply::Category(sweet.clone())),
        Step::Respond { response: Response::ok(Payload::Category(sweet.clone())) }
    );
    assert_eq!(categories_create(CategoriesCreate::Inserting, Reply::Failed), internal());
    let changes = ChangeCategory { name: Some(String::from("sweets")) };
    assert_eq!(
        categories_change(
            CategoriesChange::Connecting { id: 2, changes: changes.clone() },
            Reply::Connected
        ),
        Step::Run {
            statement: Statement::UpdateCategory { id: 2, changes },
            next: CategoriesChange::Updating,
        }
    );
    assert_eq!(categories_change(CategoriesChange::Updating, Reply::Missing), internal());
    assert_eq!(
        categories_change(CategoriesChange::Updating, Reply::Category(sweet.clone())),
        Step::Respond { response: Response::ok(Payload::Category(sweet)) }
    );
}

#[test]
fn categories_delete_removes_associations_first() {
    assert_eq!(
        categories_delete(CategoriesDelete::Connecting { id: 2 }, Reply::Connected),
        Step::Run { statement: Statement::Begin, next: CategoriesDelete::Opening { id: 2 } }
    );
    assert_eq!(
        categories_delete(CategoriesDelete::Opening { id: 2 }, Reply::Done),
        Step::Run {
            statement: Statement::DeleteRecipesOfCategory { category_id: 2 },
            next: CategoriesDelete::Unlinking { id: 2 },
        }
    );
    assert_eq!(
        categories_delete(CategoriesDelete::Unlinking { id: 2 }, Reply::Done),
        Step::Run {
            statement: Statement::DeleteCategory { id: 2 },
            next: CategoriesDelete::Deleting,
        }
    );
    assert_eq!(
        categories_delete(CategoriesDelete::Deleting, Reply::Done),
        Step::Run { statement: Statement::Commit, next: CategoriesDelete::Committing }
    );
    assert_eq!(
        categories_delete(CategoriesDelete::Committing, Reply::Done),
        Step::Respond { response: Response::no_content() }
    );
    assert_eq!(
        categories_delete(CategoriesDelete::Unlinking { id: 2 }, Reply::Failed),
        Step::Run { statement: Statement::Rollback, next: CategoriesDelete::Aborting }
    );
    assert_eq!(categories_delete(CategoriesDelete::Opening { id: 2 }, Reply::Failed), internal());
}
