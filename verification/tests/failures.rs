use recipes_rs::models::category::{Category, NewCategory};
use recipes_rs::models::recipe::{ChangeRecipe, NewRecipe};
use recipes_rs::service::{serve, serve_despite, Request};
use recipes_rs::services::errors::ApiErrors;
use recipes_rs::services::recipes::{ChangeRecipeBody, NewRecipeBody, RecipeBody};
use recipes_rs::services::response::{Payload, Response};
use recipes_rs::services::utils::ResponseBodyVec;
use recipes_rs::store::memory::{Connection, Store};
use recipes_rs::store::statement::{Reply, Statement};

fn stew() -> NewRecipe {
    NewRecipe {
        name: String::from("Stew"),
        instructions: String::from("simmer"),
        cuisine: String::from("ie"),
        duration_min: 120,
        preparation_needed: true,
        portions: 4,
        difficulty: 2,
    }
}

fn create_stew(categories: &[&str]) -> Request {
    let mut names = Vec::new();
    for name in categories {
        names.push(String::from(*name));
    }
    Request::RecipesCreate { body: NewRecipeBody { recipe: stew(), categories: names } }
}

fn rename_and_move(id: i32, name: &str, categories: &[&str]) -> Request {
    let mut names = Vec::new();
    for category in categories {
        names.push(String::from(*category));
    }
    Request::RecipesChange {
        id,
        body: ChangeRecipeBody {
            recipe_change: ChangeRecipe {
                name: Some(String::from(name)),
                instructions: None,
                cuisine: None,
                duration_min: None,
                preparation_needed: None,
                portions: None,
                difficulty: None,
            },
            categories: Some(names),
        },
    }
}

fn with_categories(names: &[&str]) -> Store {
    let mut store = Store::new();
    for name in names {
        let category = NewCategory { name: String::from(*name) };
        assert_eq!(serve(&mut store, Request::CategoriesCreate { category }).status, 200);
    }
    store
}

fn failing_at(position: usize) -> Vec<bool> {
    let mut failures = vec![false; position];
    failures.push(true);
    failures
}

fn everything(store: &mut Store) -> (Response, Response) {
    (serve(store, Request::RecipesList), serve(store, Request::CategoriesList))
}

fn internal_error() -> Response {
    ApiErrors::InternalError.error_response()
}

#[test]
fn no_failure_is_plain_service() {
    let mut plain = with_categories(&["a", "b"]);
    let mut other = with_categories(&["a", "b"]);
    let expected = serve(&mut plain, create_stew(&["a", "b"]));
    assert_eq!(serve_despite(&mut other, create_stew(&["a", "b"]), true, &vec![]), expected);
    assert_eq!(
        serve_despite(&mut other, Request::RecipesGet { id: 1 }, true, &vec![false, false]),
        serve(&mut plain, Request::RecipesGet { id: 1 })
    );
    assert_eq!(everything(&mut other), everything(&mut plain));
}

#[test]
fn without_a_connection_nothing_is_asked() {
    let mut store = with_categories(&["a"]);
    let before = everything(&mut store);
    assert_eq!(
        serve_despite(&mut store, create_stew(&["a"]), false, &vec![]),
        ApiErrors::DatabaseConnectionError.error_response()
    );
    assert_eq!(
        serve_despite(&mut store, Request::Hello, false, &vec![]),
        Response::server_error("Unable to get connection from pool")
    );
    assert_eq!(everything(&mut store), before);
}

#[test]
fn failed_second_association_undoes_the_creation() {
    let mut store = with_categories(&["a", "b"]);
    let before = everything(&mut store);
    assert_eq!(
        serve_despite(&mut store, create_stew(&["a", "b"]), true, &failing_at(5)),
        internal_error()
    );
    assert_eq!(everything(&mut store), before);
    assert_eq!(
        serve(&mut store, create_stew(&[])),
        Response::ok(Payload::Recipe(stew().with_id(2)))
    );
}

#[test]
fn failed_commit_undoes_the_creation() {
    let mut store = with_categories(&["a"]);
    let before = everything(&mut store);
    assert_eq!(
        serve_despite(&mut store, create_stew(&["a"]), true, &failing_at(4)),
        internal_error()
    );
    assert_eq!(everything(&mut store), before);
}

#[test]
fn failed_rollback_still_leaves_nothing_behind() {
    let mut store = with_categories(&["a"]);
    let before = everything(&mut store);
    let failures = vec![false, false, false, true, true];
    assert_eq!(serve_despite(&mut store, create_stew(&["a"]), true, &failures), internal_error());
    assert_eq!(everything(&mut store), before);
}

#[test]
fn failed_read_back_undoes_the_change() {
    let mut store = with_categories(&["a", "b"]);
    serve(&mut store, create_stew(&["a"]));
    let before = everything(&mut store);
    let request = rename_and_move(1, "Soup", &["b"]);
    assert_eq!(serve_despite(&mut store, request, true, &failing_at(5)), internal_error());
    assert_eq!(everything(&mut store), before);
}

#[test]
fn failed_delete_keeps_the_associations() {
    let mut store = with_categories(&["a"]);
    serve(&mut store, create_stew(&["a"]));
    let before = everything(&mut store);
    assert_eq!(
        serve_despite(&mut store, Request::RecipesDelete { id: 1 }, true, &failing_at(2)),
        internal_error()
    );
    assert_eq!(everything(&mut store), before);
    assert_eq!(
        serve_despite(&mut store, Request::CategoriesDelete { id: 1 }, true, &failing_at(1)),
        internal_error()
    );
    assert_eq!(everything(&mut store), before);
}

#[test]
fn failed_lookup_is_an_internal_error_not_a_missing_category() {
    let mut store = with_categories(&["a"]);
    assert_eq!(
        serve_despite(&mut store, create_stew(&["a"]), true, &failing_at(0)),
        internal_error()
    );
    assert_eq!(
        serve_despite(&mut store, Request::RecipesGet { id: 1 }, true, &failing_at(0)),
        internal_error()
    );
    assert_eq!(
        serve_despite(&mut store, Request::Hello, true, &failing_at(0)),
        Response::server_error("Cannot get recipes from the database")
    );
}

#[test]
fn one_failure_anywhere_is_all_or_nothing() {
    let requests = vec![
        create_stew(&["a", "b"]),
        rename_and_move(1, "Soup", &["b", "c"]),
        rename_and_move(1, "Soup", &[]),
        Request::RecipesDelete { id: 1 },
        Request::CategoriesDelete { id: 1 },
        Request::CategoriesCreate { category: NewCategory { name: String::from("d") } },
        Request::RecipesList,
        Request::RecipesGet { id: 1 },
    ];
    for request in requests {
        let mut reference = with_categories(&["a", "b", "c"]);
        serve(&mut reference, create_stew(&["a"]));
        let before = everything(&mut reference.clone());
        let expected = serve(&mut reference, request.clone());
        assert!(expected.status < 400);
        let after = everything(&mut reference);
        for position in 0..12 {
            let mut store = with_categories(&["a", "b", "c"]);
            serve(&mut store, create_stew(&["a"]));
            let response = serve_despite(&mut store, request.clone(), true, &failing_at(position));
            if response.status >= 400 {
                assert_eq!(response, internal_error());
                assert_eq!(everything(&mut store), before);
            } else {
                assert_eq!(response, expected);
                assert_eq!(everything(&mut store), after);
            }
        }
    }
}

#[test]
fn attempt_that_fails_writes_nothing() {
    let mut connection = Connection::open(Store::new());
    assert_eq!(
        connection.attempt(Statement::InsertRecipe { recipe: stew() }, true),
        Reply::Failed
    );
    assert_eq!(connection.attempt(Statement::ListRecipes, false), Reply::Recipes(vec![]));
    assert_eq!(connection.attempt(Statement::Begin, false), Reply::Done);
    assert_eq!(
        connection.attempt(Statement::InsertRecipe { recipe: stew() }, false),
        Reply::Recipe(stew().with_id(1))
    );
    assert_eq!(connection.attempt(Statement::Commit, true), Reply::Failed);
    assert_eq!(connection.attempt(Statement::ListRecipes, false), Reply::Recipes(vec![]));
    let mut store = connection.close();
    assert_eq!(
        serve(&mut store, Request::RecipesList),
        Response::ok(Payload::RecipeBodies(ResponseBodyVec { result: Vec::<RecipeBody>::new() }))
    );
    assert_eq!(
        serve(&mut store, Request::CategoriesList),
        Response::ok(Payload::Categories(ResponseBodyVec { result: Vec::<Category>::new() }))
    );
}
