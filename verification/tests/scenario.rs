use recipes_rs::models::category::{Category, ChangeCategory, NewCategory};
use recipes_rs::models::recipe::{ChangeRecipe, NewRecipe, Recipe};
use recipes_rs::service::{serve, Request};
use recipes_rs::services::errors::ApiErrors;
use recipes_rs::services::recipes::{ChangeRecipeBody, NewRecipeBody, RecipeBody};
use recipes_rs::services::response::{ContentType, Payload, Response};
use recipes_rs::services::utils::ResponseBodyVec;
use recipes_rs::store::memory::Store;

fn cake() -> NewRecipe {
    NewRecipe {
        name: String::from("Cake"),
        instructions: String::from("bake"),
        cuisine: String::from("fr"),
        duration_min: 60,
        preparation_needed: true,
        portions: 8,
        difficulty: 3,
    }
}

fn stored_cake(id: i32) -> Recipe {
    cake().with_id(id)
}

fn nothing() -> ChangeRecipe {
    ChangeRecipe {
        name: None,
        instructions: None,
        cuisine: None,
        duration_min: None,
        preparation_needed: None,
        portions: None,
        difficulty: None,
    }
}

fn names(list: &[&str]) -> Vec<String> {
    let mut out = Vec::new();
    for name in list {
        out.push(String::from(*name));
    }
    out
}

fn add_category(store: &mut Store, name: &str) -> Category {
    let category = NewCategory { name: String::from(name) };
    let response = serve(store, Request::CategoriesCreate { category });
    match response.payload {
        Payload::Category(category) => category,
        other => panic!("no category: {:?}", other),
    }
}

fn add_cake(store: &mut Store, categories: &[&str]) -> Recipe {
    let body = NewRecipeBody { recipe: cake(), categories: names(categories) };
    match serve(store, Request::RecipesCreate { body }).payload {
        Payload::Recipe(recipe) => recipe,
        other => panic!("no recipe: {:?}", other),
    }
}

fn categories_of(store: &mut Store, id: i32) -> Vec<String> {
    match serve(store, Request::RecipesGet { id }).payload {
        Payload::RecipeBody(body) => {
            let mut out = Vec::new();
            for category in body.categories {
                out.push(category.name);
            }
            out.sort();
            out
        }
        other => panic!("no recipe: {:?}", other),
    }
}

fn replace_categories(store: &mut Store, id: i32, categories: &[&str]) -> Response {
    let body = ChangeRecipeBody { recipe_change: nothing(), categories: Some(names(categories)) };
    serve(store, Request::RecipesChange { id, body })
}

fn internal_error() -> Response {
    ApiErrors::InternalError.error_response()
}

fn not_found() -> Response {
    ApiErrors::NotFound.error_response()
}

#[test]
fn dessert_cake_end_to_end() {
    let mut store = Store::new();

    let created = serve(
        &mut store,
        Request::CategoriesCreate { category: NewCategory { name: String::from("dessert") } },
    );
    let dessert = Category { id: 1, name: String::from("dessert") };
    assert_eq!(
        created,
        Response {
            status: 200,
            content_type: Some(ContentType::Json),
            payload: Payload::Category(dessert.clone()),
        }
    );

    let posted = serve(
        &mut store,
        Request::RecipesCreate {
            body: NewRecipeBody { recipe: cake(), categories: vec![String::from("dessert")] },
        },
    );
    let recipe = Recipe {
        id: 1,
        name: String::from("Cake"),
        instructions: String::from("bake"),
        cuisine: String::from("fr"),
        duration_min: 60,
        preparation_needed: true,
        portions: 8,
        difficulty: 3,
    };
    assert_eq!(
        posted,
        Response {
            status: 200,
            content_type: Some(ContentType::Json),
            payload: Payload::Recipe(recipe.clone()),
        }
    );

    let got = serve(&mut store, Request::RecipesGet { id: 1 });
    assert_eq!(
        got,
        Response {
            status: 200,
            content_type: Some(ContentType::Json),
            payload: Payload::RecipeBody(RecipeBody { recipe, categories: vec![dessert] }),
        }
    );
}

#[test]
fn created_recipe_is_read_back_with_its_id() {
    let mut store = Store::new();
    let first = add_cake(&mut store, &[]);
    let second = add_cake(&mut store, &[]);
    assert_eq!(first, stored_cake(1));
    assert_eq!(second, stored_cake(2));
    assert_eq!(
        serve(&mut store, Request::RecipesGet { id: 2 }),
        Response::ok(Payload::RecipeBody(RecipeBody { recipe: stored_cake(2), categories: vec![] }))
    );
}

#[test]
fn update_changes_only_the_fields_present() {
    let mut store = Store::new();
    add_cake(&mut store, &[]);
    add_cake(&mut store, &[]);
    let body = ChangeRecipeBody {
        recipe_change: ChangeRecipe { difficulty: Some(9), ..nothing() },
        categories: None,
    };
    let changed = Recipe { difficulty: 9, ..stored_cake(1) };
    assert_eq!(
        serve(&mut store, Request::RecipesChange { id: 1, body }),
        Response::ok(Payload::RecipeBody(RecipeBody {
            recipe: changed.clone(),
            categories: vec![],
        }))
    );
    assert_eq!(
        serve(&mut store, Request::RecipesGet { id: 1 }),
        Response::ok(Payload::RecipeBody(RecipeBody { recipe: changed, categories: vec![] }))
    );
    assert_eq!(
        serve(&mut store, Request::RecipesGet { id: 2 }),
        Response::ok(Payload::RecipeBody(RecipeBody { recipe: stored_cake(2), categories: vec![] }))
    );
}

#[test]
fn empty_update_answers_with_the_recipe_as_it_is() {
    let mut store = Store::new();
    add_category(&mut store, "a");
    add_cake(&mut store, &["a"]);
    let body = ChangeRecipeBody { recipe_change: nothing(), categories: None };
    assert_eq!(
        serve(&mut store, Request::RecipesChange { id: 1, body }),
        Response::ok(Payload::RecipeBody(RecipeBody {
            recipe: stored_cake(1),
            categories: vec![Category { id: 1, name: String::from("a") }],
        }))
    );
}

#[test]
fn update_of_a_missing_recipe_is_an_internal_error() {
    let mut store = Store::new();
    let body = ChangeRecipeBody {
        recipe_change: ChangeRecipe { difficulty: Some(9), ..nothing() },
        categories: None,
    };
    assert_eq!(serve(&mut store, Request::RecipesChange { id: 1, body }), internal_error());
}

#[test]
fn replace_categories_replaces_all() {
    let mut store = Store::new();
    add_category(&mut store, "a");
    add_category(&mut store, "b");
    add_category(&mut store, "c");
    add_category(&mut store, "z");
    let recipe = add_cake(&mut store, &["z", "a"]);
    assert_eq!(categories_of(&mut store, recipe.id), names(&["a", "z"]));

    let replaced = replace_categories(&mut store, recipe.id, &["a", "b"]);
    assert_eq!(replaced.status, 200);
    assert_eq!(categories_of(&mut store, recipe.id), names(&["a", "b"]));

    let replaced = replace_categories(&mut store, recipe.id, &["c"]);
    assert_eq!(
        replaced,
        Response::ok(Payload::RecipeBody(RecipeBody {
            recipe: stored_cake(1),
            categories: vec![Category { id: 3, name: String::from("c") }],
        }))
    );
    assert_eq!(categories_of(&mut store, recipe.id), names(&["c"]));

    let replaced = replace_categories(&mut store, recipe.id, &[]);
    assert_eq!(replaced.status, 200);
    assert_eq!(categories_of(&mut store, recipe.id), names(&[]));
}

#[test]
fn replace_categories_touches_no_other_recipe() {
    let mut store = Store::new();
    add_category(&mut store, "a");
    add_category(&mut store, "b");
    let first = add_cake(&mut store, &["a"]);
    let second = add_cake(&mut store, &["a", "b"]);
    replace_categories(&mut store, first.id, &["b"]);
    assert_eq!(categories_of(&mut store, first.id), names(&["b"]));
    assert_eq!(categories_of(&mut store, second.id), names(&["a", "b"]));
}

#[test]
fn unknown_category_leaves_associations_unchanged() {
    let mut store = Store::new();
    add_category(&mut store, "a");
    let recipe = add_cake(&mut store, &["a"]);
    let refused = replace_categories(&mut store, recipe.id, &["nonexistent"]);
    assert_eq!(
        refused,
        Response {
            status: 404,
            content_type: Some(ContentType::Json),
            payload: Payload::Text(String::from("Category not found")),
        }
    );
    assert_eq!(categories_of(&mut store, recipe.id), names(&["a"]));

    let refused = replace_categories(&mut store, recipe.id, &["a", "nonexistent"]);
    assert_eq!(refused.status, 404);
    assert_eq!(categories_of(&mut store, recipe.id), names(&["a"]));
}

#[test]
fn unknown_category_changes_no_field_either() {
    let mut store = Store::new();
    add_cake(&mut store, &[]);
    let body = ChangeRecipeBody {
        recipe_change: ChangeRecipe { name: Some(String::from("Pie")), ..nothing() },
        categories: Some(names(&["nonexistent"])),
    };
    assert_eq!(serve(&mut store, Request::RecipesChange { id: 1, body }).status, 404);
    assert_eq!(
        serve(&mut store, Request::RecipesGet { id: 1 }),
        Response::ok(Payload::RecipeBody(RecipeBody { recipe: stored_cake(1), categories: vec![] }))
    );
}

#[test]
fn create_with_unknown_category_stores_nothing() {
    let mut store = Store::new();
    let body = NewRecipeBody { recipe: cake(), categories: names(&["nonexistent"]) };
    assert_eq!(
        serve(&mut store, Request::RecipesCreate { body }),
        Response::category_not_found()
    );
    assert_eq!(
        serve(&mut store, Request::RecipesList),
        Response::ok(Payload::RecipeBodies(ResponseBodyVec { result: vec![] }))
    );
    assert_eq!(add_cake(&mut store, &[]).id, 1);
}

#[test]
fn category_named_twice_undoes_the_whole_request() {
    let mut store = Store::new();
    add_category(&mut store, "a");
    add_category(&mut store, "b");
    let recipe = add_cake(&mut store, &["b"]);

    let body = ChangeRecipeBody {
        recipe_change: ChangeRecipe { name: Some(String::from("Pie")), ..nothing() },
        categories: Some(names(&["a", "a"])),
    };
    assert_eq!(serve(&mut store, Request::RecipesChange { id: recipe.id, body }), internal_error());
    assert_eq!(
        serve(&mut store, Request::RecipesGet { id: recipe.id }),
        Response::ok(Payload::RecipeBody(RecipeBody {
            recipe: stored_cake(1),
            categories: vec![Category { id: 2, name: String::from("b") }],
        }))
    );

    let body = NewRecipeBody { recipe: cake(), categories: names(&["a", "b", "a"]) };
    assert_eq!(serve(&mut store, Request::RecipesCreate { body }), internal_error());
    assert_eq!(serve(&mut store, Request::RecipesGet { id: 2 }), not_found());
    assert_eq!(add_cake(&mut store, &[]).id, 3);
}

#[test]
fn delete_removes_the_recipe_and_its_associations() {
    let mut store = Store::new();
    add_category(&mut store, "a");
    let recipe = add_cake(&mut store, &["a"]);
    assert_eq!(serve(&mut store, Request::RecipesDelete { id: recipe.id }), Response::no_content());
    assert_eq!(serve(&mut store, Request::RecipesGet { id: recipe.id }), not_found());
    assert_eq!(
        serve(&mut store, Request::CategoriesDelete { id: 1 }),
        Response::no_content()
    );
    assert_eq!(serve(&mut store, Request::CategoriesGet { id: 1 }), not_found());
}

#[test]
fn delete_of_a_missing_recipe_is_no_error() {
    let mut store = Store::new();
    assert_eq!(serve(&mut store, Request::RecipesDelete { id: 5 }), Response::no_content());
    assert_eq!(serve(&mut store, Request::CategoriesDelete { id: 5 }), Response::no_content());
}

#[test]
fn get_of_a_missing_id_is_not_found() {
    let mut store = Store::new();
    let response = serve(&mut store, Request::RecipesGet { id: 1 });
    assert_eq!(
        response,
        Response {
            status: 404,
            content_type: Some(ContentType::Html),
            payload: Payload::Text(String::from("Not found")),
        }
    );
    assert_eq!(serve(&mut store, Request::RecipesGet { id: -3 }), not_found());
    assert_eq!(serve(&mut store, Request::CategoriesGet { id: 1 }), not_found());
    add_cake(&mut store, &[]);
    assert_eq!(serve(&mut store, Request::RecipesGet { id: 2 }), not_found());
}

#[test]
fn deleting_a_category_takes_it_out_of_every_recipe() {
    let mut store = Store::new();
    add_category(&mut store, "a");
    add_category(&mut store, "b");
    let first = add_cake(&mut store, &["a", "b"]);
    let second = add_cake(&mut store, &["a"]);
    assert_eq!(serve(&mut store, Request::CategoriesDelete { id: 1 }), Response::no_content());
    assert_eq!(categories_of(&mut store, first.id), names(&["b"]));
    assert_eq!(categories_of(&mut store, second.id), names(&[]));
    assert_eq!(
        serve(&mut store, Request::CategoriesList),
        Response::ok(Payload::Categories(ResponseBodyVec {
            result: vec![Category { id: 2, name: String::from("b") }],
        }))
    );
}

#[test]
fn category_names_are_unique() {
    let mut store = Store::new();
    add_category(&mut store, "a");
    add_category(&mut store, "b");
    assert_eq!(
        serve(
            &mut store,
            Request::CategoriesCreate { category: NewCategory { name: String::from("a") } }
        ),
        internal_error()
    );
    assert_eq!(
        serve(
            &mut store,
            Request::CategoriesChange {
                id: 2,
                changes: ChangeCategory { name: Some(String::from("a")) },
            }
        ),
        internal_error()
    );
    assert_eq!(
        serve(
            &mut store,
            Request::CategoriesChange {
                id: 1,
                changes: ChangeCategory { name: Some(String::from("a")) },
            }
        ),
        Response::ok(Payload::Category(Category { id: 1, name: String::from("a") }))
    );
    assert_eq!(add_category(&mut store, "c").id, 3);
}

#[test]
fn category_change_renames_and_keeps_the_associations() {
    let mut store = Store::new();
    add_category(&mut store, "a");
    let recipe = add_cake(&mut store, &["a"]);
    assert_eq!(
        serve(
            &mut store,
            Request::CategoriesChange {
                id: 1,
                changes: ChangeCategory { name: Some(String::from("sweets")) },
            }
        ),
        Response::ok(Payload::Category(Category { id: 1, name: String::from("sweets") }))
    );
    assert_eq!(
        serve(&mut store, Request::CategoriesGet { id: 1 }),
        Response::ok(Payload::Category(Category { id: 1, name: String::from("sweets") }))
    );
    assert_eq!(categories_of(&mut store, recipe.id), names(&["sweets"]));
    assert_eq!(
        serve(
            &mut store,
            Request::CategoriesChange { id: 9, changes: ChangeCategory { name: None } }
        ),
        internal_error()
    );
}

#[test]
fn list_shows_every_recipe_with_its_categories() {
    let mut store = Store::new();
    let a = add_category(&mut store, "a");
    let b = add_category(&mut store, "b");
    add_cake(&mut store, &["b", "a"]);
    add_cake(&mut store, &[]);
    add_cake(&mut store, &["b"]);
    assert_eq!(
        serve(&mut store, Request::RecipesList),
        Response::ok(Payload::RecipeBodies(ResponseBodyVec {
            result: vec![
                RecipeBody { recipe: stored_cake(1), categories: vec![a, b.clone()] },
                RecipeBody { recipe: stored_cake(2), categories: vec![] },
                RecipeBody { recipe: stored_cake(3), categories: vec![b] },
            ],
        }))
    );
}

#[test]
fn root_path_lists_bare_recipes() {
    let mut store = Store::new();
    add_category(&mut store, "a");
    add_cake(&mut store, &["a"]);
    add_cake(&mut store, &[]);
    assert_eq!(
        serve(&mut store, Request::Hello),
        Response::ok(Payload::Recipes(ResponseBodyVec {
            result: vec![stored_cake(1), stored_cake(2)],
        }))
    );
}

#[test]
fn ids_are_not_given_twice() {
    let mut store = Store::new();
    let first = add_cake(&mut store, &[]);
    assert_eq!(serve(&mut store, Request::RecipesDelete { id: first.id }), Response::no_content());
    assert_eq!(add_cake(&mut store, &[]).id, 2);
    let a = add_category(&mut store, "a");
    assert_eq!(serve(&mut store, Request::CategoriesDelete { id: a.id }), Response::no_content());
    assert_eq!(add_category(&mut store, "a").id, 2);
}
