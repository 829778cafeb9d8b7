use recipes_rs::services::categories::categories_config;
use recipes_rs::services::recipes::recipes_config;
use recipes_rs::services::routes::{Endpoint, Method, Route};

#[test]
fn recipe_routes() {
    assert_eq!(
        recipes_config(),
        vec![
            Route { method: Method::Get, path: "", endpoint: Endpoint::RecipesList },
            Route { method: Method::Get, path: "/{id}", endpoint: Endpoint::RecipesGet },
            Route { method: Method::Post, path: "", endpoint: Endpoint::RecipesCreate },
            Route { method: Method::Put, path: "/{id}", endpoint: Endpoint::RecipesChange },
            Route { method: Method::Delete, path: "/{id}", endpoint: Endpoint::RecipesDelete },
        ]
    );
}

#[test]
fn category_routes() {
    assert_eq!(
        categories_config(),
        vec![
            Route { method: Method::Get, path: "", endpoint: Endpoint::CategoriesList },
            Route { method: Method::Get, path: "/{id}", endpoint: Endpoint::CategoriesGet },
            Route { method: Method::Post, path: "", endpoint: Endpoint::CategoriesCreate },
            Route { method: Method::Put, path: "/{id}", endpoint: Endpoint::CategoriesChange },
            Route { method: Method::Delete, path: "/{id}", endpoint: Endpoint::CategoriesDelete },
        ]
    );
}
