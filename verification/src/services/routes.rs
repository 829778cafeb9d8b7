//! The routes of the service as plain values: which method and path reach
//! which handler.

use vstd::prelude::*;

verus! {

/// The HTTP methods the service answers.
#[derive(Debug, Clone, Copy, PartialEq, Eq, Structural)]
pub enum Method {
    Get,
    Post,
    Put,
    Delete,
}

/// The handlers of the service.
#[derive(Debug, Clone, Copy, PartialEq, Eq, Structural)]
pub enum Endpoint {
    Hello,
    RecipesList,
    RecipesGet,
    RecipesCreate,
    RecipesChange,
    RecipesDelete,
    CategoriesList,
    CategoriesGet,
    CategoriesCreate,
    CategoriesChange,
    CategoriesDelete,
}

/// One route: requests with this method whose path, below the scope that
/// the routes are mounted under, matches `path` go to `endpoint`. In a path,
/// `{id}` stands for the integer id of a row.
#[derive(Debug, Clone, Copy, PartialEq, Eq)]
pub struct Route {
    pub method: Method,
    pub path: &'static str,
    pub endpoint: Endpoint,
}

/// `Route` as a mathematical value.
pub struct RouteView {
    pub method: Method,
    pub path: Seq<char>,
    pub endpoint: Endpoint,
}

impl View for Route {
    type V = RouteView;

    open spec fn view(&self) -> RouteView {
        RouteView { method: self.method, path: self.path@, endpoint: self.endpoint }
    }
}

impl DeepView for Route {
    type V = RouteView;

    open spec fn deep_view(&self) -> RouteView {
        self@
    }
}

/// The five routes of one kind of row: list and create on the scope itself,
/// read, change and delete on a row's id.
pub open spec fn crud_routes(
    list: Endpoint,
    get: Endpoint,
    create: Endpoint,
    change: Endpoint,
    delete: Endpoint,
) -> Seq<RouteView> {
    seq![
        RouteView { method: Method::Get, path: ""@, endpoint: list },
        RouteView { method: Method::Get, path: "/{id}"@, endpoint: get },
        RouteView { method: Method::Post, path: ""@, endpoint: create },
        RouteView { method: Method::Put, path: "/{id}"@, endpoint: change },
        RouteView { method: Method::Delete, path: "/{id}"@, endpoint: delete },
    ]
}

/// Builds the five routes of one kind of row.
pub fn crud(
    list: Endpoint,
    get: Endpoint,
    create: Endpoint,
    change: Endpoint,
    delete: Endpoint,
) -> (routes: Vec<Route>)
    ensures
        routes.deep_view() == crud_routes(list, get, create, change, delete),
{
    let mut routes: Vec<Route> = Vec::new();
    routes.push(Route { method: Method::Get, path: "", endpoint: list });
    routes.push(Route { method: Method::Get, path: "/{id}", endpoint: get });
    routes.push(Route { method: Method::Post, path: "", endpoint: create });
    routes.push(Route { method: Method::Put, path: "/{id}", endpoint: change });
    routes.push(Route { method: Method::Delete, path: "/{id}", endpoint: delete });
    assert(routes.deep_view() =~= crud_routes(list, get, create, change, delete));
    routes
}

} // verus!
