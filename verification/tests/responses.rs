use recipes_rs::models::category::Category;
use recipes_rs::models::recipe::Recipe;
use recipes_rs::services::response::{ContentType, HttpReply, Payload, Response};
use recipes_rs::services::utils::ResponseBodyVec;

fn soup() -> Recipe {
    Recipe {
        id: 4,
        name: String::from("Soup"),
        instructions: String::from("boil"),
        cuisine: String::from("pl"),
        duration_min: 30,
        preparation_needed: false,
        portions: 4,
        difficulty: 1,
    }
}

#[test]
fn ok_is_200_json() {
    let response = Response::ok(Payload::Category(Category { id: 1, name: String::from("a") }));
    assert_eq!(response.status, 200);
    assert_eq!(response.content_type, Some(ContentType::Json));
    assert!(response.is_encoded());
}

#[test]
fn no_content_is_204_without_body_or_media_type() {
    let response = Response::no_content();
    assert_eq!(
        response,
        Response { status: 204, content_type: None, payload: Payload::Empty }
    );
    assert!(!response.is_encoded());
    assert_eq!(
        response.render(None),
        HttpReply { status: 204, content_type: None, body: None }
    );
}

#[test]
fn category_not_found_is_404_with_plain_text() {
    let response = Response::category_not_found();
    assert_eq!(response.status, 404);
    assert_eq!(response.content_type, Some(ContentType::Json));
    assert_eq!(response.payload, Payload::Text(String::from("Category not found")));
    assert!(!response.is_encoded());
}

#[test]
fn text_goes_out_as_it_is() {
    let reply = Response::category_not_found().render(Some(String::from("ignored")));
    assert_eq!(
        reply,
        HttpReply {
            status: 404,
            content_type: Some(ContentType::Json),
            body: Some(String::from("Category not found")),
        }
    );
}

#[test]
fn encoded_body_goes_out_with_the_status() {
    let reply = Response::ok(Payload::Recipe(soup())).render(Some(String::from("{\"id\":4}")));
    assert_eq!(
        reply,
        HttpReply {
            status: 200,
            content_type: Some(ContentType::Json),
            body: Some(String::from("{\"id\":4}")),
        }
    );
}

#[test]
fn unencodable_body_is_an_internal_error() {
    let reply = Response::ok(Payload::Recipe(soup())).render(None);
    assert_eq!(
        reply,
        HttpReply {
            status: 500,
            content_type: Some(ContentType::Html),
            body: Some(String::from("An internal error occurred. Please try again later.")),
        }
    );
}

#[test]
fn unencodable_bare_list_says_so() {
    let listing = Response::ok(Payload::Recipes(ResponseBodyVec { result: vec![soup()] }));
    assert_eq!(
        listing.render(None),
        HttpReply {
            status: 500,
            content_type: Some(ContentType::Text),
            body: Some(String::from("Cannot serialize recipes")),
        }
    );
}

#[test]
fn server_error_is_500_plain_text() {
    assert_eq!(
        Response::server_error("Unable to get connection from pool"),
        Response {
            status: 500,
            content_type: Some(ContentType::Text),
            payload: Payload::Text(String::from("Unable to get connection from pool")),
        }
    );
}
