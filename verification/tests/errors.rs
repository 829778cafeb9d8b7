use recipes_rs::services::errors::ApiErrors;
use recipes_rs::services::response::{ContentType, Payload, Response};

#[test]
fn not_found_maps_to_404() {
    assert_eq!(ApiErrors::NotFound.status_code(), 404);
}

#[test]
fn internal_errors_map_to_500() {
    assert_eq!(ApiErrors::InternalError.status_code(), 500);
    assert_eq!(ApiErrors::DatabaseConnectionError.status_code(), 500);
}

#[test]
fn not_found_says_not_found() {
    assert_eq!(ApiErrors::NotFound.message(), "Not found");
}

#[test]
fn server_side_failures_read_the_same() {
    let text = "An internal error occurred. Please try again later.";
    assert_eq!(ApiErrors::InternalError.message(), text);
    assert_eq!(ApiErrors::DatabaseConnectionError.message(), text);
}

#[test]
fn error_response_is_status_and_html_text() {
    assert_eq!(
        ApiErrors::NotFound.error_response(),
        Response {
            status: 404,
            content_type: Some(ContentType::Html),
            payload: Payload::Text(String::from("Not found")),
        }
    );
    assert_eq!(
        ApiErrors::DatabaseConnectionError.error_response(),
        Response {
            status: 500,
            content_type: Some(ContentType::Html),
            payload: Payload::Text(String::from(
                "An internal error occurred. Please try again later."
            )),
        }
    );
}
