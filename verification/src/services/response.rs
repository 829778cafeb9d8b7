//! Responses: what a handler answers, before and after its body is
//! encoded.

use crate::models::category::{Category, CategoryView};
use crate::models::recipe::{Recipe, RecipeView};
use crate::services::errors::ApiErrors;
use crate::services::recipes::{RecipeBody, RecipeBodyView};
use crate::services::utils::ResponseBodyVec;
use vstd::prelude::*;

verus! {

/// The media type a response declares.
#[derive(Debug, Clone, Copy, PartialEq, Eq, Structural)]
pub enum ContentType {
    Json,
    Html,
    Text,
}

/// The body of a response as a value. `Empty` and `Text` go out as they
/// are; every other body is encoded as JSON first.
#[derive(Debug, Clone, PartialEq, Eq)]
pub enum Payload {
    Empty,
    Text(String),
    Recipe(Recipe),
    RecipeBody(RecipeBody),
    RecipeBodies(ResponseBodyVec<Vec<RecipeBody>>),
    Recipes(ResponseBodyVec<Vec<Recipe>>),
    Category(Category),
    Categories(ResponseBodyVec<Vec<Category>>),
}

/// `Payload` as a mathematical value.
pub enum PayloadView {
    Empty,
    Text(Seq<char>),
    Recipe(RecipeView),
    RecipeBody(RecipeBodyView),
    RecipeBodies(ResponseBodyVec<Seq<RecipeBodyView>>),
    Recipes(ResponseBodyVec<Seq<RecipeView>>),
    Category(CategoryView),
    Categories(ResponseBodyVec<Seq<CategoryView>>),
}

impl PayloadView {
    /// True when the body has to be encoded before it can be sent.
    pub open spec fn is_encoded(self) -> bool {
        !(self is Empty || self is Text)
    }
}

impl View for Payload {
    type V = PayloadView;

    open spec fn view(&self) -> PayloadView {
        match self {
            Payload::Empty => PayloadView::Empty,
            Payload::Text(text) => PayloadView::Text(text@),
            Payload::Recipe(recipe) => PayloadView::Recipe(recipe@),
            Payload::RecipeBody(body) => PayloadView::RecipeBody(body@),
            Payload::RecipeBodies(bodies) => PayloadView::RecipeBodies(bodies@),
            Payload::Recipes(recipes) => PayloadView::Recipes(recipes@),
            Payload::Category(category) => PayloadView::Category(category@),
            Payload::Categories(categories) => PayloadView::Categories(categories@),
        }
    }
}

/// What a handler answers: a status, the media type it declares, if any,
/// and the body as a value.
#[derive(Debug, Clone, PartialEq, Eq)]
pub struct Response {
    pub status: u16,
    pub content_type: Option<ContentType>,
    pub payload: Payload,
}

/// `Response` as a mathematical value.
pub struct ResponseView {
    pub status: int,
    pub content_type: Option<ContentType>,
    pub payload: PayloadView,
}

impl View for Response {
    type V = ResponseView;

    open spec fn view(&self) -> ResponseView {
        ResponseView {
            status: self.status as int,
            content_type: self.content_type,
            payload: self.payload@,
        }
    }
}

impl ResponseView {
    /// Success with a JSON body.
    pub open spec fn ok(payload: PayloadView) -> ResponseView {
        ResponseView { status: 200, content_type: Some(ContentType::Json), payload }
    }

    /// Success with nothing to say: no body, and so no media type.
    pub open spec fn no_content() -> ResponseView {
        ResponseView { status: 204, content_type: None, payload: PayloadView::Empty }
    }

    /// A recipe named a category that does not exist. The body is plain
    /// text, though the response declares JSON.
    pub open spec fn category_not_found() -> ResponseView {
        ResponseView {
            status: 404,
            content_type: Some(ContentType::Json),
            payload: PayloadView::Text("Category not found"@),
        }
    }

    /// A server-side failure that says what went wrong, as plain text.
    pub open spec fn server_error(text: Seq<char>) -> ResponseView {
        ResponseView {
            status: 500,
            content_type: Some(ContentType::Text),
            payload: PayloadView::Text(text),
        }
    }

    /// What is sent when the body could not be encoded: the internal error,
    /// but for the bare list of recipes, which says so itself.
    pub open spec fn unencodable(self) -> ResponseView {
        if self.payload is Recipes {
            ResponseView::server_error("Cannot serialize recipes"@)
        } else {
            ApiErrors::InternalError.response()
        }
    }

    /// What goes out on the wire, given the outcome of encoding the body.
    pub open spec fn rendered(self, encoded: Option<Seq<char>>) -> HttpReplyView {
        match self.payload {
            PayloadView::Empty => HttpReplyView {
                status: self.status,
                content_type: self.content_type,
                body: None,
            },
            PayloadView::Text(text) => HttpReplyView {
                status: self.status,
                content_type: self.content_type,
                body: Some(text),
            },
            _ => match encoded {
                Some(body) => HttpReplyView {
                    status: self.status,
                    content_type: self.content_type,
                    body: Some(body),
                },
                None => HttpReplyView {
                    status: self.unencodable().status,
                    content_type: self.unencodable().content_type,
                    body: Some(self.unencodable().payload->Text_0),
                },
            },
        }
    }
}

/// What goes out on the wire: the status, the media type, if one is
/// declared, and the body as text, if there is one.
#[derive(Debug, Clone, PartialEq, Eq)]
pub struct HttpReply {
    pub status: u16,
    pub content_type: Option<ContentType>,
    pub body: Option<String>,
}

/// `HttpReply` as a mathematical value.
pub struct HttpReplyView {
    pub status: int,
    pub content_type: Option<ContentType>,
    pub body: Option<Seq<char>>,
}

impl View for HttpReply {
    type V = HttpReplyView;

    open spec fn view(&self) -> HttpReplyView {
        HttpReplyView {
            status: self.status as int,
            content_type: self.content_type,
            body: self.body.deep_view(),
        }
    }
}

impl Response {
    /// Success with a JSON body.
    pub fn ok(payload: Payload) -> (response: Response)
        ensures
            response@ == ResponseView::ok(payload@),
    {
        Response { status: 200, content_type: Some(ContentType::Json), payload }
    }

    /// Success with nothing to say.
    pub fn no_content() -> (response: Response)
        ensures
            response@ == ResponseView::no_content(),
    {
        Response { status: 204, content_type: None, payload: Payload::Empty }
    }

    /// A recipe named a category that does not exist.
    pub fn category_not_found() -> (response: Response)
        ensures
            response@ == ResponseView::category_not_found(),
    {
        Response {
            status: 404,
            content_type: Some(ContentType::Json),
            payload: Payload::Text("Category not found".to_owned()),
        }
    }

    /// A server-side failure that says what went wrong, as plain text.
    pub fn server_error(text: &str) -> (response: Response)
        ensures
            response@ == ResponseView::server_error(text@),
    {
        Response {
            status: 500,
            content_type: Some(ContentType::Text),
            payload: Payload::Text(text.to_owned()),
        }
    }

    /// True when the body has to be encoded before it can be sent.
    pub fn is_encoded(&self) -> (encoded: bool)
        ensures
            encoded == self@.payload.is_encoded(),
    {
        match &self.payload {
            Payload::Empty => false,
            Payload::Text(_) => false,
            _ => true,
        }
    }

    /// What goes out on the wire. `encoded` is the body as JSON, or `None`
    /// when encoding failed; it is not looked at for a body that needs no
    /// encoding. A body that could not be encoded is answered with a
    /// server-side failure.
    pub fn render(self, encoded: Option<String>) -> (reply: HttpReply)
        ensures
            reply@ == self@.rendered(encoded.deep_view()),
    {
        let status = self.status;
        let content_type = self.content_type;
        match self.payload {
            Payload::Empty => HttpReply { status, content_type, body: None },
            Payload::Text(text) => HttpReply { status, content_type, body: Some(text) },
            Payload::Recipes(_) => match encoded {
                Some(body) => HttpReply { status, content_type, body: Some(body) },
                None => HttpReply {
                    status: 500,
                    content_type: Some(ContentType::Text),
                    body: Some("Cannot serialize recipes".to_owned()),
                },
            },
            _ => match encoded {
                Some(body) => HttpReply { status, content_type, body: Some(body) },
                None => HttpReply {
                    status: ApiErrors::InternalError.status_code(),
                    content_type: Some(ContentType::Html),
                    body: Some(ApiErrors::InternalError.message()),
                },
            },
        }
    }
}

} // verus!
