//! Requests to the store and its answers, as plain values. The caller owns
//! the transport: it sends what a `Request` describes and hands back what
//! arrived as a `Response`.
use vstd::prelude::*;
use crate::api::firebase::json::{Json, JsonModel};

verus! {

/// The HTTP method of a request.
#[derive(Clone, Copy, Debug, PartialEq, Eq)]
pub enum Method {
    Get,
    Post,
    Patch,
    Delete,
}

/// What a request carries.
#[derive(Debug, PartialEq, Eq)]
pub enum Body {
    /// Nothing.
    Empty,
    /// A JSON document.
    Document(Json),
    /// A URL-encoded form: pairs of name and value, in order.
    Form(Vec<(String, String)>),
}

/// A request for the transport to send.
#[derive(Debug, PartialEq, Eq)]
pub struct Request {
    pub method: Method,
    pub url: String,
    /// The bearer token of the authorization header, where the call is
    /// authenticated.
    pub bearer: Option<String>,
    pub body: Body,
}

/// What the transport received.
#[derive(Debug, PartialEq, Eq)]
pub struct Response {
    /// The HTTP status code.
    pub status: u16,
    /// The body as text.
    pub text: String,
    /// The body as JSON, where it is JSON.
    pub json: Option<Json>,
}

/// The mathematical value of a [`Body`].
pub enum BodyModel {
    Empty,
    Document(JsonModel),
    Form(Seq<(Seq<char>, Seq<char>)>),
}

/// The mathematical value of a [`Request`].
pub struct RequestModel {
    pub method: Method,
    pub url: Seq<char>,
    pub bearer: Option<Seq<char>>,
    pub body: BodyModel,
}

/// The mathematical value of a [`Response`].
pub struct ResponseModel {
    pub status: u16,
    pub text: Seq<char>,
    pub json: Option<JsonModel>,
}

/// The pairs of a form as character sequences.
pub open spec fn form_model(pairs: Seq<(String, String)>) -> Seq<(Seq<char>, Seq<char>)> {
    Seq::new(pairs.len(), |i: int| (pairs[i].0@, pairs[i].1@))
}

impl View for Body {
    type V = BodyModel;

    open spec fn view(&self) -> BodyModel {
        match self {
            Body::Empty => BodyModel::Empty,
            Body::Document(json) => BodyModel::Document(json@),
            Body::Form(pairs) => BodyModel::Form(form_model(pairs@)),
        }
    }
}

impl View for Request {
    type V = RequestModel;

    open spec fn view(&self) -> RequestModel {
        RequestModel {
            method: self.method,
            url: self.url@,
            bearer: match self.bearer {
                Some(token) => Some(token@),
                None => None,
            },
            body: self.body@,
        }
    }
}

impl View for Response {
    type V = ResponseModel;

    open spec fn view(&self) -> ResponseModel {
        ResponseModel {
            status: self.status,
            text: self.text@,
            json: match self.json {
                Some(json) => Some(json@),
                None => None,
            },
        }
    }
}

/// Whether a status code reports success: 200 to 299.
pub open spec fn is_success(status: u16) -> bool {
    200 <= status < 300
}

/// The status code of "not found".
pub const NOT_FOUND: u16 = 404;

impl Response {
    /// Whether the status reports success.
    pub fn succeeded(&self) -> (ok: bool)
        ensures
            ok == is_success(self.status),
    {
        200 <= self.status && self.status < 300
    }
}

/// The ways a call to the store fails.
#[derive(Debug, PartialEq, Eq)]
pub enum FirebaseError {
    /// The token endpoint refused the exchange.
    Auth { status: u16, body: String },
    /// The store answered with a status that is neither success nor, where
    /// absence is an answer, "not found".
    Store { status: u16, body: String },
    /// A successful answer without the content that the protocol promises.
    MalformedResponse,
    /// The service-account key lacks a field or holds one of the wrong kind.
    MalformedCredential,
    /// The assertion could not be signed with the service account's key.
    Signing,
    /// A merging write that gives no field. It is not sent: without a mask
    /// the store would replace the whole document.
    EmptyWrite,
    /// A document that gives a field twice under one name.
    RepeatedField,
}

impl FirebaseError {
    /// Whether this is the store's refusal with the status and body of
    /// `response`.
    pub open spec fn is_store_error_of(self, response: ResponseModel) -> bool {
        self matches FirebaseError::Store { status, body } && status == response.status && body@
            == response.text
    }

    /// Whether this is the token endpoint's refusal with the status and body
    /// of `response`.
    pub open spec fn is_auth_error_of(self, response: ResponseModel) -> bool {
        self matches FirebaseError::Auth { status, body } && status == response.status && body@
            == response.text
    }
}

} // verus!
