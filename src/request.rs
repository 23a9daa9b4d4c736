//! Building the request that is sent, from the method, the URL and the body data.

use vstd::prelude::*;
use vstd::string::*;
use crate::address::ValidatedUrl;
use crate::form::{form_pairs, form_pairs_of, pairs_view};
use crate::json::{json_compact_of, reencode_json};
use crate::text::same_text;

verus! {

/// The body of a request.
pub enum RequestBody {
    /// No body.
    Empty,
    /// A form body: the pairs, to be sent URL-encoded.
    Form(Vec<(String, String)>),
    /// A JSON body: the document parsed from the data, serialised again in
    /// compact form.
    Json(String),
}

/// A request ready for the transport.
pub struct OutgoingRequest {
    /// `GET` or `POST`.
    pub method: String,
    /// The serialised URL.
    pub url: String,
    pub body: RequestBody,
}

/// Why no request could be built.
pub enum RequestError {
    /// A `POST` was asked for with neither form nor JSON data.
    MissingData,
    /// The JSON data is not well-formed JSON.
    InvalidJson,
}

impl RequestError {
    /// The message shown to the user.
    pub open spec fn spec_message(&self) -> Seq<char> {
        match self {
            RequestError::MissingData => "Error: POST method requires -d or --json data."@,
            RequestError::InvalidJson => "Error: The JSON data is not valid JSON."@,
        }
    }

    /// The message shown to the user.
    pub fn message(&self) -> (r: String)
        ensures
            r@ == self.spec_message(),
    {
        match self {
            RequestError::MissingData => String::from_str("Error: POST method requires -d or --json data."),
            RequestError::InvalidJson => String::from_str("Error: The JSON data is not valid JSON."),
        }
    }
}

impl RequestBody {
    /// The content type that the body is sent with, if any.
    pub open spec fn spec_content_type(&self) -> Option<Seq<char>> {
        match self {
            RequestBody::Empty => None,
            RequestBody::Form(_) => Some("application/x-www-form-urlencoded"@),
            RequestBody::Json(_) => Some("application/json"@),
        }
    }

    /// The content type that the body is sent with, if any.
    pub fn content_type(&self) -> (r: Option<String>)
        ensures
            match r {
                Some(t) => self.spec_content_type() == Some(t@),
                None => self.spec_content_type() is None,
            },
    {
        match self {
            RequestBody::Empty => None,
            RequestBody::Form(_) => Some(String::from_str("application/x-www-form-urlencoded")),
            RequestBody::Json(_) => Some(String::from_str("application/json")),
        }
    }
}

/// `r` is the request built for `method` and `url` from the body data: a
/// `POST` takes the JSON data if given, else the form data, and fails without
/// either; any other method is sent as a `GET` without a body.
pub open spec fn builds(
    r: &Result<OutgoingRequest, RequestError>,
    method: Seq<char>,
    url: Seq<char>,
    form_data: Option<Seq<char>>,
    json_data: Option<Seq<char>>,
) -> bool {
    if method == "POST"@ {
        match json_data {
            Some(j) => match json_compact_of(j) {
                Some(c) => r matches Ok(q) && q.method@ == "POST"@ && q.url@ == url
                    && (q.body matches RequestBody::Json(b) && b@ == c),
                None => r matches Err(RequestError::InvalidJson),
            },
            None => match form_data {
                Some(d) => r matches Ok(q) && q.method@ == "POST"@ && q.url@ == url
                    && (q.body matches RequestBody::Form(p) && pairs_view(p@) == form_pairs_of(d)),
                None => r matches Err(RequestError::MissingData),
            },
        }
    } else {
        r matches Ok(q) && q.method@ == "GET"@ && q.url@ == url && q.body is Empty
    }
}

/// The view of an optional text.
pub open spec fn opt_view(o: Option<&str>) -> Option<Seq<char>> {
    match o {
        Some(s) => Some(s@),
        None => None,
    }
}

/// Builds the request for a resolved method, a checked URL and the body data.
pub fn build_request(method: &str, url: ValidatedUrl, form_data: Option<&str>, json_data: Option<&str>) -> (r: Result<OutgoingRequest, RequestError>)
    requires
        url.wf(),
    ensures
        builds(&r, method@, url.href@, opt_view(form_data), opt_view(json_data)),
{
    if !same_text(method, "POST") {
        return Ok(OutgoingRequest { method: String::from_str("GET"), url: url.href, body: RequestBody::Empty });
    }
    match json_data {
        Some(j) => match reencode_json(j) {
            Some(v) => Ok(OutgoingRequest { method: String::from_str("POST"), url: url.href, body: RequestBody::Json(v) }),
            None => Err(RequestError::InvalidJson),
        },
        None => match form_data {
            Some(d) => Ok(OutgoingRequest { method: String::from_str("POST"), url: url.href, body: RequestBody::Form(form_pairs(d)) }),
            None => Err(RequestError::MissingData),
        },
    }
}

} // verus!
