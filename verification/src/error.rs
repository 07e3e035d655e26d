//! The errors that the API answers a refused request with.
use vstd::prelude::*;
use crate::json::{jstring, object, owned, view_fields, Json, JsonV};

verus! {

/// What went wrong: the client's request, a missing endpoint, or the upstream service.
#[derive(Clone, Copy, Debug, PartialEq, Eq, Structural)]
pub enum ErrorKind {
    InvalidRequest,
    NotFound,
    Upstream,
}

/// An error answered to the client: its kind, a message and, for a refused
/// request, the path of the offending parameter.
#[derive(Debug, PartialEq)]
pub struct ApiError {
    pub kind: ErrorKind,
    pub message: String,
    pub param: Option<String>,
}

/// The mathematical value of an [`ApiError`].
pub struct ApiErrorV {
    pub kind: ErrorKind,
    pub message: Seq<char>,
    pub param: Option<Seq<char>>,
}

impl View for ApiError {
    type V = ApiErrorV;

    open spec fn view(&self) -> ApiErrorV {
        ApiErrorV {
            kind: self.kind,
            message: self.message@,
            param: match self.param {
                Some(p) => Some(p@),
                None => None,
            },
        }
    }
}

/// A refused request with `message`, naming the parameter `param`.
pub open spec fn invalid(message: Seq<char>, param: Seq<char>) -> ApiErrorV {
    ApiErrorV { kind: ErrorKind::InvalidRequest, message, param: Some(param) }
}

/// A refused request with `message` and no parameter.
pub open spec fn invalid_bare(message: Seq<char>) -> ApiErrorV {
    ApiErrorV { kind: ErrorKind::InvalidRequest, message, param: None }
}

/// A failure of the upstream service with `message`.
pub open spec fn upstream(message: Seq<char>) -> ApiErrorV {
    ApiErrorV { kind: ErrorKind::Upstream, message, param: None }
}

impl ApiError {
    /// A refused request.
    pub fn invalid_request(message: String) -> (e: ApiError)
        ensures
            e@ == invalid_bare(message@),
    {
        ApiError { kind: ErrorKind::InvalidRequest, message, param: None }
    }

    /// A missing or disabled endpoint.
    pub fn not_found(message: String) -> (e: ApiError)
        ensures
            e@ == (ApiErrorV { kind: ErrorKind::NotFound, message: message@, param: None }),
    {
        ApiError { kind: ErrorKind::NotFound, message, param: None }
    }

    /// A failure of the upstream service.
    pub fn upstream(message: String) -> (e: ApiError)
        ensures
            e@ == upstream(message@),
    {
        ApiError { kind: ErrorKind::Upstream, message, param: None }
    }

    /// The same error, naming the parameter `param`.
    pub fn with_param(self, param: String) -> (e: ApiError)
        ensures
            e@ == (ApiErrorV { param: Some(param@), ..self@ }),
    {
        ApiError { param: Some(param), ..self }
    }
}

/// The HTTP status that answers an error of kind `k`.
pub open spec fn status_of(k: ErrorKind) -> u16 {
    match k {
        ErrorKind::InvalidRequest => 400,
        ErrorKind::NotFound => 404,
        ErrorKind::Upstream => 502,
    }
}

/// The error type named in the answer to an error of kind `k`.
pub open spec fn type_of(k: ErrorKind) -> Seq<char> {
    match k {
        ErrorKind::InvalidRequest => "invalid_request_error"@,
        ErrorKind::NotFound => "not_found_error"@,
        ErrorKind::Upstream => "upstream_error"@,
    }
}

/// The JSON body that answers the error `e`.
pub open spec fn error_body(e: ApiErrorV) -> JsonV {
    JsonV::Object(
        seq![
            (
                "error"@,
                JsonV::Object(
                    seq![
                        ("message"@, JsonV::Str(e.message)),
                        ("type"@, JsonV::Str(type_of(e.kind))),
                        (
                            "param"@,
                            match e.param {
                                Some(p) => JsonV::Str(p),
                                None => JsonV::Null,
                            },
                        ),
                    ],
                ),
            ),
        ],
    )
}

impl ApiError {
    /// The HTTP status of the answer.
    pub fn status(&self) -> (r: u16)
        ensures
            r == status_of(self.kind),
    {
        match self.kind {
            ErrorKind::InvalidRequest => 400,
            ErrorKind::NotFound => 404,
            ErrorKind::Upstream => 502,
        }
    }

    /// The JSON body of the answer: the message, the error type and the parameter.
    pub fn body(&self) -> (r: Json)
        ensures
            r@ == error_body(self@),
    {
        let kind = match self.kind {
            ErrorKind::InvalidRequest => "invalid_request_error",
            ErrorKind::NotFound => "not_found_error",
            ErrorKind::Upstream => "upstream_error",
        };
        let param = match &self.param {
            Some(p) => jstring(p.as_str()),
            None => Json::Null,
        };
        let mut inner: Vec<(String, Json)> = Vec::new();
        inner.push((owned("message"), jstring(self.message.as_str())));
        inner.push((owned("type"), jstring(kind)));
        inner.push((owned("param"), param));
        let ghost iv = inner@;
        let e = object(inner);
        assert(view_fields(iv) =~= match error_body(self@) {
            JsonV::Object(fs) => match fs[0].1 {
                JsonV::Object(g) => g,
                _ => Seq::empty(),
            },
            _ => Seq::empty(),
        });
        let mut outer: Vec<(String, Json)> = Vec::new();
        outer.push((owned("error"), e));
        let ghost ov = outer@;
        let r = object(outer);
        assert(view_fields(ov) =~= match error_body(self@) {
            JsonV::Object(fs) => fs,
            _ => Seq::empty(),
        });
        r
    }
}

/// The answer to a request for an endpoint that the configuration switched off.
pub open spec fn endpoint_disabled() -> ApiErrorV {
    ApiErrorV { kind: ErrorKind::NotFound, message: "Endpoint disabled"@, param: None }
}

/// Lets a request through when its endpoint is enabled, and refuses it as
/// not found when it is not.
pub fn check_endpoint_enabled(enabled: bool) -> (r: Result<(), ApiError>)
    ensures
        r is Ok <==> enabled,
        r matches Err(e) ==> e@ == endpoint_disabled(),
{
    if enabled {
        Ok(())
    } else {
        Err(ApiError::not_found(owned("Endpoint disabled")))
    }
}

} // verus!
