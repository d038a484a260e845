//! Request authentication levels, response statuses, and reading the
//! `Authorization` header of an incoming request.
use vstd::prelude::*;
use vstd::utf8::{encode_utf8, is_char_boundary, length_of_first_scalar, pop_first_scalar, valid_utf8};

verus! {

broadcast use vstd::utf8::encode_utf8_valid_utf8;

/// The authentication a route asks for.
#[derive(Clone, Copy, Debug, PartialEq, Eq, Structural)]
pub enum Authentication {
    NoAuth,
    UserAuth,
    AdminAuth,
    RootAuth,
}

/// Request-level error statuses.
#[derive(Clone, Copy, Debug, PartialEq, Eq, Structural)]
pub enum ErrorResponseStatus {
    /// The requested resource was not found. (Used only when a path parameter is used).
    NotFound,
    /// The user is not authenticated.
    Unauthorized,
    /// The user is authenticated, but does not have the required credentials.
    Forbidden,
    /// The request was malformed.
    BadRequest,
    /// The server encountered an internal error.
    InternalServerError,
}

#[derive(Clone, Copy, Debug, PartialEq, Eq, Structural)]
pub struct ErrorResponseStatusData {
    pub status: ErrorResponseStatus,
}

/// Whose fault a route error is.
#[derive(Clone, Copy, Debug, PartialEq, Eq, Structural)]
pub enum ErrorFault {
    Client,
    Server,
}

/// A route's answer: its data, a request-level error, or a route error.
pub enum ResponseData<Data, Error> {
    Success(SuccessResponseData<Data>),
    RequestError(ErrorResponseStatusData),
    RouteError(ErrorResponseData<Error>),
}

pub struct SuccessResponseData<Data> {
    pub data: Data,
}

pub struct ErrorResponseData<Data> {
    pub fault: ErrorFault,
    pub data: Data,
}

impl ErrorResponseStatus {
    /// The HTTP status code of this status.
    pub fn status_code(&self) -> (r: u16)
        ensures
            r == match *self {
                ErrorResponseStatus::NotFound => 404u16,
                ErrorResponseStatus::Unauthorized => 401u16,
                ErrorResponseStatus::Forbidden => 403u16,
                ErrorResponseStatus::BadRequest => 400u16,
                ErrorResponseStatus::InternalServerError => 500u16,
            },
    {
        match self {
            ErrorResponseStatus::NotFound => 404,
            ErrorResponseStatus::Unauthorized => 401,
            ErrorResponseStatus::Forbidden => 403,
            ErrorResponseStatus::BadRequest => 400,
            ErrorResponseStatus::InternalServerError => 500,
        }
    }
}

impl ErrorFault {
    /// The HTTP status code of a route error: 400 for the client's fault,
    /// 500 for the server's.
    pub fn status_code(&self) -> (r: u16)
        ensures
            r == match *self {
                ErrorFault::Client => 400u16,
                ErrorFault::Server => 500u16,
            },
    {
        match self {
            ErrorFault::Client => 400,
            ErrorFault::Server => 500,
        }
    }
}

impl<Data, Error> ResponseData<Data, Error> {
    /// If the request was successful, return a success response.
    pub fn success(data: Data) -> (r: Self)
        ensures
            r == ResponseData::<Data, Error>::Success(SuccessResponseData { data }),
    {
        ResponseData::Success(SuccessResponseData { data })
    }

    /// If the request was unsuccessful, return an error response.
    pub fn error(fault: ErrorFault, data: Error) -> (r: Self)
        ensures
            r == ResponseData::<Data, Error>::RouteError(ErrorResponseData { fault, data }),
    {
        ResponseData::RouteError(ErrorResponseData { data, fault })
    }

    /// Route error
    pub fn route_error(data: ErrorResponseStatus) -> (r: Self)
        ensures
            r == ResponseData::<Data, Error>::RequestError(ErrorResponseStatusData { status: data }),
    {
        ResponseData::RequestError(ErrorResponseStatusData { status: data })
    }

    /// The HTTP status code of the response.
    pub fn status_code(&self) -> (r: u16)
        ensures
            r == match self {
                ResponseData::Success(_) => 200u16,
                ResponseData::RequestError(e) => match e.status {
                    ErrorResponseStatus::NotFound => 404u16,
                    ErrorResponseStatus::Unauthorized => 401u16,
                    ErrorResponseStatus::Forbidden => 403u16,
                    ErrorResponseStatus::BadRequest => 400u16,
                    ErrorResponseStatus::InternalServerError => 500u16,
                },
                ResponseData::RouteError(e) => match e.fault {
                    ErrorFault::Client => 400u16,
                    ErrorFault::Server => 500u16,
                },
            },
    {
        match self {
            ResponseData::Success(_) => 200,
            ResponseData::RequestError(e) => e.status.status_code(),
            ResponseData::RouteError(e) => e.fault.status_code(),
        }
    }
}

/// Whether a route that asks for `auth` may be served: routes are served
/// without authentication only; the others are refused as `Forbidden`.
pub fn check_access(auth: Authentication) -> (r: Result<(), ErrorResponseStatus>)
    ensures
        auth == Authentication::NoAuth ==> r is Ok,
        auth != Authentication::NoAuth ==> r == Err::<(), ErrorResponseStatus>(
            ErrorResponseStatus::Forbidden,
        ),
{
    if auth != Authentication::NoAuth {
        Err(ErrorResponseStatus::Forbidden)
    } else {
        Ok(())
    }
}

/// The bytes of `Bearer `.
pub open spec fn bearer_prefix() -> Seq<u8> {
    seq![66u8, 101u8, 97u8, 114u8, 101u8, 114u8, 32u8]
}

proof fn lemma_ascii_prefix_boundary(b: Seq<u8>, k: int)
    requires
        valid_utf8(b),
        0 <= k <= b.len(),
        forall|i: int| 0 <= i < k ==> #[trigger] b[i] < 128,
    ensures
        is_char_boundary(b, k),
    decreases k,
{
    if k > 0 {
        let p = pop_first_scalar(b);
        assert(length_of_first_scalar(b) == 1);
        assert(p =~= b.subrange(1, b.len() as int));
        assert forall|i: int| 0 <= i < k - 1 implies #[trigger] p[i] < 128 by {
            assert(p[i] == b[i + 1]);
        }
        lemma_ascii_prefix_boundary(p, k - 1);
    }
}

/// The credential of an `Authorization: Bearer <credential>` header value;
/// `None` where the value does not start with `Bearer `.
pub fn strip_bearer(header: &str) -> (r: Option<String>)
    ensures
        encode_utf8(header@).len() >= 7 && encode_utf8(header@).take(7) == bearer_prefix() <==> r is Some,
        r matches Some(t) ==> encode_utf8(t@) == encode_utf8(header@).skip(7),
{
    let bytes = header.as_bytes();
    let prefix: [u8; 7] = [66, 101, 97, 114, 101, 114, 32];
    assert(prefix@ =~= bearer_prefix());
    if bytes.len() < 7 {
        return None;
    }
    let mut i: usize = 0;
    while i < 7
        invariant
            i <= 7,
            bytes@.len() >= 7,
            prefix@ == bearer_prefix(),
            bytes@ == encode_utf8(header@),
            forall|j: int| 0 <= j < i ==> bytes@[j] == #[trigger] prefix@[j],
        decreases 7 - i,
    {
        if bytes[i] != prefix[i] {
            assert(bytes@.take(7)[i as int] != bearer_prefix()[i as int]);
            return None;
        }
        i = i + 1;
    }
    assert(bytes@.take(7) =~= bearer_prefix());
    proof {
        lemma_ascii_prefix_boundary(bytes@, 7);
    }
    let (_, rest) = header.split_at(7);
    Some(rest.to_owned())
}

} // verus!
