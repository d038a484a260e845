//! The decisions of the service's requests. Logging in alternates remote
//! calls and decisions: `begin_login` and `next_login_step` decide, from the
//! current step and what the last call gave, what is done next; the caller
//! performs each step and reports back.
use vstd::prelude::*;
use crate::client::SchoologyTokenPair;
use crate::oauth::AccessTokenError;
use crate::oauth::OauthRequestToken;
use crate::request_tokens::{CreateError, FlowError, RequestToken, RequestTokenStore, request_signature, sign};
use crate::sessions::{DecodeError, Session, SessionStore, decoded_of, matching_session};
use crate::store::{has_key, index_of, live_record_of};
use crate::types::{bearer_prefix, check_access, strip_bearer, Authentication, ErrorResponseStatus};
use crate::primitives::uuid_parsed_of;
use vstd::utf8::{decode_utf8, encode_utf8};
use crate::users::{GetSchoologyUserError, GetUserIdError, SchoologyUser};

verus! {

broadcast use vstd::utf8::encode_utf8_decode_utf8;

/// Why a login failed.
#[derive(Clone, Copy, Debug, PartialEq, Eq, Structural)]
pub enum LoginError {
    /// The remote API did not answer as expected
    SchoologyError,
    /// Storing a record failed
    DatabaseError,
    /// No live request token has this identifier
    InvalidFlowId,
    /// The signature does not match the request token
    InvalidSignature,
    /// The user has not authorized the application, or the request token expired remotely
    ApplicationNotAuthorized,
}

/// What is to be done next in a login.
pub enum LoginStep {
    /// Exchange the authorized request token for an access token
    ExchangeToken(SchoologyTokenPair),
    /// Ask the remote API who the user is
    ResolveUser(SchoologyTokenPair),
    /// Fetch the remote user's profile
    FetchProfile(SchoologyTokenPair, usize),
    /// Create or update the local user linked to the remote user
    LinkUser(SchoologyTokenPair, usize, SchoologyUser),
    /// Create a session for the local user
    CreateSession(i32),
    /// The login is over: a session where one was asked for
    Done(Result<Option<Session>, LoginError>),
}

/// What the last step gave.
pub enum LoginEvent {
    AccessToken(Result<SchoologyTokenPair, AccessTokenError>),
    UserId(Result<usize, GetUserIdError>),
    Profile(Result<SchoologyUser, GetSchoologyUserError>),
    Linked(Result<i32, ()>),
    SessionCreated(Result<Session, CreateError>),
}

pub open spec fn is_done_with(s: LoginStep, e: LoginError) -> bool {
    match s {
        LoginStep::Done(Err(x)) => x == e,
        _ => false,
    }
}

/// Begins a flow with a request token that the remote API issued: stores
/// it under a fresh identifier for its lifetime, and returns the stored
/// record with the signature of its identifier, which the client must
/// present to complete the flow.
pub fn begin_flow(tokens: &mut RequestTokenStore, issued: OauthRequestToken) -> (r: Result<
    (RequestToken, String),
    CreateError,
>)
    requires
        old(tokens).wf(),
    ensures
        final(tokens).wf(),
        r matches Ok((t, sig)) ==> {
            &&& final(tokens)@ == old(tokens)@.push(t)
            &&& t.access_token == issued.access_token
            &&& t.token_secret == issued.token_secret
            &&& sig@ == request_signature(t.id@, t.token_secret@)
        },
        r matches Err(e) ==> final(tokens)@ == old(tokens)@ && (e == CreateError::DuplicateId || e
            == CreateError::ExpiryOverflow || e == CreateError::NoRandomness),
{
    let secret = issued.token_secret.clone();
    match tokens.create(issued.access_token, issued.token_secret, issued.ttl as u64) {
        Ok(t) => {
            let signature = sign(&t.id, secret.as_str());
            Ok((t, signature))
        },
        Err(e) => Err(e),
    }
}

/// Starts a login with a presented flow handle: the request token is checked
/// and consumed in one step, and its token pair is to be exchanged.
pub fn begin_login(tokens: &mut RequestTokenStore, id: &[u8; 16], signature: &str, now: i64) -> (r:
    LoginStep)
    requires
        old(tokens).wf(),
    ensures
        final(tokens).wf(),
        match live_record_of(old(tokens)@, id@, now as int) {
            None => is_done_with(r, LoginError::InvalidFlowId) && final(tokens)@ == old(tokens)@,
            Some(t) => if signature@ == request_signature(id@, t.token_secret@) {
                &&& r matches LoginStep::ExchangeToken(p)
                &&& p.access_token == t.access_token
                &&& p.token_secret == t.token_secret
                &&& final(tokens)@ == old(tokens)@.remove(index_of(old(tokens)@, id@))
                &&& !has_key(final(tokens)@, id@)
            } else {
                is_done_with(r, LoginError::InvalidSignature) && final(tokens)@ == old(tokens)@
            },
        },
{
    match tokens.verify(id, signature, now) {
        Ok(t) => LoginStep::ExchangeToken(
            SchoologyTokenPair { access_token: t.access_token, token_secret: t.token_secret },
        ),
        Err(FlowError::InvalidFlowId) => LoginStep::Done(Err(LoginError::InvalidFlowId)),
        Err(FlowError::InvalidSignature) => LoginStep::Done(Err(LoginError::InvalidSignature)),
    }
}

/// The step after `step`, given what performing it gave. A failed exchange
/// means the application is not authorized; a failed identity or profile
/// call is a remote error; a failed link or session a storage error. Once
/// linked, a session is created only where `login` asks for one. An event
/// that does not answer the step is a storage error; a finished login stays
/// finished.
pub fn next_login_step(step: LoginStep, event: LoginEvent, login: bool) -> (r: LoginStep)
    ensures
        match (step, event) {
            (LoginStep::ExchangeToken(_), LoginEvent::AccessToken(Ok(t))) => r matches LoginStep::ResolveUser(
                u,
            ) && u == t,
            (LoginStep::ExchangeToken(_), LoginEvent::AccessToken(Err(_))) => is_done_with(
                r,
                LoginError::ApplicationNotAuthorized,
            ),
            (LoginStep::ResolveUser(t), LoginEvent::UserId(Ok(n))) => r matches LoginStep::FetchProfile(
                u,
                m,
            ) && u == t && m == n,
            (LoginStep::ResolveUser(_), LoginEvent::UserId(Err(_))) => is_done_with(
                r,
                LoginError::SchoologyError,
            ),
            (LoginStep::FetchProfile(t, n), LoginEvent::Profile(Ok(p))) => r matches LoginStep::LinkUser(
                u,
                m,
                q,
            ) && u == t && m == n && q == p,
            (LoginStep::FetchProfile(_, _), LoginEvent::Profile(Err(_))) => is_done_with(
                r,
                LoginError::SchoologyError,
            ),
            (LoginStep::LinkUser(_, _, _), LoginEvent::Linked(Ok(uid))) => if login {
                r matches LoginStep::CreateSession(x) && x == uid
            } else {
                r matches LoginStep::Done(Ok(None))
            },
            (LoginStep::LinkUser(_, _, _), LoginEvent::Linked(Err(_))) => is_done_with(
                r,
                LoginError::DatabaseError,
            ),
            (LoginStep::CreateSession(_), LoginEvent::SessionCreated(Ok(s))) => r matches LoginStep::Done(
                Ok(Some(x)),
            ) && x == s,
            (LoginStep::CreateSession(_), LoginEvent::SessionCreated(Err(_))) => is_done_with(
                r,
                LoginError::DatabaseError,
            ),
            (LoginStep::Done(res), _) => r == LoginStep::Done(res),
            _ => is_done_with(r, LoginError::DatabaseError),
        },
{
    match (step, event) {
        (LoginStep::ExchangeToken(_), LoginEvent::AccessToken(Ok(t))) => LoginStep::ResolveUser(t),
        (LoginStep::ExchangeToken(_), LoginEvent::AccessToken(Err(_))) => LoginStep::Done(
            Err(LoginError::ApplicationNotAuthorized),
        ),
        (LoginStep::ResolveUser(t), LoginEvent::UserId(Ok(n))) => LoginStep::FetchProfile(t, n),
        (LoginStep::ResolveUser(_), LoginEvent::UserId(Err(_))) => LoginStep::Done(
            Err(LoginError::SchoologyError),
        ),
        (LoginStep::FetchProfile(t, n), LoginEvent::Profile(Ok(p))) => LoginStep::LinkUser(t, n, p),
        (LoginStep::FetchProfile(_, _), LoginEvent::Profile(Err(_))) => LoginStep::Done(
            Err(LoginError::SchoologyError),
        ),
        (LoginStep::LinkUser(_, _, _), LoginEvent::Linked(Ok(uid))) => {
            if login {
                LoginStep::CreateSession(uid)
            } else {
                LoginStep::Done(Ok(None))
            }
        },
        (LoginStep::LinkUser(_, _, _), LoginEvent::Linked(Err(_))) => LoginStep::Done(
            Err(LoginError::DatabaseError),
        ),
        (LoginStep::CreateSession(_), LoginEvent::SessionCreated(Ok(s))) => LoginStep::Done(
            Ok(Some(s)),
        ),
        (LoginStep::CreateSession(_), LoginEvent::SessionCreated(Err(_))) => LoginStep::Done(
            Err(LoginError::DatabaseError),
        ),
        (LoginStep::Done(res), _) => LoginStep::Done(res),
        _ => LoginStep::Done(Err(LoginError::DatabaseError)),
    }
}

pub open spec fn opt_str(o: Option<&str>) -> Option<Seq<char>> {
    match o {
        Some(h) => Some(h@),
        None => None,
    }
}

/// The session that an `Authorization` header value carries: none without
/// a `Bearer ` value; `Err` where the credential cannot be read; otherwise
/// the live session with the credential's id and exact token, if any.
pub open spec fn carried_session(s: Seq<Session>, header: Option<Seq<char>>, now: int) -> Result<
    Option<Session>,
    (),
> {
    match header {
        None => Ok(None),
        Some(h) => {
            let b = encode_utf8(h);
            if b.len() >= 7 && b.take(7) == bearer_prefix() {
                match decoded_of(decode_utf8(b.skip(7))) {
                    None => Err(()),
                    Some((id, sig)) => match uuid_parsed_of(id) {
                        None => Err(()),
                        Some(k) => Ok(matching_session(s, k, sig, now)),
                    },
                }
            } else {
                Ok(None)
            }
        },
    }
}

/// The session that an incoming request carries, and whether the route may
/// be served. A header that is not `Bearer <credential>` carries no session;
/// a credential that cannot be read is a bad request; one that matches no
/// live session with its exact token carries no session. Then the route's
/// authentication level is checked.
pub fn authenticate(
    sessions: &SessionStore,
    authorization: Option<&str>,
    auth: Authentication,
    now: i64,
) -> (r: Result<Option<Session>, ErrorResponseStatus>)
    requires
        sessions.wf(),
    ensures
        match carried_session(sessions@, opt_str(authorization), now as int) {
            Err(()) => r == Err::<Option<Session>, ErrorResponseStatus>(ErrorResponseStatus::BadRequest),
            Ok(x) => if auth == Authentication::NoAuth {
                r == Ok::<Option<Session>, ErrorResponseStatus>(x)
            } else {
                r == Err::<Option<Session>, ErrorResponseStatus>(ErrorResponseStatus::Forbidden)
            },
        },
{
    let session = match authorization {
        Some(h) => match strip_bearer(h) {
            Some(credential) => match sessions.verify(credential.as_str(), now) {
                Ok(s) => s,
                Err(DecodeError::Malformed) => {
                    return Err(ErrorResponseStatus::BadRequest);
                },
            },
            None => None,
        },
        None => None,
    };
    match check_access(auth) {
        Ok(()) => Ok(session),
        Err(e) => Err(e),
    }
}

} // verus!
