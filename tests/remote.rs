use schoology_auth::client::SchoologyTokenPair;
use schoology_auth::request_tokens::{sign, RequestTokenStore};
use schoology_auth::service::{begin_login, next_login_step, LoginError, LoginEvent, LoginStep};
use schoology_auth::users::SchoologyUser;
use schoology_auth::service::authenticate;
use schoology_auth::sessions::SessionStore;
use schoology_auth::oauth::{
    access_token_outcome, find_field, parse_request_token, request_token_outcome, AccessTokenError,
    OauthRequestTokenError,
};
use schoology_auth::types::{check_access, strip_bearer, Authentication, ErrorFault, ErrorResponseStatus, ResponseData};
use schoology_auth::users::{schoology_user_outcome, user_id_from_location, user_id_outcome, user_path, GetSchoologyUserError, GetUserIdError};

#[test]
fn access_token_401_is_unauthorized() {
    assert!(matches!(access_token_outcome(Some(401), None), Err(AccessTokenError::Unauthorized)));
    assert!(matches!(access_token_outcome(Some(401), Some("x".to_string())), Err(AccessTokenError::Unauthorized)));
    assert!(matches!(access_token_outcome(Some(500), None), Err(AccessTokenError::Other)));
    assert!(matches!(access_token_outcome(None, None), Err(AccessTokenError::Other)));
}

#[test]
fn access_token_200_reads_pair() {
    let t = access_token_outcome(Some(200), Some("oauth_token=abc&oauth_token_secret=d%26f".to_string())).unwrap();
    assert_eq!(t.access_token, "abc");
    assert_eq!(t.token_secret, "d&f");
    assert!(matches!(access_token_outcome(Some(200), Some("oauth_token=abc".to_string())), Err(AccessTokenError::Other)));
    assert!(matches!(access_token_outcome(Some(200), None), Err(AccessTokenError::Other)));
}

#[test]
fn request_token_outcomes() {
    let t = request_token_outcome(
        Some(200),
        Some("oauth_token=t1&oauth_token_secret=s1&xoauth_token_ttl=3600&extra=1".to_string()),
    )
    .unwrap();
    assert_eq!(t.access_token, "t1");
    assert_eq!(t.token_secret, "s1");
    assert_eq!(t.ttl, 3600);
    assert!(matches!(request_token_outcome(Some(401), None), Err(OauthRequestTokenError::Unauthorized)));
    assert!(matches!(request_token_outcome(Some(302), None), Err(OauthRequestTokenError::Other)));
    assert!(matches!(
        request_token_outcome(Some(200), Some("oauth_token=t1&oauth_token_secret=s1&xoauth_token_ttl=soon".to_string())),
        Err(OauthRequestTokenError::Other)
    ));
}

#[test]
fn repeated_field_is_refused() {
    assert!(parse_request_token("oauth_token=a&oauth_token=b&oauth_token_secret=s&xoauth_token_ttl=1").is_none());
    let pairs = vec![("k".to_string(), "1".to_string()), ("j".to_string(), "2".to_string())];
    assert_eq!(find_field(&pairs, "j"), Some("2".to_string()));
    assert_eq!(find_field(&pairs, "m"), None);
}

#[test]
fn identity_redirect_gives_user_id() {
    assert_eq!(
        user_id_outcome(Some(303), Some("https://api.example.com/v1/users/482910".to_string())).unwrap(),
        482910
    );
    assert!(matches!(user_id_outcome(Some(200), None), Err(GetUserIdError::Other)));
    assert!(matches!(
        user_id_outcome(Some(200), Some("https://api.example.com/v1/users/482910".to_string())),
        Err(GetUserIdError::Other)
    ));
}

#[test]
fn identity_other_statuses() {
    assert!(matches!(user_id_outcome(Some(404), None), Err(GetUserIdError::NotFound)));
    assert!(matches!(user_id_outcome(Some(401), None), Err(GetUserIdError::Unauthorized)));
    assert!(matches!(user_id_outcome(Some(303), None), Err(GetUserIdError::Other)));
    assert!(matches!(user_id_outcome(None, None), Err(GetUserIdError::Other)));
    assert!(matches!(user_id_outcome(Some(303), Some("/v1/users/me".to_string())), Err(GetUserIdError::Other)));
}

#[test]
fn relative_location_resolves_against_api_root() {
    assert_eq!(user_id_from_location("/v1/users/77"), Some(77));
    assert_eq!(user_id_from_location("users/78"), Some(78));
    assert_eq!(user_id_from_location("https://api.schoology.com/v1/users/"), None);
}

#[test]
fn profile_outcomes() {
    assert_eq!(schoology_user_outcome(Some(200), Some("{}".to_string())).ok(), Some("{}".to_string()));
    assert!(matches!(schoology_user_outcome(Some(401), None), Err(GetSchoologyUserError::Unauthorized)));
    assert!(matches!(schoology_user_outcome(Some(303), None), Err(GetSchoologyUserError::Other)));
    assert_eq!(user_path(482910), "/v1/users/482910");
}

#[test]
fn bearer_header() {
    assert_eq!(strip_bearer("Bearer abc"), Some("abc".to_string()));
    assert_eq!(strip_bearer("Bearer "), Some(String::new()));
    assert_eq!(strip_bearer("bearer abc"), None);
    assert_eq!(strip_bearer("Basic abc"), None);
}

#[test]
fn statuses_and_access() {
    assert_eq!(ErrorResponseStatus::NotFound.status_code(), 404);
    assert_eq!(ErrorResponseStatus::BadRequest.status_code(), 400);
    assert_eq!(ErrorFault::Server.status_code(), 500);
    let r: ResponseData<u8, u8> = ResponseData::error(ErrorFault::Client, 1);
    assert_eq!(r.status_code(), 400);
    let ok: ResponseData<u8, u8> = ResponseData::success(1);
    assert_eq!(ok.status_code(), 200);
    let re: ResponseData<u8, u8> = ResponseData::route_error(ErrorResponseStatus::Forbidden);
    assert_eq!(re.status_code(), 403);
    assert!(check_access(Authentication::NoAuth).is_ok());
    assert_eq!(check_access(Authentication::UserAuth), Err(ErrorResponseStatus::Forbidden));
}

#[test]
fn login_steps_follow_the_flow() {

    let mut tokens = RequestTokenStore::new();
    let id = [9u8; 16];
    tokens.insert_new(id, "rt".to_string(), "rs".to_string(), 60, 0).unwrap();
    assert!(matches!(begin_login(&mut tokens, &id, "bad", 0), LoginStep::Done(Err(LoginError::InvalidSignature))));
    let step = begin_login(&mut tokens, &id, &sign(&id, "rs"), 0);
    match &step {
        LoginStep::ExchangeToken(p) => assert_eq!((p.access_token.as_str(), p.token_secret.as_str()), ("rt", "rs")),
        _ => panic!("expected the token exchange"),
    }
    assert!(matches!(begin_login(&mut tokens, &id, &sign(&id, "rs"), 0), LoginStep::Done(Err(LoginError::InvalidFlowId))));

    let pair = || SchoologyTokenPair { access_token: "a".to_string(), token_secret: "s".to_string() };
    let step = next_login_step(step, LoginEvent::AccessToken(Ok(pair())), true);
    assert!(matches!(step, LoginStep::ResolveUser(_)));
    let step = next_login_step(step, LoginEvent::UserId(Ok(482910)), true);
    assert!(matches!(step, LoginStep::FetchProfile(_, 482910)));
    let profile = SchoologyUser {
        id: 482910,
        school_id: 1,
        name_first: "A".to_string(),
        name_last: "B".to_string(),
        primary_email: "a@b".to_string(),
        picture_url: "p".to_string(),
    };
    let step = next_login_step(step, LoginEvent::Profile(Ok(profile)), true);
    assert!(matches!(step, LoginStep::LinkUser(_, 482910, _)));
    let step = next_login_step(step, LoginEvent::Linked(Ok(5)), true);
    assert!(matches!(step, LoginStep::CreateSession(5)));

    let denied = next_login_step(
        LoginStep::ExchangeToken(pair()),
        LoginEvent::AccessToken(Err(schoology_auth::oauth::AccessTokenError::Unauthorized)),
        true,
    );
    assert!(matches!(denied, LoginStep::Done(Err(LoginError::ApplicationNotAuthorized))));
    let no_session = next_login_step(
        LoginStep::LinkUser(pair(), 1, SchoologyUser {
            id: 1,
            school_id: 1,
            name_first: String::new(),
            name_last: String::new(),
            primary_email: String::new(),
            picture_url: String::new(),
        }),
        LoginEvent::Linked(Ok(3)),
        false,
    );
    assert!(matches!(no_session, LoginStep::Done(Ok(None))));
    let mismatched = next_login_step(LoginStep::ResolveUser(pair()), LoginEvent::Linked(Ok(1)), true);
    assert!(matches!(mismatched, LoginStep::Done(Err(LoginError::DatabaseError))));
}

#[test]
fn authenticate_reads_bearer_sessions() {

    let mut sessions = SessionStore::new();
    let s = sessions.insert_new([4u8; 16], 11, "tok".to_string(), "ip".to_string(), 0).unwrap();
    let header = format!("Bearer {}", s.credential());
    let found = authenticate(&sessions, Some(&header), Authentication::NoAuth, 0).unwrap().unwrap();
    assert_eq!(found.user_id, 11);
    assert!(authenticate(&sessions, None, Authentication::NoAuth, 0).unwrap().is_none());
    assert!(authenticate(&sessions, Some("Basic x"), Authentication::NoAuth, 0).unwrap().is_none());
    assert_eq!(authenticate(&sessions, Some("Bearer !!"), Authentication::NoAuth, 0).err(), Some(ErrorResponseStatus::BadRequest));
    assert_eq!(authenticate(&sessions, Some(&header), Authentication::UserAuth, 0).err(), Some(ErrorResponseStatus::Forbidden));
}
