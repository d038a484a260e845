//! The remote API client: consumer credentials, request descriptions, and
//! signed GET requests ready to be sent.
use vstd::prelude::*;
use vstd::utf8::encode_utf8;
use crate::primitives::{str_pairs, url_extend_query, url_join, url_joined_of, url_query_of, url_stripped_of, url_with_pairs_of};
use crate::proto::{
    header_fields, header_text, is_decimal_text, is_uuid_text, opt_view, protocol_params, signature_of,
    OAuth1AHeader, RequestUrl,
};

verus! {

/// The root of the remote API.
pub const BASE_URL: &'static str = "https://api.schoology.com/v1/";

/// The application's consumer credentials.
pub struct SchoologyClient {
    pub consumer_key: String,
    pub consumer_secret: String,
}

/// A token pair representing a user's oauth token and token secret
pub struct SchoologyTokenPair {
    pub access_token: String,
    pub token_secret: String,
}

/// A request to the remote API
pub struct SchoologyRequest {
    /// Query parameters for the request
    pub query: Option<Vec<(String, String)>>,
    /// For JSON requests (ignored in GET requests)
    pub body: Option<String>,
    /// For url encoded `application/x-www-form-urlencoded` requests
    pub oauth_body: Option<Vec<(String, String)>>,
    /// User token
    pub access_token: Option<String>,
    /// User token secret
    pub token_secret: Option<String>,
    /// Whether or not to follow redirects
    pub redirects: bool,
}

/// A signed GET request: where to send it, its `Authorization` header, and
/// whether redirects are to be followed.
pub struct PreparedRequest {
    pub url: String,
    pub authorization: String,
    pub follow_redirects: bool,
}

pub open spec fn query_view(q: Option<Vec<(String, String)>>) -> Option<Seq<(Seq<char>, Seq<char>)>> {
    match q {
        Some(v) => Some(str_pairs(v@)),
        None => None,
    }
}

impl SchoologyRequest {
    /// Create a new blank request
    pub fn new() -> (r: Self)
        ensures
            r.query is None,
            r.body is None,
            r.oauth_body is None,
            r.access_token is None,
            r.token_secret is None,
            r.redirects,
    {
        SchoologyRequest {
            query: None,
            body: None,
            oauth_body: None,
            access_token: None,
            token_secret: None,
            redirects: true,
        }
    }

    /// Add a query parameter to the request
    pub fn with_query_param(self, key: String, value: String) -> (r: Self)
        ensures
            query_view(r.query) == Some(
                match query_view(self.query) {
                    Some(q) => q,
                    None => Seq::empty(),
                }.push((key@, value@)),
            ),
            r.body == self.body,
            r.oauth_body == self.oauth_body,
            r.access_token == self.access_token,
            r.token_secret == self.token_secret,
            r.redirects == self.redirects,
    {
        let mut s = self;
        let query = match s.query {
            Some(mut q) => {
                let ghost before = q@;
                q.push((key, value));
                assert(str_pairs(q@) =~= str_pairs(before).push((key@, value@)));
                q
            },
            None => {
                let mut q: Vec<(String, String)> = Vec::new();
                q.push((key, value));
                assert(str_pairs(q@) =~= Seq::<(Seq<char>, Seq<char>)>::empty().push((key@, value@)));
                q
            },
        };
        SchoologyRequest {
            query: Some(query),
            body: s.body,
            oauth_body: s.oauth_body,
            access_token: s.access_token,
            token_secret: s.token_secret,
            redirects: s.redirects,
        }
    }

    /// Add a body to the request
    pub fn with_body(self, body: String) -> (r: Self)
        ensures
            r.body == Some(body),
            r.query == self.query,
            r.oauth_body == self.oauth_body,
            r.access_token == self.access_token,
            r.token_secret == self.token_secret,
            r.redirects == self.redirects,
    {
        let mut s = self;
        s.body = Some(body);
        s
    }

    /// Add a form body to the request
    pub fn with_form_body(self, body: Vec<(String, String)>) -> (r: Self)
        ensures
            r.oauth_body == Some(body),
            r.query == self.query,
            r.body == self.body,
            r.access_token == self.access_token,
            r.token_secret == self.token_secret,
            r.redirects == self.redirects,
    {
        let mut s = self;
        s.oauth_body = Some(body);
        s
    }

    /// Add the user's tokens to the request
    pub fn with_access_tokens(self, token: &SchoologyTokenPair) -> (r: Self)
        ensures
            r.access_token == Some(token.access_token),
            r.token_secret == Some(token.token_secret),
            r.query == self.query,
            r.body == self.body,
            r.oauth_body == self.oauth_body,
            r.redirects == self.redirects,
    {
        let mut s = self;
        s.access_token = Some(token.access_token.clone());
        s.token_secret = Some(token.token_secret.clone());
        s
    }

    /// Whether or not to follow redirects
    pub fn redirects(self, redirects: bool) -> (r: Self)
        ensures
            r.redirects == redirects,
            r.query == self.query,
            r.body == self.body,
            r.oauth_body == self.oauth_body,
            r.access_token == self.access_token,
            r.token_secret == self.token_secret,
    {
        let mut s = self;
        s.redirects = redirects;
        s
    }
}

/// The URL a GET to `path` goes to: `path` resolved against the API root,
/// with the query pairs appended.
pub open spec fn get_url_of(path: Seq<char>, query: Option<Seq<(Seq<char>, Seq<char>)>>) -> Option<Seq<char>> {
    match url_joined_of(BASE_URL@, path) {
        None => None,
        Some(j) => match query {
            None => Some(j),
            Some(q) => url_with_pairs_of(j, q),
        },
    }
}

/// Why a GET could not be signed.
#[derive(Clone, Copy, Debug, PartialEq, Eq, Structural)]
pub enum PrepareError {
    /// The path does not resolve to a URL, or the URL cannot be read back
    InvalidUrl,
    /// The system's random generator failed to give a nonce
    NoRandomness,
}

/// Whether a GET to `path` with `query` has a URL that can be signed.
pub open spec fn url_signable(path: Seq<char>, query: Option<Seq<(Seq<char>, Seq<char>)>>) -> bool {
    match get_url_of(path, query) {
        Some(u) => url_stripped_of(u) is Some && url_query_of(u) is Some,
        None => false,
    }
}

/// The `Authorization` header of a GET to `url` with the given nonce and
/// timestamp.
pub open spec fn get_authorization_of(
    url: Seq<char>,
    consumer_key: Seq<char>,
    consumer_secret: Seq<char>,
    token: Option<Seq<char>>,
    token_secret: Option<Seq<char>>,
    nonce: Seq<char>,
    timestamp: Seq<char>,
) -> Option<Seq<u8>> {
    match (url_stripped_of(url), url_query_of(url)) {
        (Some(base), Some(q)) => Some(
            header_text(
                header_fields(
                    consumer_key,
                    timestamp,
                    nonce,
                    token,
                    signature_of(
                        "GET"@,
                        base,
                        protocol_params(consumer_key, timestamp, nonce, token) + Seq::empty() + q,
                        consumer_secret,
                        token_secret,
                    ),
                ),
            ),
        ),
        _ => None,
    }
}

impl SchoologyClient {
    /// Creates a new client
    pub fn new(consumer_key: String, consumer_secret: String) -> (r: Self)
        ensures
            r.consumer_key == consumer_key,
            r.consumer_secret == consumer_secret,
    {
        SchoologyClient { consumer_key, consumer_secret }
    }

    /// The URL of a GET to `path` with the request's query, and what the
    /// signature reads of it.
    fn target_url(path: &str, query: &Option<Vec<(String, String)>>) -> (r: Option<(String, RequestUrl)>)
        ensures
            match get_url_of(path@, query_view(*query)) {
                None => r is None,
                Some(u) => match (url_stripped_of(u), url_query_of(u)) {
                    (Some(b), Some(q)) => r matches Some((s, p)) && s@ == u && p.base@ == b
                        && str_pairs(p.query@) == q,
                    _ => r is None,
                },
            },
    {
        let joined = match url_join(BASE_URL, path) {
            Some(u) => u,
            None => {
                return None;
            },
        };
        let url = match query {
            Some(q) => match url_extend_query(joined.as_str(), q) {
                Some(u) => u,
                None => {
                    return None;
                },
            },
            None => joined,
        };
        match RequestUrl::parse(url.as_str()) {
            Some(p) => Some((url, p)),
            None => None,
        }
    }

    /// Signs a GET to `url` with the given nonce and timestamp.
    fn sign_at(
        &self,
        url: String,
        parsed: &RequestUrl,
        request: SchoologyRequest,
        oauth_nonce: String,
        oauth_timestamp: String,
    ) -> (r: PreparedRequest)
        ensures
            r.url == url,
            r.follow_redirects == request.redirects,
            encode_utf8(r.authorization@) == header_text(
                header_fields(
                    self.consumer_key@,
                    oauth_timestamp@,
                    oauth_nonce@,
                    opt_view(request.access_token),
                    signature_of(
                        "GET"@,
                        parsed.base@,
                        protocol_params(
                            self.consumer_key@,
                            oauth_timestamp@,
                            oauth_nonce@,
                            opt_view(request.access_token),
                        ) + Seq::empty() + str_pairs(parsed.query@),
                        self.consumer_secret@,
                        opt_view(request.token_secret),
                    ),
                ),
            ),
    {
        let follow_redirects = request.redirects;
        let header = OAuth1AHeader::with_nonce(
            "GET".to_owned(),
            url.clone(),
            request.access_token,
            request.token_secret,
            oauth_nonce,
            oauth_timestamp,
        );
        let authorization = header.get_header(
            "GET",
            parsed,
            None,
            self.consumer_key.as_str(),
            self.consumer_secret.as_str(),
        );
        PreparedRequest { url, authorization, follow_redirects }
    }

    /// Signs a GET to `path` with the given nonce and timestamp, without
    /// sending it. Do not pass paths that come from users: a path may leave
    /// the API root.
    pub fn sign_get(
        &self,
        path: &str,
        request: SchoologyRequest,
        oauth_nonce: String,
        oauth_timestamp: String,
    ) -> (r: Option<PreparedRequest>)
        ensures
            match get_url_of(path@, query_view(request.query)) {
                None => r is None,
                Some(u) => match get_authorization_of(
                    u,
                    self.consumer_key@,
                    self.consumer_secret@,
                    opt_view(request.access_token),
                    opt_view(request.token_secret),
                    oauth_nonce@,
                    oauth_timestamp@,
                ) {
                    None => r is None,
                    Some(h) => r matches Some(p) && p.url@ == u && encode_utf8(p.authorization@) == h
                        && p.follow_redirects == request.redirects,
                },
            },
    {
        match Self::target_url(path, &request.query) {
            Some((url, parsed)) => Some(self.sign_at(url, &parsed, request, oauth_nonce, oauth_timestamp)),
            None => None,
        }
    }

    /// Signs a GET to `path` with a fresh random nonce and the current time.
    /// Fails with `InvalidUrl` exactly where the URL cannot be built or
    /// read, and otherwise only where the random generator fails.
    pub fn prepare_get(&self, path: &str, request: SchoologyRequest) -> (r: Result<
        PreparedRequest,
        PrepareError,
    >)
        ensures
            r == Err::<PreparedRequest, PrepareError>(PrepareError::InvalidUrl) <==> !url_signable(
                path@,
                query_view(request.query),
            ),
            url_signable(path@, query_view(request.query)) ==> r is Ok || r == Err::<
                PreparedRequest,
                PrepareError,
            >(PrepareError::NoRandomness),
            r matches Ok(p) ==> {
                &&& get_url_of(path@, query_view(request.query)) == Some(p.url@)
                &&& p.follow_redirects == request.redirects
                &&& exists|n: Seq<char>, t: Seq<char>|
                    #![trigger get_authorization_of(p.url@, self.consumer_key@, self.consumer_secret@, opt_view(request.access_token), opt_view(request.token_secret), n, t)]
                    is_uuid_text(n) && is_decimal_text(t) && get_authorization_of(
                        p.url@,
                        self.consumer_key@,
                        self.consumer_secret@,
                        opt_view(request.access_token),
                        opt_view(request.token_secret),
                        n,
                        t,
                    ) == Some(encode_utf8(p.authorization@))
            },
    {
        let (url, parsed) = match Self::target_url(path, &request.query) {
            Some(x) => x,
            None => {
                return Err(PrepareError::InvalidUrl);
            },
        };
        let fresh = match OAuth1AHeader::new("GET".to_owned(), url.clone(), None, None) {
            Some(h) => h,
            None => {
                return Err(PrepareError::NoRandomness);
            },
        };
        let ghost n = fresh.oauth_nonce@;
        let ghost t = fresh.oauth_timestamp@;
        let ghost token = opt_view(request.access_token);
        let ghost secret = opt_view(request.token_secret);
        let p = self.sign_at(url, &parsed, request, fresh.oauth_nonce, fresh.oauth_timestamp);
        assert(is_uuid_text(n) && is_decimal_text(t));
        assert(get_authorization_of(
            p.url@,
            self.consumer_key@,
            self.consumer_secret@,
            token,
            secret,
            n,
            t,
        ) == Some(encode_utf8(p.authorization@)));
        Ok(p)
    }
}

} // verus!
