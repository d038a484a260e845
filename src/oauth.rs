//! The two OAuth legs: what a response of the remote API means, for the
//! request-token call and for the access-token call.
use vstd::prelude::*;
use vstd::utf8::encode_utf8;
use crate::client::SchoologyTokenPair;
use crate::numbers::{parse_u64, parsed_u64};
use crate::primitives::{form_pairs, form_pairs_of, str_pairs};

verus! {

/// The fields of a request-token response body.
pub struct OauthRequestTokenResponse {
    /// The oauth token
    pub oauth_token: String,
    /// The oauth token secret
    pub oauth_token_secret: String,
    /// The oauth token time to live
    pub xoauth_token_ttl: usize,
}

/// A request token as the remote API issued it.
pub struct OauthRequestToken {
    /// The oauth token
    pub access_token: String,
    /// The oauth token secret
    pub token_secret: String,
    /// The oauth token time to live, in seconds
    pub ttl: usize,
}

#[derive(Clone, Copy, Debug, PartialEq, Eq, Structural)]
pub enum OauthRequestTokenError {
    /// Application not authorized
    Unauthorized,
    /// Other error
    Other,
}

/// The fields of an access-token response body.
pub struct OauthAccessTokenResponse {
    /// The oauth token
    pub oauth_token: String,
    /// The oauth token secret
    pub oauth_token_secret: String,
}

#[derive(Clone, Copy, Debug, PartialEq, Eq, Structural)]
pub enum AccessTokenError {
    /// Expired / non-existent request token or application not authorized
    Unauthorized,
    /// Other error
    Other,
}

/// How many pairs have key `k`.
pub open spec fn key_count(s: Seq<(Seq<char>, Seq<char>)>, k: Seq<char>) -> nat
    decreases s.len(),
{
    if s.len() == 0 {
        0
    } else {
        key_count(s.drop_last(), k) + if s.last().0 == k { 1nat } else { 0nat }
    }
}

/// The value of the last pair with key `k`.
pub open spec fn value_for(s: Seq<(Seq<char>, Seq<char>)>, k: Seq<char>) -> Seq<char>
    decreases s.len(),
{
    if s.len() == 0 {
        Seq::empty()
    } else if s.last().0 == k {
        s.last().1
    } else {
        value_for(s.drop_last(), k)
    }
}

/// The value of field `k`, where exactly one pair has that key (a missing or
/// repeated field is an error, as for a struct read from a form).
pub open spec fn field_of(s: Seq<(Seq<char>, Seq<char>)>, k: Seq<char>) -> Option<Seq<char>> {
    if key_count(s, k) == 1 {
        Some(value_for(s, k))
    } else {
        None
    }
}

/// What a request-token response body holds: token, secret and lifetime.
pub open spec fn request_token_of(body: Seq<char>) -> Option<(Seq<char>, Seq<char>, nat)> {
    match form_pairs_of(body) {
        None => None,
        Some(p) => match (
            field_of(p, "oauth_token"@),
            field_of(p, "oauth_token_secret"@),
            field_of(p, "xoauth_token_ttl"@),
        ) {
            (Some(a), Some(b), Some(t)) => match parsed_u64(encode_utf8(t)) {
                Some(n) => if n <= usize::MAX {
                    Some((a, b, n as nat))
                } else {
                    None
                },
                None => None,
            },
            _ => None,
        },
    }
}

/// What an access-token response body holds: token and secret.
pub open spec fn access_token_of(body: Seq<char>) -> Option<(Seq<char>, Seq<char>)> {
    match form_pairs_of(body) {
        None => None,
        Some(p) => match (field_of(p, "oauth_token"@), field_of(p, "oauth_token_secret"@)) {
            (Some(a), Some(b)) => Some((a, b)),
            _ => None,
        },
    }
}

/// The value of field `key` in `pairs`, as `field_of` gives it.
pub fn find_field(pairs: &Vec<(String, String)>, key: &str) -> (r: Option<String>)
    ensures
        match field_of(str_pairs(pairs@), key@) {
            None => r is None,
            Some(v) => r matches Some(x) && x@ == v,
        },
{
    let k = key.to_owned();
    let mut count: usize = 0;
    let mut found: Option<String> = None;
    let mut i: usize = 0;
    while i < pairs.len()
        invariant
            i <= pairs.len(),
            k@ == key@,
            count as nat == key_count(str_pairs(pairs@).take(i as int), key@),
            count <= i,
            count > 0 ==> (found matches Some(x) && x@ == value_for(str_pairs(pairs@).take(i as int), key@)),
        decreases pairs.len() - i,
    {
        let ghost s = str_pairs(pairs@);
        proof {
            assert(s.take(i + 1).drop_last() =~= s.take(i as int));
            assert(s.take(i + 1).last() == pairs@[i as int]@);
        }
        if pairs[i].0 == k {
            count = count + 1;
            found = Some(pairs[i].1.clone());
        }
        i = i + 1;
    }
    assert(str_pairs(pairs@).take(pairs@.len() as int) =~= str_pairs(pairs@));
    if count == 1 {
        found
    } else {
        None
    }
}

/// Reads a request-token response body.
pub fn parse_request_token(body: &str) -> (r: Option<OauthRequestTokenResponse>)
    ensures
        match request_token_of(body@) {
            None => r is None,
            Some((a, b, n)) => r matches Some(t) && t.oauth_token@ == a && t.oauth_token_secret@ == b
                && t.xoauth_token_ttl as nat == n,
        },
{
    let pairs = match form_pairs(body) {
        Some(p) => p,
        None => {
            return None;
        },
    };
    let token = find_field(&pairs, "oauth_token");
    let secret = find_field(&pairs, "oauth_token_secret");
    let ttl = find_field(&pairs, "xoauth_token_ttl");
    match (token, secret, ttl) {
        (Some(oauth_token), Some(oauth_token_secret), Some(ttl)) => {
            match parse_u64(ttl.as_str().as_bytes()) {
                Some(n) => {
                    if n as u128 <= usize::MAX as u128 {
                        Some(
                            OauthRequestTokenResponse {
                                oauth_token,
                                oauth_token_secret,
                                xoauth_token_ttl: n as usize,
                            },
                        )
                    } else {
                        None
                    }
                },
                None => None,
            }
        },
        _ => None,
    }
}

/// Reads an access-token response body.
pub fn parse_access_token(body: &str) -> (r: Option<OauthAccessTokenResponse>)
    ensures
        match access_token_of(body@) {
            None => r is None,
            Some((a, b)) => r matches Some(t) && t.oauth_token@ == a && t.oauth_token_secret@ == b,
        },
{
    let pairs = match form_pairs(body) {
        Some(p) => p,
        None => {
            return None;
        },
    };
    let token = find_field(&pairs, "oauth_token");
    let secret = find_field(&pairs, "oauth_token_secret");
    match (token, secret) {
        (Some(oauth_token), Some(oauth_token_secret)) => Some(
            OauthAccessTokenResponse { oauth_token, oauth_token_secret },
        ),
        _ => None,
    }
}

/// The outcome of the request-token call, from the HTTP status and the body
/// text (`None` where the request or reading the body failed): 200 with a
/// readable body is the token, 401 is `Unauthorized`, anything else `Other`.
pub fn request_token_outcome(status: Option<u16>, body: Option<String>) -> (r: Result<
    OauthRequestToken,
    OauthRequestTokenError,
>)
    ensures
        status == Some(401u16) ==> r == Err::<OauthRequestToken, OauthRequestTokenError>(
            OauthRequestTokenError::Unauthorized,
        ),
        status != Some(200u16) && status != Some(401u16) ==> r == Err::<
            OauthRequestToken,
            OauthRequestTokenError,
        >(OauthRequestTokenError::Other),
        status == Some(200u16) ==> match body {
            None => r == Err::<OauthRequestToken, OauthRequestTokenError>(
                OauthRequestTokenError::Other,
            ),
            Some(text) => match request_token_of(text@) {
                None => r == Err::<OauthRequestToken, OauthRequestTokenError>(
                    OauthRequestTokenError::Other,
                ),
                Some((a, b, n)) => r matches Ok(t) && t.access_token@ == a && t.token_secret@ == b
                    && t.ttl as nat == n,
            },
        },
{
    match status {
        Some(200u16) => match body {
            Some(text) => match parse_request_token(text.as_str()) {
                Some(t) => Ok(
                    OauthRequestToken {
                        access_token: t.oauth_token,
                        token_secret: t.oauth_token_secret,
                        ttl: t.xoauth_token_ttl,
                    },
                ),
                None => Err(OauthRequestTokenError::Other),
            },
            None => Err(OauthRequestTokenError::Other),
        },
        Some(401u16) => Err(OauthRequestTokenError::Unauthorized),
        _ => Err(OauthRequestTokenError::Other),
    }
}

/// The outcome of the access-token call: 200 with a readable body is the
/// new token pair, 401 is `Unauthorized` (not yet authorized, or an expired
/// or unknown request token), anything else `Other`.
pub fn access_token_outcome(status: Option<u16>, body: Option<String>) -> (r: Result<
    SchoologyTokenPair,
    AccessTokenError,
>)
    ensures
        status == Some(401u16) ==> r == Err::<SchoologyTokenPair, AccessTokenError>(
            AccessTokenError::Unauthorized,
        ),
        status != Some(200u16) && status != Some(401u16) ==> r == Err::<
            SchoologyTokenPair,
            AccessTokenError,
        >(AccessTokenError::Other),
        status == Some(200u16) ==> match body {
            None => r == Err::<SchoologyTokenPair, AccessTokenError>(AccessTokenError::Other),
            Some(text) => match access_token_of(text@) {
                None => r == Err::<SchoologyTokenPair, AccessTokenError>(AccessTokenError::Other),
                Some((a, b)) => r matches Ok(t) && t.access_token@ == a && t.token_secret@ == b,
            },
        },
{
    match status {
        Some(200u16) => match body {
            Some(text) => match parse_access_token(text.as_str()) {
                Some(t) => Ok(
                    SchoologyTokenPair {
                        access_token: t.oauth_token,
                        token_secret: t.oauth_token_secret,
                    },
                ),
                None => Err(AccessTokenError::Other),
            },
            None => Err(AccessTokenError::Other),
        },
        Some(401u16) => Err(AccessTokenError::Unauthorized),
        _ => Err(AccessTokenError::Other),
    }
}

} // verus!
