//! Who the remote user is. The identity endpoint answers with a redirect
//! whose last path segment is the numeric user id; the redirect is read, not
//! followed.
use vstd::prelude::*;
use vstd::utf8::encode_utf8;
use crate::client::BASE_URL;
use crate::ids::ascii_string;
use crate::numbers::{digits_of, lemma_digits_ascii, parse_u64, parsed_u64, push_digits};
use crate::primitives::{str_seqs, url_join, url_joined_of, url_path_segments, url_segments_of};

verus! {

#[derive(Clone, Copy, Debug, PartialEq, Eq, Structural)]
pub enum GetUserIdError {
    /// Not found
    NotFound,
    /// Unauthorized
    Unauthorized,
    /// Other
    Other,
}

/// A remote user's profile.
pub struct SchoologyUser {
    pub id: usize,
    pub school_id: usize,
    pub name_first: String,
    pub name_last: String,
    pub primary_email: String,
    pub picture_url: String,
}

#[derive(Clone, Copy, Debug, PartialEq, Eq, Structural)]
pub enum GetSchoologyUserError {
    /// Unauthorized
    Unauthorized,
    /// Other
    Other,
}

/// The user id that a redirect target names: the last path segment of the
/// target resolved against the API root, read as an unsigned number.
pub open spec fn redirect_user_id(location: Seq<char>) -> Option<nat> {
    match url_joined_of(BASE_URL@, location) {
        None => None,
        Some(u) => match url_segments_of(u) {
            None => None,
            Some(segs) => if segs.len() == 0 {
                None
            } else {
                match parsed_u64(encode_utf8(segs.last())) {
                    Some(n) => if n <= usize::MAX {
                        Some(n as nat)
                    } else {
                        None
                    },
                    None => None,
                }
            },
        },
    }
}

/// Reads the user id from the target of the identity redirect.
pub fn user_id_from_location(location: &str) -> (r: Option<usize>)
    ensures
        match redirect_user_id(location@) {
            None => r is None,
            Some(n) => r == Some(n as usize),
        },
{
    let url = match url_join(BASE_URL, location) {
        Some(u) => u,
        None => {
            return None;
        },
    };
    let segs = match url_path_segments(url.as_str()) {
        Some(s) => s,
        None => {
            return None;
        },
    };
    if segs.len() == 0 {
        return None;
    }
    let last = &segs[segs.len() - 1];
    assert(str_seqs(segs@).last() == last@);
    match parse_u64(last.as_str().as_bytes()) {
        Some(n) => {
            if n as u128 <= usize::MAX as u128 {
                Some(n as usize)
            } else {
                None
            }
        },
        None => None,
    }
}

/// The outcome of the identity call, from the HTTP status and the
/// `Location` header (`None` where the request failed or the header is
/// missing or not text): 303 with a readable target is the user id, 404 is
/// `NotFound`, 401 `Unauthorized`, anything else `Other`.
pub fn user_id_outcome(status: Option<u16>, location: Option<String>) -> (r: Result<usize, GetUserIdError>)
    ensures
        status == Some(404u16) ==> r == Err::<usize, GetUserIdError>(GetUserIdError::NotFound),
        status == Some(401u16) ==> r == Err::<usize, GetUserIdError>(GetUserIdError::Unauthorized),
        status != Some(303u16) && status != Some(404u16) && status != Some(401u16) ==> r == Err::<
            usize,
            GetUserIdError,
        >(GetUserIdError::Other),
        status == Some(303u16) ==> match location {
            None => r == Err::<usize, GetUserIdError>(GetUserIdError::Other),
            Some(l) => match redirect_user_id(l@) {
                None => r == Err::<usize, GetUserIdError>(GetUserIdError::Other),
                Some(n) => r == Ok::<usize, GetUserIdError>(n as usize),
            },
        },
{
    match status {
        Some(303u16) => match location {
            Some(l) => match user_id_from_location(l.as_str()) {
                Some(n) => Ok(n),
                None => Err(GetUserIdError::Other),
            },
            None => Err(GetUserIdError::Other),
        },
        Some(404u16) => Err(GetUserIdError::NotFound),
        Some(401u16) => Err(GetUserIdError::Unauthorized),
        _ => Err(GetUserIdError::Other),
    }
}

/// The outcome of the profile call: 200 hands on the body text to be read
/// as a profile, 401 is `Unauthorized`, anything else `Other`.
pub fn schoology_user_outcome(status: Option<u16>, body: Option<String>) -> (r: Result<
    String,
    GetSchoologyUserError,
>)
    ensures
        status == Some(200u16) && body is Some ==> r == Ok::<String, GetSchoologyUserError>(
            body->0,
        ),
        status == Some(200u16) && body is None ==> r == Err::<String, GetSchoologyUserError>(
            GetSchoologyUserError::Other,
        ),
        status == Some(401u16) ==> r == Err::<String, GetSchoologyUserError>(
            GetSchoologyUserError::Unauthorized,
        ),
        status != Some(200u16) && status != Some(401u16) ==> r == Err::<
            String,
            GetSchoologyUserError,
        >(GetSchoologyUserError::Other),
{
    match status {
        Some(200u16) => match body {
            Some(text) => Ok(text),
            None => Err(GetSchoologyUserError::Other),
        },
        Some(401u16) => Err(GetSchoologyUserError::Unauthorized),
        _ => Err(GetSchoologyUserError::Other),
    }
}

/// The bytes of `/v1/users/`.
pub open spec fn users_prefix() -> Seq<u8> {
    seq![47u8, 118u8, 49u8, 47u8, 117u8, 115u8, 101u8, 114u8, 115u8, 47u8]
}

/// The path of a user's profile: `/v1/users/` and the id in decimal.
pub fn user_path(user_id: u64) -> (r: String)
    ensures
        encode_utf8(r@) == users_prefix() + digits_of(user_id as nat),
{
    let mut out: Vec<u8> = Vec::new();
    let prefix: [u8; 10] = [47, 118, 49, 47, 117, 115, 101, 114, 115, 47];
    assert(prefix@ =~= users_prefix());
    let mut i: usize = 0;
    while i < 10
        invariant
            i <= 10,
            out@ == prefix@.take(i as int),
        decreases 10 - i,
    {
        out.push(prefix[i]);
        assert(out@ =~= prefix@.take(i + 1));
        i = i + 1;
    }
    push_digits(&mut out, user_id);
    proof {
        lemma_digits_ascii(user_id as nat);
        assert(prefix@.take(10) =~= users_prefix());
    }
    ascii_string(out)
}

} // verus!
