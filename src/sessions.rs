//! Sessions and their bearer credentials. A credential is unpadded base64 of
//! the frame `{"type":"User","id":…,"signature":…}`; it authenticates only
//! where its signature equals the stored session token exactly.
use vstd::prelude::*;
use vstd::utf8::{decode_utf8, encode_utf8, valid_utf8};
use crate::codec::{frame, lemma_parse_frame, lemma_parse_frame_sound, parse_frame, read_frame, write_frame};
use crate::ids::{format_uuid, new_id, uuid_text};
use crate::primitives::{
    base64_decode, base64_decoded_of, base64_encode, base64_of, random_secret, string_from_utf8,
    unix_now, uuid_parse, uuid_parsed_of,
};
use crate::request_tokens::CreateError;
use crate::store::{Expiring, Store, has_key, is_live, live_record_of, record_of};

verus! {

broadcast use vstd::utf8::encode_utf8_valid_utf8, vstd::utf8::encode_utf8_decode_utf8,
    vstd::utf8::decode_utf8_encode_utf8;

/// A session's lifetime: thirty days, in seconds.
pub const SESSION_LIFETIME_SECS: i64 = 2592000;

/// The user credential inside a bearer token.
pub struct AccessTokenUser {
    /// The session identifier, as hyphenated UUID text
    pub id: String,
    /// A copy of the session token
    pub signature: String,
}

/// A bearer credential; tagged so that other kinds can be added.
pub enum AccessToken {
    User(AccessTokenUser),
}

/// A credential could not be read.
#[derive(Clone, Copy, Debug, PartialEq, Eq, Structural)]
pub enum DecodeError {
    /// Not base64, not a credential frame, not UTF-8 text, or an id that is
    /// no UUID
    Malformed,
}

/// The bytes of the frame of a credential.
pub open spec fn token_frame(t: AccessToken) -> Seq<u8> {
    match t {
        AccessToken::User(u) => frame(encode_utf8(u.id@), encode_utf8(u.signature@)),
    }
}

/// The id and signature that a credential string holds, if it holds one.
pub open spec fn decoded_of(s: Seq<char>) -> Option<(Seq<char>, Seq<char>)> {
    match base64_decoded_of(s) {
        None => None,
        Some(b) => match parse_frame(b) {
            None => None,
            Some((id, sig)) => if valid_utf8(id) && valid_utf8(sig) {
                Some((decode_utf8(id), decode_utf8(sig)))
            } else {
                None
            },
        },
    }
}

pub open spec fn user_is(t: AccessToken, id: Seq<char>, sig: Seq<char>) -> bool {
    match t {
        AccessToken::User(u) => u.id@ == id && u.signature@ == sig,
    }
}

impl AccessToken {
    /// A user credential for the session `id` with the given signature.
    pub fn user(id: &[u8; 16], signature: String) -> (r: AccessToken)
        ensures
            match r {
                AccessToken::User(u) => encode_utf8(u.id@) == uuid_text(id@) && u.signature
                    == signature,
            },
    {
        AccessToken::User(AccessTokenUser { id: format_uuid(id), signature })
    }
}

/// Writes a credential: unpadded base64 of its frame.
pub fn encode(access_token: &AccessToken) -> (r: String)
    ensures
        r@ == base64_of(token_frame(*access_token)),
{
    match access_token {
        AccessToken::User(u) => {
            let bytes = write_frame(u.id.as_str().as_bytes(), u.signature.as_str().as_bytes());
            base64_encode(bytes.as_slice())
        },
    }
}

/// Reads a credential. Whatever `encode` writes reads back as the same id
/// and signature.
pub fn decode(s: &str) -> (r: Result<AccessToken, DecodeError>)
    ensures
        match decoded_of(s@) {
            None => r is Err,
            Some((id, sig)) => r matches Ok(t) && user_is(t, id, sig),
        },
        forall|id: Seq<char>, sig: Seq<char>|
            s@ == #[trigger] base64_of(frame(encode_utf8(id), encode_utf8(sig))) ==> decoded_of(s@)
                == Some((id, sig)),
{
    let decoded = base64_decode(s);
    proof {
        assert forall|id: Seq<char>, sig: Seq<char>|
            s@ == #[trigger] base64_of(frame(encode_utf8(id), encode_utf8(sig))) implies decoded_of(s@)
                == Some((id, sig)) by {
            lemma_parse_frame(encode_utf8(id), encode_utf8(sig));
        }
    }
    let bytes = match decoded {
        Some(b) => b,
        None => {
            return Err(DecodeError::Malformed);
        },
    };
    let (id, sig) = match read_frame(bytes.as_slice()) {
        Some(p) => p,
        None => {
            return Err(DecodeError::Malformed);
        },
    };
    let id = match string_from_utf8(id) {
        Some(x) => x,
        None => {
            return Err(DecodeError::Malformed);
        },
    };
    let signature = match string_from_utf8(sig) {
        Some(x) => x,
        None => {
            return Err(DecodeError::Malformed);
        },
    };
    Ok(AccessToken::User(AccessTokenUser { id, signature }))
}

/// A session as stored.
pub struct Session {
    pub id: [u8; 16],
    pub user_id: i32,
    /// The session secret, compared exactly on verification
    pub token: String,
    /// The address the session was created from; informational
    pub initial_ip: String,
    /// Seconds since the epoch after which the session is void
    pub expires_at: i64,
}

impl Expiring for Session {
    open spec fn key(&self) -> Seq<u8> {
        self.id@
    }

    open spec fn expiry(&self) -> int {
        self.expires_at as int
    }

    fn record_id(&self) -> (r: [u8; 16]) {
        self.id
    }

    fn expires_at(&self) -> (r: i64) {
        self.expires_at
    }
}

impl Session {
    /// A copy of the record.
    pub fn copy(&self) -> (r: Self)
        ensures
            r == *self,
    {
        Session {
            id: self.id,
            user_id: self.user_id,
            token: self.token.clone(),
            initial_ip: self.initial_ip.clone(),
            expires_at: self.expires_at,
        }
    }

    /// The bearer credential of this session.
    pub fn credential(&self) -> (r: String)
        ensures
            r@ == base64_of(frame(uuid_text(self.id@), encode_utf8(self.token@))),
    {
        let t = AccessToken::user(&self.id, self.token.clone());
        encode(&t)
    }
}

/// The live session under `id` whose token equals `signature`, if any.
pub open spec fn matching_session(s: Seq<Session>, id: Seq<u8>, signature: Seq<char>, now: int) -> Option<Session> {
    match live_record_of(s, id, now) {
        Some(x) => if x.token@ == signature { Some(x) } else { None },
        None => None,
    }
}

/// The sessions of signed-in users.
pub struct SessionStore {
    sessions: Store<Session>,
}

impl View for SessionStore {
    type V = Seq<Session>;

    closed spec fn view(&self) -> Seq<Session> {
        self.sessions@
    }
}

impl SessionStore {
    pub closed spec fn wf(&self) -> bool {
        self.sessions.wf()
    }

    /// An empty store.
    pub fn new() -> (r: Self)
        ensures
            r.wf(),
            r@ == Seq::<Session>::empty(),
    {
        SessionStore { sessions: Store::new() }
    }

    /// Stores a session under `id` for `user_id` that expires thirty days
    /// after `now`, and returns it.
    pub fn insert_new(
        &mut self,
        id: [u8; 16],
        user_id: i32,
        token: String,
        initial_ip: String,
        now: i64,
    ) -> (r: Result<Session, CreateError>)
        requires
            old(self).wf(),
        ensures
            final(self).wf(),
            now as int + SESSION_LIFETIME_SECS > i64::MAX ==> r == Err::<Session, CreateError>(
                CreateError::ExpiryOverflow,
            ),
            now as int + SESSION_LIFETIME_SECS <= i64::MAX && has_key(old(self)@, id@) ==> r
                == Err::<Session, CreateError>(CreateError::DuplicateId),
            now as int + SESSION_LIFETIME_SECS <= i64::MAX && !has_key(old(self)@, id@) ==> r
                == Ok::<Session, CreateError>(
                (Session {
                    id,
                    user_id,
                    token,
                    initial_ip,
                    expires_at: (now + SESSION_LIFETIME_SECS) as i64,
                }),
            ),
            r matches Ok(t) ==> final(self)@ == old(self)@.push(t),
            r is Err ==> final(self)@ == old(self)@,
    {
        if now > i64::MAX - SESSION_LIFETIME_SECS {
            return Err(CreateError::ExpiryOverflow);
        }
        let rec = Session { id, user_id, token, initial_ip, expires_at: now + SESSION_LIFETIME_SECS };
        let out = rec.copy();
        if self.sessions.insert(rec) {
            Ok(out)
        } else {
            Err(CreateError::DuplicateId)
        }
    }

    /// Creates a session for `user_id` with a fresh identifier and a fresh
    /// 256-bit secret (unpadded base64), expiring in thirty days.
    pub fn create(&mut self, user_id: i32, initial_ip: String) -> (r: Result<Session, CreateError>)
        requires
            old(self).wf(),
        ensures
            final(self).wf(),
            r matches Ok(t) ==> final(self)@ == old(self)@.push(t) && t.user_id == user_id
                && t.initial_ip == initial_ip && !has_key(old(self)@, t.id@)
                && exists|b: Seq<u8>| b.len() == 32 && t.token@ == base64_of(b),
            r matches Err(e) ==> final(self)@ == old(self)@ && (e == CreateError::NoRandomness || e
                == CreateError::DuplicateId || e == CreateError::ExpiryOverflow),
    {
        let secret = match random_secret() {
            Some(s) => s,
            None => {
                return Err(CreateError::NoRandomness);
            },
        };
        let token = base64_encode(secret.as_slice());
        let id = match new_id() {
            Some(id) => id,
            None => {
                return Err(CreateError::NoRandomness);
            },
        };
        let now = unix_now();
        self.insert_new(id, user_id, token, initial_ip, now)
    }

    /// The session under `id`, if it is live at `now`.
    pub fn get(&self, id: &[u8; 16], now: i64) -> (r: Option<Session>)
        requires
            self.wf(),
        ensures
            r == live_record_of(self@, id@, now as int),
    {
        match self.sessions.get(id, now) {
            Some(t) => Some(t.copy()),
            None => None,
        }
    }

    /// Deletes the session under `id`, if any (logout).
    pub fn delete(&mut self, id: &[u8; 16])
        requires
            old(self).wf(),
        ensures
            final(self).wf(),
            !has_key(final(self)@, id@),
            forall|k: Seq<u8>| k != id@ ==> record_of(final(self)@, k) == record_of(old(self)@, k),
    {
        self.sessions.remove(id);
    }

    /// Deletes every session that expired before `now`.
    pub fn clear_expired(&mut self, now: i64)
        requires
            old(self).wf(),
        ensures
            final(self).wf(),
            final(self)@ == old(self)@.filter(|x: Session| is_live(x, now as int)),
    {
        self.sessions.clear_expired(now);
    }

    /// The session that a bearer credential authenticates at `now`: `Err`
    /// where the credential cannot be read, `Ok(None)` where no live session
    /// has its id or the signature differs from the session token.
    pub fn verify(&self, bearer: &str, now: i64) -> (r: Result<Option<Session>, DecodeError>)
        requires
            self.wf(),
        ensures
            match decoded_of(bearer@) {
                None => r is Err,
                Some((id_text, sig)) => match uuid_parsed_of(id_text) {
                    None => r is Err,
                    Some(k) => r == Ok::<Option<Session>, DecodeError>(
                        matching_session(self@, k, sig, now as int),
                    ),
                },
            },
            forall|id: Seq<char>, b: Seq<u8>, sig: Seq<char>|
                b.len() == 16 && encode_utf8(id) == #[trigger] uuid_text(b) && bearer@ == #[trigger] base64_of(
                    frame(encode_utf8(id), encode_utf8(sig)),
                ) ==> r == Ok::<Option<Session>, DecodeError>(
                    matching_session(self@, b, sig, now as int),
                ),
    {
        let user = match decode(bearer) {
            Ok(AccessToken::User(u)) => u,
            Err(e) => {
                return Err(e);
            },
        };
        let id = match uuid_parse(user.id.as_str()) {
            Some(id) => id,
            None => {
                return Err(DecodeError::Malformed);
            },
        };
        match self.get(&id, now) {
            Some(session) => {
                if session.token == user.signature {
                    Ok(Some(session))
                } else {
                    Ok(None)
                }
            },
            None => Ok(None),
        }
    }
}

/// A credential authenticates a stored session only with the session's
/// exact token: any other signature (one byte changed, say) matches nothing,
/// and the session's own credential matches it while it is live and never
/// after it has expired.
pub proof fn lemma_credential_matches_only_exact_token(s: Seq<Session>, x: Session, sig: Seq<char>, now: int)
    requires
        crate::store::unique_keys(s),
        s.contains(x),
    ensures
        sig != x.token@ ==> matching_session(s, x.id@, sig, now) is None,
        now <= x.expires_at ==> matching_session(s, x.id@, x.token@, now) == Some(x),
        x.expires_at < now ==> matching_session(s, x.id@, x.token@, now) is None,
{
    let i = choose|i: int| 0 <= i < s.len() && s[i] == x;
    assert(s[i].key() == x.id@);
    assert(has_key(s, x.id@));
    let j = crate::store::index_of(s, x.id@);
    assert(s[j].key() == s[i].key());
}

} // verus!
