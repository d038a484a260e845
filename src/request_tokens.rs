//! Short-lived request tokens. The client holds only the token's identifier
//! and a signature of it made with the remote token secret, which it never
//! sees.
use vstd::prelude::*;
use vstd::utf8::encode_utf8;
use crate::ids::new_id;
use crate::primitives::{base64_encode, base64_of, hmac_sha512, hmac_sha512_of, unix_now};
use crate::store::{Expiring, Store, has_key, index_of, live_record_of, record_of, is_live};

verus! {

/// A request token as stored.
pub struct RequestToken {
    /// The flow handle given to the client
    pub id: [u8; 16],
    /// The remote API's request token
    pub access_token: String,
    /// The remote API's token secret; never sent to the client
    pub token_secret: String,
    /// Seconds since the epoch after which the token is void
    pub expires_at: i64,
}

impl Expiring for RequestToken {
    open spec fn key(&self) -> Seq<u8> {
        self.id@
    }

    open spec fn expiry(&self) -> int {
        self.expires_at as int
    }

    fn record_id(&self) -> (r: [u8; 16]) {
        self.id
    }

    fn expires_at(&self) -> (r: i64) {
        self.expires_at
    }
}

impl RequestToken {
    /// A copy of the record.
    pub fn copy(&self) -> (r: Self)
        ensures
            r == *self,
    {
        RequestToken {
            id: self.id,
            access_token: self.access_token.clone(),
            token_secret: self.token_secret.clone(),
            expires_at: self.expires_at,
        }
    }
}

/// Why a presented flow handle was refused.
#[derive(Clone, Copy, Debug, PartialEq, Eq, Structural)]
pub enum FlowError {
    /// No live token has this identifier
    InvalidFlowId,
    /// The signature does not match the token
    InvalidSignature,
}

/// Why a record could not be created.
#[derive(Clone, Copy, Debug, PartialEq, Eq, Structural)]
pub enum CreateError {
    /// The identifier is already in use
    DuplicateId,
    /// The expiry time does not fit in 64 bits
    ExpiryOverflow,
    /// The system's random generator failed
    NoRandomness,
}

/// The capability proof for a request token: unpadded base64 of the
/// HMAC-SHA512 of the identifier's sixteen bytes, keyed by the token secret.
pub open spec fn request_signature(id: Seq<u8>, token_secret: Seq<char>) -> Seq<char> {
    base64_of(hmac_sha512_of(encode_utf8(token_secret), id))
}

/// Signs a request token's identifier with its token secret.
pub fn sign(id: &[u8; 16], token_secret: &str) -> (r: String)
    ensures
        r@ == request_signature(id@, token_secret@),
{
    let mac = hmac_sha512(token_secret.as_bytes(), id.as_slice());
    base64_encode(mac.as_slice())
}

/// The request tokens of flows in progress.
pub struct RequestTokenStore {
    tokens: Store<RequestToken>,
}

impl View for RequestTokenStore {
    type V = Seq<RequestToken>;

    closed spec fn view(&self) -> Seq<RequestToken> {
        self.tokens@
    }
}

impl RequestTokenStore {
    pub closed spec fn wf(&self) -> bool {
        self.tokens.wf()
    }

    /// An empty store.
    pub fn new() -> (r: Self)
        ensures
            r.wf(),
            r@ == Seq::<RequestToken>::empty(),
    {
        RequestTokenStore { tokens: Store::new() }
    }

    /// Stores a token under `id` that expires `ttl` seconds after `now`,
    /// and returns it.
    pub fn insert_new(
        &mut self,
        id: [u8; 16],
        access_token: String,
        token_secret: String,
        ttl: u64,
        now: i64,
    ) -> (r: Result<RequestToken, CreateError>)
        requires
            old(self).wf(),
        ensures
            final(self).wf(),
            now as int + ttl as int > i64::MAX ==> r == Err::<RequestToken, CreateError>(
                CreateError::ExpiryOverflow,
            ),
            now as int + ttl as int <= i64::MAX && has_key(old(self)@, id@) ==> r == Err::<
                RequestToken,
                CreateError,
            >(CreateError::DuplicateId),
            now as int + ttl as int <= i64::MAX && !has_key(old(self)@, id@) ==> r == Ok::<
                RequestToken,
                CreateError,
            >(
                (RequestToken {
                    id,
                    access_token,
                    token_secret,
                    expires_at: (now + ttl) as i64,
                }),
            ),
            r matches Ok(t) ==> final(self)@ == old(self)@.push(t),
            r is Err ==> final(self)@ == old(self)@,
    {
        if now as i128 + ttl as i128 > i64::MAX as i128 {
            return Err(CreateError::ExpiryOverflow);
        }
        let rec = RequestToken { id, access_token, token_secret, expires_at: (now as i128 + ttl as i128) as i64 };
        let out = rec.copy();
        if self.tokens.insert(rec) {
            Ok(out)
        } else {
            Err(CreateError::DuplicateId)
        }
    }

    /// Stores a token with a fresh random identifier that expires `ttl`
    /// seconds from now.
    pub fn create(&mut self, access_token: String, token_secret: String, ttl: u64) -> (r: Result<
        RequestToken,
        CreateError,
    >)
        requires
            old(self).wf(),
        ensures
            final(self).wf(),
            r matches Ok(t) ==> final(self)@ == old(self)@.push(t) && t.access_token == access_token
                && t.token_secret == token_secret && !has_key(old(self)@, t.id@),
            r matches Err(e) ==> final(self)@ == old(self)@ && (e == CreateError::DuplicateId || e
                == CreateError::ExpiryOverflow || e == CreateError::NoRandomness),
    {
        let id = match new_id() {
            Some(id) => id,
            None => {
                return Err(CreateError::NoRandomness);
            },
        };
        let now = unix_now();
        self.insert_new(id, access_token, token_secret, ttl, now)
    }

    /// The token under `id`, if it is live at `now`.
    pub fn get(&self, id: &[u8; 16], now: i64) -> (r: Option<RequestToken>)
        requires
            self.wf(),
        ensures
            r == live_record_of(self@, id@, now as int),
    {
        match self.tokens.get(id, now) {
            Some(t) => Some(t.copy()),
            None => None,
        }
    }

    /// Deletes the token under `id`, if any.
    pub fn delete(&mut self, id: &[u8; 16])
        requires
            old(self).wf(),
        ensures
            final(self).wf(),
            !has_key(final(self)@, id@),
            forall|k: Seq<u8>| k != id@ ==> record_of(final(self)@, k) == record_of(old(self)@, k),
    {
        self.tokens.remove(id);
    }

    /// Checks a presented flow handle and, where it is good, consumes the
    /// token in the same step: a token is accepted at most once.
    pub fn verify(&mut self, id: &[u8; 16], signature: &str, now: i64) -> (r: Result<
        RequestToken,
        FlowError,
    >)
        requires
            old(self).wf(),
        ensures
            final(self).wf(),
            match live_record_of(old(self)@, id@, now as int) {
                None => {
                    &&& r == Err::<RequestToken, FlowError>(FlowError::InvalidFlowId)
                    &&& final(self)@ == old(self)@
                },
                Some(t) => if signature@ == request_signature(id@, t.token_secret@) {
                    &&& r == Ok::<RequestToken, FlowError>(t)
                    &&& final(self)@ == old(self)@.remove(index_of(old(self)@, id@))
                    &&& !has_key(final(self)@, id@)
                } else {
                    &&& r == Err::<RequestToken, FlowError>(FlowError::InvalidSignature)
                    &&& final(self)@ == old(self)@
                },
            },
    {
        let secret = match self.tokens.get(id, now) {
            Some(t) => t.token_secret.clone(),
            None => {
                return Err(FlowError::InvalidFlowId);
            },
        };
        let expected = sign(id, secret.as_str());
        let presented = signature.to_owned();
        if expected != presented {
            return Err(FlowError::InvalidSignature);
        }
        match self.tokens.take_if_live(id, now) {
            Some(t) => Ok(t),
            None => Err(FlowError::InvalidFlowId),
        }
    }

    /// Deletes every token that expired before `now`.
    pub fn clear_expired(&mut self, now: i64)
        requires
            old(self).wf(),
        ensures
            final(self).wf(),
            final(self)@ == old(self)@.filter(|x: RequestToken| is_live(x, now as int)),
    {
        self.tokens.clear_expired(now);
    }
}

/// A request token is single-use: once stored (as `create` leaves the
/// store), presenting its identifier with its signature is accepted; the
/// accepted token is removed (as `verify` leaves the store), so presenting it
/// again, at any time, finds no live token and is refused as
/// `InvalidFlowId`.
pub proof fn lemma_request_token_single_use(s: Seq<RequestToken>, t: RequestToken, now: int, later: int)
    requires
        crate::store::unique_keys(s),
        !has_key(s, t.id@),
        now <= t.expires_at,
    ensures
        live_record_of(s.push(t), t.id@, now) == Some(t),
        live_record_of(s.push(t).remove(index_of(s.push(t), t.id@)), t.id@, later) is None,
{
    crate::store::lemma_added_then_taken(s, t, now, later);
}

} // verus!
