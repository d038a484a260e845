use base64::Engine;
use hmac::Mac;
use schoology_auth::request_tokens::{sign, CreateError, FlowError, RequestToken, RequestTokenStore};

fn now() -> i64 {
    chrono::Utc::now().timestamp()
}

fn hmac512_b64(key: &str, msg: &[u8]) -> String {
    let mut mac = hmac::Hmac::<sha2::Sha512>::new_from_slice(key.as_bytes()).unwrap();
    mac.update(msg);
    base64::engine::general_purpose::STANDARD_NO_PAD.encode(mac.finalize().into_bytes())
}

#[test]
fn request_token_scenario_verifies_once() {
    let mut store = RequestTokenStore::new();
    let t = store.create("rtok".to_string(), "s3cret".to_string(), 600).unwrap();
    assert_eq!(t.access_token, "rtok");
    assert_eq!(t.token_secret, "s3cret");
    let signature = hmac512_b64("s3cret", &t.id);
    assert_eq!(sign(&t.id, "s3cret"), signature);
    let got = store.verify(&t.id, &signature, now()).unwrap();
    assert_eq!(got.id, t.id);
    assert_eq!(got.access_token, "rtok");
    assert_eq!(got.token_secret, "s3cret");
    assert_eq!(got.expires_at, t.expires_at);
    assert!(matches!(store.verify(&t.id, &signature, now()), Err(FlowError::InvalidFlowId)));
}

#[test]
fn create_sets_expiry_from_ttl() {
    let mut store = RequestTokenStore::new();
    let before = now();
    let t = store.create("a".to_string(), "b".to_string(), 600).unwrap();
    let after = now();
    assert!(t.expires_at >= before + 600 && t.expires_at <= after + 600);
}

#[test]
fn sign_is_deterministic_and_keyed() {
    let id = [7u8; 16];
    assert_eq!(sign(&id, "k"), sign(&id, "k"));
    assert_ne!(sign(&id, "k"), sign(&id, "l"));
    assert_ne!(sign(&id, "k"), sign(&[8u8; 16], "k"));
    assert_eq!(sign(&id, "k").len(), 86);
}

#[test]
fn wrong_signature_is_refused_and_keeps_token() {
    let mut store = RequestTokenStore::new();
    let id = [1u8; 16];
    store.insert_new(id, "a".to_string(), "sec".to_string(), 60, 1000).unwrap();
    let good = sign(&id, "sec");
    let mut bad = good.clone();
    bad.pop();
    bad.push(if good.ends_with('A') { 'B' } else { 'A' });
    assert!(matches!(store.verify(&id, &bad, 1000), Err(FlowError::InvalidSignature)));
    assert!(store.verify(&id, &good, 1000).is_ok());
}

#[test]
fn expired_token_is_never_matched() {
    let mut store = RequestTokenStore::new();
    let id = [2u8; 16];
    store.insert_new(id, "a".to_string(), "sec".to_string(), 60, 1000).unwrap();
    let good = sign(&id, "sec");
    assert!(store.get(&id, 1060).is_some());
    assert!(store.get(&id, 1061).is_none());
    assert!(matches!(store.verify(&id, &good, 1061), Err(FlowError::InvalidFlowId)));
    assert!(store.verify(&id, &good, 1060).is_ok());
}

#[test]
fn unknown_flow_id_is_refused() {
    let mut store = RequestTokenStore::new();
    assert!(matches!(store.verify(&[3u8; 16], "x", 0), Err(FlowError::InvalidFlowId)));
}

#[test]
fn insert_new_errors() {
    let mut store = RequestTokenStore::new();
    let id = [4u8; 16];
    let t: RequestToken = store.insert_new(id, "a".to_string(), "b".to_string(), 10, 5).unwrap();
    assert_eq!(t.expires_at, 15);
    assert!(matches!(
        store.insert_new(id, "c".to_string(), "d".to_string(), 10, 5),
        Err(CreateError::DuplicateId)
    ));
    assert!(matches!(
        store.insert_new([5u8; 16], "c".to_string(), "d".to_string(), u64::MAX, 0),
        Err(CreateError::ExpiryOverflow)
    ));
    assert!(matches!(
        store.insert_new([5u8; 16], "c".to_string(), "d".to_string(), 1, i64::MAX),
        Err(CreateError::ExpiryOverflow)
    ));
}

#[test]
fn delete_is_idempotent() {
    let mut store = RequestTokenStore::new();
    let id = [6u8; 16];
    store.insert_new(id, "a".to_string(), "b".to_string(), 10, 5).unwrap();
    store.insert_new([9u8; 16], "a".to_string(), "b".to_string(), 10, 5).unwrap();
    store.delete(&id);
    assert!(store.get(&id, 5).is_none());
    store.delete(&id);
    assert!(store.get(&[9u8; 16], 5).is_some());
}

#[test]
fn sweep_removes_only_expired_tokens() {
    let mut store = RequestTokenStore::new();
    store.insert_new([1u8; 16], "a".to_string(), "b".to_string(), 10, 0).unwrap();
    store.insert_new([2u8; 16], "a".to_string(), "b".to_string(), 100, 0).unwrap();
    store.insert_new([3u8; 16], "a".to_string(), "b".to_string(), 50, 0).unwrap();
    store.clear_expired(50);
    assert!(store.get(&[1u8; 16], 0).is_none());
    assert!(store.get(&[2u8; 16], 0).is_some());
    assert!(store.get(&[3u8; 16], 0).is_some());
}

#[test]
fn begin_flow_stores_and_signs() {
    let mut store = RequestTokenStore::new();
    let issued = schoology_auth::oauth::OauthRequestToken {
        access_token: "rt".to_string(),
        token_secret: "s3cret".to_string(),
        ttl: 600,
    };
    let (t, sig) = schoology_auth::service::begin_flow(&mut store, issued).unwrap();
    assert_eq!(sig, hmac512_b64("s3cret", &t.id));
    assert_eq!(t.access_token, "rt");
    assert!(store.verify(&t.id, &sig, now()).is_ok());
}
