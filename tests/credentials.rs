use base64::Engine;
use schoology_auth::codec::{read_frame, write_frame};
use schoology_auth::ids::format_uuid;
use schoology_auth::request_tokens::CreateError;
use schoology_auth::sessions::{decode, encode, AccessToken, AccessTokenUser, DecodeError, SessionStore, SESSION_LIFETIME_SECS};

fn b64(s: &str) -> String {
    base64::engine::general_purpose::STANDARD_NO_PAD.encode(s.as_bytes())
}

#[test]
fn encode_writes_tagged_compact_json() {
    let t = AccessToken::user(&[0x11u8; 16], "sig".to_string());
    let s = encode(&t);
    assert_eq!(
        s,
        b64("{\"type\":\"User\",\"id\":\"11111111-1111-1111-1111-111111111111\",\"signature\":\"sig\"}")
    );
}

#[test]
fn codec_round_trip() {
    let t = AccessToken::User(AccessTokenUser { id: "some id".to_string(), signature: "q\"b\\n\nt\u{1}x\u{7f}é".to_string() });
    let s = encode(&t);
    match decode(&s).unwrap() {
        AccessToken::User(u) => {
            assert_eq!(u.id, "some id");
            assert_eq!(u.signature, "q\"b\\n\nt\u{1}x\u{7f}é");
        }
    }
}

#[test]
fn escapes_match_json() {
    let f = write_frame(b"a\"b", b"\\\n\t\x08\x0c\r\x01\x1f");
    assert_eq!(
        String::from_utf8(f.clone()).unwrap(),
        "{\"type\":\"User\",\"id\":\"a\\\"b\",\"signature\":\"\\\\\\n\\t\\b\\f\\r\\u0001\\u001f\"}"
    );
    assert_eq!(read_frame(&f), Some((b"a\"b".to_vec(), b"\\\n\t\x08\x0c\r\x01\x1f".to_vec())));
}

#[test]
fn decode_rejects_malformed() {
    assert!(matches!(decode("!!!"), Err(DecodeError::Malformed)));
    assert!(matches!(decode(&b64("{\"type\":\"Admin\",\"id\":\"x\",\"signature\":\"y\"}")), Err(DecodeError::Malformed)));
    assert!(matches!(decode(&b64("{\"type\":\"User\",\"id\":\"x\",\"signature\":\"y\"} ")), Err(DecodeError::Malformed)));
    assert!(matches!(decode(&b64("{\"type\":\"User\",\"id\":\"x\\u0041\",\"signature\":\"y\"}")), Err(DecodeError::Malformed)));
    assert!(read_frame(b"{\"type\":\"User\",\"id\":\"x").is_none());
}

#[test]
fn session_verify_round_trip_and_tamper() {
    let mut store = SessionStore::new();
    let s = store.insert_new([0xabu8; 16], 7, "tok".to_string(), "1.2.3.4".to_string(), 1000).unwrap();
    assert_eq!(s.expires_at, 1000 + SESSION_LIFETIME_SECS);
    let good = s.credential();
    let found = store.verify(&good, 1000).unwrap().unwrap();
    assert_eq!(found.user_id, 7);
    assert_eq!(found.token, "tok");
    let tampered = encode(&AccessToken::user(&[0xabu8; 16], "tol".to_string()));
    assert!(store.verify(&tampered, 1000).unwrap().is_none());
    let unknown = encode(&AccessToken::user(&[0xacu8; 16], "tok".to_string()));
    assert!(store.verify(&unknown, 1000).unwrap().is_none());
    let not_uuid = encode(&AccessToken::User(AccessTokenUser { id: "nope".to_string(), signature: "tok".to_string() }));
    assert!(matches!(store.verify(&not_uuid, 1000), Err(DecodeError::Malformed)));
    assert!(store.verify(&good, 1000 + SESSION_LIFETIME_SECS + 1).unwrap().is_none());
}

#[test]
fn session_id_alone_does_not_authenticate() {
    let mut store = SessionStore::new();
    store.insert_new([1u8; 16], 1, "secret".to_string(), "ip".to_string(), 0).unwrap();
    let bare = encode(&AccessToken::user(&[1u8; 16], String::new()));
    assert!(store.verify(&bare, 0).unwrap().is_none());
}

#[test]
fn session_create_and_logout() {
    let mut store = SessionStore::new();
    let s = store.create(42, "10.0.0.1".to_string()).unwrap();
    assert_eq!(s.user_id, 42);
    assert_eq!(s.initial_ip, "10.0.0.1");
    assert_eq!(s.token.len(), 43);
    let now = chrono::Utc::now().timestamp();
    assert!(store.verify(&s.credential(), now).unwrap().is_some());
    store.delete(&s.id);
    assert!(store.verify(&s.credential(), now).unwrap().is_none());
    store.delete(&s.id);
}

#[test]
fn session_insert_errors_and_sweep() {
    let mut store = SessionStore::new();
    store.insert_new([1u8; 16], 1, "a".to_string(), "ip".to_string(), 0).unwrap();
    assert!(matches!(store.insert_new([1u8; 16], 2, "b".to_string(), "ip".to_string(), 0), Err(CreateError::DuplicateId)));
    assert!(matches!(store.insert_new([2u8; 16], 2, "b".to_string(), "ip".to_string(), i64::MAX), Err(CreateError::ExpiryOverflow)));
    store.insert_new([3u8; 16], 3, "c".to_string(), "ip".to_string(), 100).unwrap();
    store.clear_expired(SESSION_LIFETIME_SECS + 1);
    assert!(store.get(&[1u8; 16], 0).is_none());
    assert!(store.get(&[3u8; 16], 0).is_some());
}

#[test]
fn credential_id_text_is_uuid() {
    let id = [0x55u8, 0x0e, 0x84, 0x00, 0xe2, 0x9b, 0x41, 0xd4, 0xa7, 0x16, 0x44, 0x66, 0x55, 0x44, 0x00, 0x00];
    match AccessToken::user(&id, "s".to_string()) {
        AccessToken::User(u) => assert_eq!(u.id, format_uuid(&id)),
    }
}
