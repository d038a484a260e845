use base64::Engine;
use hmac::Mac;
use schoology_auth::client::{PrepareError, SchoologyClient, SchoologyRequest, SchoologyTokenPair};
use schoology_auth::ids::format_uuid;
use schoology_auth::numbers::{decimal_text, parse_u64};
use schoology_auth::proto::{OAuth1AHeader, RequestUrl};

fn hmac256_b64(key: &str, msg: &str) -> String {
    let mut mac = hmac::Hmac::<sha2::Sha256>::new_from_slice(key.as_bytes()).unwrap();
    mac.update(msg.as_bytes());
    base64::engine::general_purpose::STANDARD_NO_PAD.encode(mac.finalize().into_bytes())
}

fn fixed_header() -> OAuth1AHeader {
    OAuth1AHeader::with_nonce(
        "GET".to_string(),
        "https://api.schoology.com/v1/users/me?b=2&a=1".to_string(),
        Some("tok".to_string()),
        Some("tsec".to_string()),
        "n1".to_string(),
        "100".to_string(),
    )
}

#[test]
fn request_url_splits_query_and_fragment() {
    let u = RequestUrl::parse("https://api.schoology.com/v1/users/me?b=2&a=1#frag").unwrap();
    assert_eq!(u.base, "https://api.schoology.com/v1/users/me");
    assert_eq!(u.query, vec![("b".to_string(), "2".to_string()), ("a".to_string(), "1".to_string())]);
    assert!(RequestUrl::parse("not a url").is_none());
}

#[test]
fn request_url_decodes_query_pairs() {
    let u = RequestUrl::parse("https://example.com/p?k=a%20b&x=%2B").unwrap();
    assert_eq!(u.query, vec![("k".to_string(), "a b".to_string()), ("x".to_string(), "+".to_string())]);
}

#[test]
fn protocol_params_in_generation_order() {
    let h = fixed_header();
    let p = h.get_params("ck");
    let keys: Vec<&str> = p.iter().map(|(k, _)| k.as_str()).collect();
    assert_eq!(
        keys,
        vec!["oauth_consumer_key", "oauth_signature_method", "oauth_timestamp", "oauth_nonce", "oauth_version", "oauth_token"]
    );
    assert_eq!(p[1].1, "HMAC-SHA256");
    assert_eq!(p[4].1, "1.0");
    let mut h2 = fixed_header();
    h2.access_token = None;
    assert_eq!(h2.get_params("ck").len(), 5);
}

#[test]
fn signature_matches_hand_built_base_string() {
    let h = fixed_header();
    let url = RequestUrl::parse("https://api.schoology.com/v1/users/me?b=2&a=1").unwrap();
    let sig = h.generate_signature("GET", &url, None, "ck", "csec");
    let base = "GET&https%3A%2F%2Fapi.schoology.com%2Fv1%2Fusers%2Fme&a%3D1%26b%3D2%26oauth_consumer_key%3Dck%26oauth_nonce%3Dn1%26oauth_signature_method%3DHMAC-SHA256%26oauth_timestamp%3D100%26oauth_token%3Dtok%26oauth_version%3D1.0";
    assert_eq!(sig, hmac256_b64("csec&tsec", base));
}

#[test]
fn signing_key_percent_encodes_secrets() {
    let mut h = fixed_header();
    h.access_token_secret = None;
    let url = RequestUrl::parse("https://api.schoology.com/v1/x").unwrap();
    let sig = h.generate_signature("GET", &url, None, "ck", "a&b");
    let base = "GET&https%3A%2F%2Fapi.schoology.com%2Fv1%2Fx&oauth_consumer_key%3Dck%26oauth_nonce%3Dn1%26oauth_signature_method%3DHMAC-SHA256%26oauth_timestamp%3D100%26oauth_token%3Dtok%26oauth_version%3D1.0";
    assert_eq!(sig, hmac256_b64("a%26b&", base));
}

#[test]
fn parameter_order_does_not_change_signature() {
    let h = fixed_header();
    let url = RequestUrl::parse("https://api.schoology.com/v1/x?z=1").unwrap();
    let one = vec![("x".to_string(), "1".to_string()), ("k".to_string(), "b".to_string()), ("k".to_string(), "a".to_string())];
    let two = vec![("k".to_string(), "a".to_string()), ("x".to_string(), "1".to_string()), ("k".to_string(), "b".to_string())];
    let s1 = h.generate_signature("POST", &url, Some(one), "ck", "cs");
    let s2 = h.generate_signature("POST", &url, Some(two), "ck", "cs");
    assert_eq!(s1, s2);
    let s3 = h.generate_signature("POST", &url, Some(vec![("k".to_string(), "c".to_string())]), "ck", "cs");
    assert_ne!(s1, s3);
}

#[test]
fn equal_keys_sort_by_value_in_base_string() {
    let h = fixed_header();
    let url = RequestUrl::parse("https://e.com/").unwrap();
    let body = vec![("k".to_string(), "b".to_string()), ("k".to_string(), "a".to_string())];
    let sig = h.generate_signature("POST", &url, Some(body), "ck", "cs");
    let base = "POST&https%3A%2F%2Fe.com%2F&k%3Da%26k%3Db%26oauth_consumer_key%3Dck%26oauth_nonce%3Dn1%26oauth_signature_method%3DHMAC-SHA256%26oauth_timestamp%3D100%26oauth_token%3Dtok%26oauth_version%3D1.0";
    assert_eq!(sig, hmac256_b64("cs&tsec", base));
}

fn header_fields(header: &str) -> Vec<(String, String)> {
    assert!(header.starts_with("OAuth "));
    header["OAuth ".len()..]
        .split(',')
        .map(|f| {
            let (k, v) = f.split_once('=').unwrap();
            assert!(v.starts_with('"') && v.ends_with('"') && v.len() >= 2);
            (k.to_string(), v[1..v.len() - 1].to_string())
        })
        .collect()
}

#[test]
fn header_is_well_formed() {
    let h = fixed_header();
    let url = RequestUrl::parse("https://api.schoology.com/v1/users/me?b=2&a=1").unwrap();
    let header = h.get_header("GET", &url, None, "c k", "csec");
    let fields = header_fields(&header);
    let keys: Vec<&str> = fields.iter().map(|(k, _)| k.as_str()).collect();
    assert_eq!(
        keys,
        vec!["oauth_consumer_key", "oauth_nonce", "oauth_signature", "oauth_signature_method", "oauth_timestamp", "oauth_token", "oauth_version"]
    );
    assert_eq!(fields[0].1, "c%20k");
    let sig = h.generate_signature("GET", &url, None, "c k", "csec");
    let encoded = urlencoding::encode(&sig).into_owned();
    assert_eq!(fields[2].1, encoded);
    assert_eq!(fields.iter().filter(|(k, _)| k == "oauth_signature").count(), 1);
}

#[test]
fn fresh_headers_differ() {
    let a = OAuth1AHeader::new("GET".to_string(), "u".to_string(), None, None).unwrap();
    let b = OAuth1AHeader::new("GET".to_string(), "u".to_string(), None, None).unwrap();
    assert_ne!(a.oauth_nonce, b.oauth_nonce);
    assert_eq!(a.oauth_nonce.len(), 36);
    assert_eq!(uuid::Uuid::parse_str(&a.oauth_nonce).unwrap().get_version_num(), 4);
    let now = chrono::Utc::now().timestamp() as u64;
    let stamp = parse_u64(a.oauth_timestamp.as_bytes()).unwrap();
    assert!(stamp <= now && stamp + 5 >= now);
}

#[test]
fn decimal_text_writes_integers() {
    assert_eq!(decimal_text(0), "0");
    assert_eq!(decimal_text(1700000000), "1700000000");
    assert_eq!(decimal_text(-42), "-42");
    assert_eq!(decimal_text(i64::MIN), "-9223372036854775808");
    assert_eq!(decimal_text(i64::MAX), "9223372036854775807");
}

#[test]
fn parse_u64_reads_like_std() {
    assert_eq!(parse_u64(b"482910"), Some(482910));
    assert_eq!(parse_u64(b"+7"), Some(7));
    assert_eq!(parse_u64(b""), None);
    assert_eq!(parse_u64(b"+"), None);
    assert_eq!(parse_u64(b"-1"), None);
    assert_eq!(parse_u64(b"12a"), None);
    assert_eq!(parse_u64(b"18446744073709551615"), Some(u64::MAX));
    assert_eq!(parse_u64(b"18446744073709551616"), None);
}

#[test]
fn uuid_text_is_hyphenated_lower_hex() {
    let id: [u8; 16] = [0x55, 0x0e, 0x84, 0x00, 0xe2, 0x9b, 0x41, 0xd4, 0xa7, 0x16, 0x44, 0x66, 0x55, 0x44, 0x00, 0x00];
    assert_eq!(format_uuid(&id), "550e8400-e29b-41d4-a716-446655440000");
    assert_eq!(format_uuid(&id), uuid::Uuid::from_bytes(id).to_string());
}

#[test]
fn request_builders_set_fields() {
    let pair = SchoologyTokenPair { access_token: "a".to_string(), token_secret: "s".to_string() };
    let r = SchoologyRequest::new()
        .with_query_param("x".to_string(), "1".to_string())
        .with_query_param("y".to_string(), "2".to_string())
        .with_body("{}".to_string())
        .with_form_body(vec![("f".to_string(), "v".to_string())])
        .with_access_tokens(&pair)
        .redirects(false);
    assert_eq!(r.query, Some(vec![("x".to_string(), "1".to_string()), ("y".to_string(), "2".to_string())]));
    assert_eq!(r.body, Some("{}".to_string()));
    assert_eq!(r.oauth_body, Some(vec![("f".to_string(), "v".to_string())]));
    assert_eq!(r.access_token, Some("a".to_string()));
    assert_eq!(r.token_secret, Some("s".to_string()));
    assert!(!r.redirects);
    assert!(SchoologyRequest::new().redirects);
}

#[test]
fn sign_get_builds_url_and_header() {
    let client = SchoologyClient::new("ck".to_string(), "csec".to_string());
    let pair = SchoologyTokenPair { access_token: "tok".to_string(), token_secret: "tsec".to_string() };
    let req = SchoologyRequest::new()
        .with_access_tokens(&pair)
        .with_query_param("b".to_string(), "2".to_string())
        .with_query_param("a".to_string(), "1".to_string())
        .redirects(false);
    let p = client.sign_get("/v1/users/me", req, "n1".to_string(), "100".to_string()).unwrap();
    assert_eq!(p.url, "https://api.schoology.com/v1/users/me?b=2&a=1");
    assert!(!p.follow_redirects);
    let url = RequestUrl::parse(&p.url).unwrap();
    let expected = fixed_header().get_header("GET", &url, None, "ck", "csec");
    assert_eq!(p.authorization, expected);
    let fresh = client.prepare_get("/v1/oauth/request_token", SchoologyRequest::new()).unwrap();
    assert_eq!(fresh.url, "https://api.schoology.com/v1/oauth/request_token");
    assert!(fresh.authorization.starts_with("OAuth oauth_consumer_key=\"ck\",oauth_nonce=\""));
}

#[test]
fn prepare_get_refuses_unusable_urls() {
    let client = SchoologyClient::new("ck".to_string(), "csec".to_string());
    assert!(matches!(
        client.prepare_get("http://[::1", SchoologyRequest::new()),
        Err(PrepareError::InvalidUrl)
    ));
    assert!(client.sign_get("http://[::1", SchoologyRequest::new(), "n".to_string(), "1".to_string()).is_none());
}

#[test]
fn signature_is_unpadded_base64_of_32_bytes() {
    let h = fixed_header();
    let url = RequestUrl::parse("https://e.com/").unwrap();
    let sig = h.generate_signature("GET", &url, None, "ck", "cs");
    assert_eq!(sig.len(), 43);
    assert!(!sig.ends_with('='));
}
