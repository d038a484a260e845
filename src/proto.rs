//! OAuth 1.0a request signing with HMAC-SHA256: the normalized parameter
//! string, the signature base string, the signing key, the signature and the
//! `Authorization` header.
use vstd::multiset::Multiset;
use vstd::prelude::*;
use vstd::slice::slice_to_vec;
use vstd::utf8::encode_utf8;
use crate::ids::{ascii_string, format_uuid, is_ascii_bytes, uuid_text};
use crate::numbers::{decimal_of, decimal_text};
use crate::order::{
    canonical_order, lemma_canonical_order_permutation, lemma_pair_order_total, pair_order, pairs_view,
    sort_pairs,
};
use crate::primitives::{
    base64_encode, base64_of, hmac_sha256, hmac_sha256_of, is_unreserved, pct_byte, pct_bytes,
    percent_encode, random_uuid, str_pairs, unix_now, url_query_of, url_query_pairs, url_stripped_of, url_without_query,
};

verus! {

/// A request URL as the signature reads it: the URL without query and
/// fragment, and its decoded query pairs.
pub struct RequestUrl {
    pub base: String,
    pub query: Vec<(String, String)>,
}

impl RequestUrl {
    /// Parses an absolute URL; `None` where it is not one.
    pub fn parse(s: &str) -> (r: Option<RequestUrl>)
        ensures
            r is None <==> (url_stripped_of(s@) is None || url_query_of(s@) is None),
            r matches Some(u) ==> url_stripped_of(s@) == Some(u.base@) && url_query_of(s@) == Some(
                str_pairs(u.query@),
            ),
    {
        let base = url_without_query(s);
        let query = url_query_pairs(s);
        match (base, query) {
            (Some(base), Some(query)) => Some(RequestUrl { base, query }),
            _ => None,
        }
    }
}

/// The parameters of one signed request, with its nonce and timestamp.
pub struct OAuth1AHeader {
    /// The request method, e.g. "GET" or "POST"
    pub request_method: String,
    /// The full request URL
    pub request_url: String,
    /// The user's access token, if the request is made for a user
    pub access_token: Option<String>,
    /// The user's token secret
    pub access_token_secret: Option<String>,
    /// A value used once
    pub oauth_nonce: String,
    /// Seconds since the Unix epoch, in decimal
    pub oauth_timestamp: String,
}

/// The text of some UUID: hyphenated lower-case hex of sixteen bytes.
pub open spec fn is_uuid_text(s: Seq<char>) -> bool {
    exists|b: Seq<u8>| b.len() == 16 && encode_utf8(s) == #[trigger] uuid_text(b)
}

/// The decimal text of some 64-bit integer.
pub open spec fn is_decimal_text(s: Seq<char>) -> bool {
    exists|t: i64| encode_utf8(s) == #[trigger] decimal_of(t as int)
}

pub open spec fn opt_view(o: Option<String>) -> Option<Seq<char>> {
    match o {
        Some(s) => Some(s@),
        None => None,
    }
}

pub open spec fn utf8_pair(p: (Seq<char>, Seq<char>)) -> (Seq<u8>, Seq<u8>) {
    (encode_utf8(p.0), encode_utf8(p.1))
}

pub open spec fn utf8_pairs(s: Seq<(Seq<char>, Seq<char>)>) -> Seq<(Seq<u8>, Seq<u8>)> {
    s.map_values(|p: (Seq<char>, Seq<char>)| utf8_pair(p))
}

/// The protocol parameters of a request, in the order they are generated.
pub open spec fn protocol_params(
    consumer_key: Seq<char>,
    timestamp: Seq<char>,
    nonce: Seq<char>,
    token: Option<Seq<char>>,
) -> Seq<(Seq<char>, Seq<char>)> {
    let fixed = seq![
        ("oauth_consumer_key"@, consumer_key),
        ("oauth_signature_method"@, "HMAC-SHA256"@),
        ("oauth_timestamp"@, timestamp),
        ("oauth_nonce"@, nonce),
        ("oauth_version"@, "1.0"@),
    ];
    match token {
        Some(t) => fixed.push(("oauth_token"@, t)),
        None => fixed,
    }
}

/// `key=value`, both percent-encoded.
pub open spec fn encoded_pair(p: (Seq<u8>, Seq<u8>)) -> Seq<u8> {
    pct_bytes(p.0) + seq![61u8] + pct_bytes(p.1)
}

/// The encoded pairs joined with `&`.
pub open spec fn join_encoded(s: Seq<(Seq<u8>, Seq<u8>)>) -> Seq<u8>
    decreases s.len(),
{
    if s.len() == 0 {
        Seq::empty()
    } else if s.len() == 1 {
        encoded_pair(s[0])
    } else {
        join_encoded(s.drop_last()) + seq![38u8] + encoded_pair(s.last())
    }
}

/// The normalized parameter string: the parameters in canonical order,
/// encoded and joined.
pub open spec fn normalized_params(all: Seq<(Seq<char>, Seq<char>)>) -> Seq<u8> {
    join_encoded(canonical_order(utf8_pairs(all)))
}

/// `METHOD&ENCODED_URL&ENCODED_PARAMS`.
pub open spec fn base_string(method: Seq<char>, url_base: Seq<char>, all: Seq<(Seq<char>, Seq<char>)>) -> Seq<u8> {
    encode_utf8(method) + seq![38u8] + pct_bytes(encode_utf8(url_base)) + seq![38u8] + pct_bytes(
        normalized_params(all),
    )
}

pub open spec fn secret_or_empty(s: Option<Seq<char>>) -> Seq<char> {
    match s {
        Some(t) => t,
        None => Seq::empty(),
    }
}

/// `percentEncode(consumer secret) & percentEncode(token secret or "")`.
pub open spec fn signing_key(consumer_secret: Seq<char>, token_secret: Option<Seq<char>>) -> Seq<u8> {
    pct_bytes(encode_utf8(consumer_secret)) + seq![38u8] + pct_bytes(
        encode_utf8(secret_or_empty(token_secret)),
    )
}

/// The request signature: unpadded base64 of the HMAC-SHA256 of the base
/// string under the signing key.
pub open spec fn signature_of(
    method: Seq<char>,
    url_base: Seq<char>,
    all: Seq<(Seq<char>, Seq<char>)>,
    consumer_secret: Seq<char>,
    token_secret: Option<Seq<char>>,
) -> Seq<char> {
    base64_of(hmac_sha256_of(signing_key(consumer_secret, token_secret), base_string(method, url_base, all)))
}

pub open spec fn opt_pairs(o: Option<Vec<(String, String)>>) -> Seq<(Seq<char>, Seq<char>)> {
    match o {
        Some(v) => str_pairs(v@),
        None => Seq::empty(),
    }
}

/// `key="value"`, both percent-encoded.
pub open spec fn header_entry(p: (Seq<u8>, Seq<u8>)) -> Seq<u8> {
    pct_bytes(p.0) + seq![61u8, 34u8] + pct_bytes(p.1) + seq![34u8]
}

/// The header entries joined with `,`.
pub open spec fn join_entries(s: Seq<(Seq<u8>, Seq<u8>)>) -> Seq<u8>
    decreases s.len(),
{
    if s.len() == 0 {
        Seq::empty()
    } else if s.len() == 1 {
        header_entry(s[0])
    } else {
        join_entries(s.drop_last()) + seq![44u8] + header_entry(s.last())
    }
}

/// The bytes of `"OAuth "`.
pub open spec fn oauth_prefix() -> Seq<u8> {
    seq![79u8, 65u8, 117u8, 116u8, 104u8, 32u8]
}

/// The fields of the header: the protocol parameters and the signature, in
/// canonical order.
pub open spec fn header_fields(
    consumer_key: Seq<char>,
    timestamp: Seq<char>,
    nonce: Seq<char>,
    token: Option<Seq<char>>,
    signature: Seq<char>,
) -> Seq<(Seq<u8>, Seq<u8>)> {
    canonical_order(
        utf8_pairs(protocol_params(consumer_key, timestamp, nonce, token).push(("oauth_signature"@, signature))),
    )
}

pub open spec fn header_text(fields: Seq<(Seq<u8>, Seq<u8>)>) -> Seq<u8> {
    oauth_prefix() + join_entries(fields)
}

pub proof fn lemma_pct_ascii(s: Seq<u8>)
    ensures
        is_ascii_bytes(pct_bytes(s)),
        forall|i: int| 0 <= i < pct_bytes(s).len() ==> #[trigger] pct_bytes(s)[i] != 34u8 && pct_bytes(s)[i] != 44u8,
    decreases s.len(),
{
    if s.len() > 0 {
        lemma_pct_ascii(s.drop_last());
        let b = s.last();
        let a = pct_bytes(s.drop_last());
        let c = pct_byte(b);
        assert(pct_bytes(s) == a + c);
        assert forall|i: int| 0 <= i < (a + c).len() implies #[trigger] (a + c)[i] < 128 && (a + c)[i] != 34u8 && (a + c)[i] != 44u8 by {
            if i >= a.len() {
                if !is_unreserved(b) {
                    assert(b / 16 < 16);
                }
            }
        }
    }
}

proof fn lemma_join_entries_ascii(s: Seq<(Seq<u8>, Seq<u8>)>)
    ensures
        is_ascii_bytes(join_entries(s)),
    decreases s.len(),
{
    if s.len() > 0 {
        let e = s.last();
        lemma_pct_ascii(e.0);
        lemma_pct_ascii(e.1);
        let h = header_entry(e);
        assert(is_ascii_bytes(h));
        if s.len() > 1 {
            lemma_join_entries_ascii(s.drop_last());
            let j = join_entries(s.drop_last()) + seq![44u8] + h;
            assert(is_ascii_bytes(j));
        }
    }
}

proof fn lemma_utf8_pairs_multiset(a: Seq<(Seq<char>, Seq<char>)>, b: Seq<(Seq<char>, Seq<char>)>)
    requires
        a.to_multiset() == b.to_multiset(),
    ensures
        utf8_pairs(a).to_multiset() == utf8_pairs(b).to_multiset(),
    decreases a.len(),
{
    broadcast use vstd::seq_lib::group_to_multiset_ensures;

    if a.len() == 0 {
        assert(b.len() == 0) by {
            vstd::seq_lib::to_multiset_len(a);
            vstd::seq_lib::to_multiset_len(b);
        }
        assert(utf8_pairs(a) =~= utf8_pairs(b));
    } else {
        let x = a.last();
        assert(a.to_multiset().contains(x));
        let j = choose|j: int| 0 <= j < b.len() && b[j] == x;
        let a1 = a.drop_last();
        let b1 = b.remove(j);
        assert(a =~= a1.push(x));
        vstd::seq_lib::to_multiset_build(a1, x);
        vstd::seq_lib::to_multiset_remove(b, j);
        assert(a1.to_multiset() =~= b1.to_multiset());
        lemma_utf8_pairs_multiset(a1, b1);
        assert(utf8_pairs(a) =~= utf8_pairs(a1).push(utf8_pair(x)));
        vstd::seq_lib::to_multiset_build(utf8_pairs(a1), utf8_pair(x));
        assert(utf8_pairs(b) =~= utf8_pairs(b1).insert(j, utf8_pair(x)));
        vstd::seq_lib::to_multiset_insert(utf8_pairs(b1), j, utf8_pair(x));
    }
}

/// The order in which parameters are supplied does not matter: body and
/// query parameters that are the same multiset in another order give the
/// same normalized parameter string, base string and signature.
pub proof fn lemma_signature_order_independent(
    method: Seq<char>,
    url_base: Seq<char>,
    protocol: Seq<(Seq<char>, Seq<char>)>,
    body1: Seq<(Seq<char>, Seq<char>)>,
    query1: Seq<(Seq<char>, Seq<char>)>,
    body2: Seq<(Seq<char>, Seq<char>)>,
    query2: Seq<(Seq<char>, Seq<char>)>,
    consumer_secret: Seq<char>,
    token_secret: Option<Seq<char>>,
)
    requires
        body1.to_multiset() == body2.to_multiset(),
        query1.to_multiset() == query2.to_multiset(),
    ensures
        normalized_params(protocol + body1 + query1) == normalized_params(protocol + body2 + query2),
        base_string(method, url_base, protocol + body1 + query1) == base_string(
            method,
            url_base,
            protocol + body2 + query2,
        ),
        signature_of(method, url_base, protocol + body1 + query1, consumer_secret, token_secret)
            == signature_of(method, url_base, protocol + body2 + query2, consumer_secret, token_secret),
{
    let a = protocol + body1 + query1;
    let b = protocol + body2 + query2;
    vstd::seq_lib::lemma_multiset_commutative(protocol, body1);
    vstd::seq_lib::lemma_multiset_commutative(protocol + body1, query1);
    vstd::seq_lib::lemma_multiset_commutative(protocol, body2);
    vstd::seq_lib::lemma_multiset_commutative(protocol + body2, query2);
    lemma_utf8_pairs_multiset(a, b);
    lemma_canonical_order_permutation(utf8_pairs(a), utf8_pairs(b));
}

/// No quote and no comma.
pub open spec fn no_delimiters(b: Seq<u8>) -> bool {
    forall|j: int| 0 <= j < b.len() ==> b[j] != 34u8 && b[j] != 44u8
}

/// Some field of `f` has key `k`.
pub open spec fn has_field(f: Seq<(Seq<u8>, Seq<u8>)>, k: Seq<char>) -> bool {
    exists|i: int| 0 <= i < f.len() && #[trigger] f[i].0 == encode_utf8(k)
}

proof fn lemma_two_copies<A>(s: Seq<A>, i: int, j: int)
    requires
        0 <= i < s.len(),
        0 <= j < s.len(),
        i != j,
        s[i] == s[j],
    ensures
        s.to_multiset().count(s[i]) >= 2,
{
    broadcast use vstd::seq_lib::group_to_multiset_ensures;
    broadcast use vstd::multiset::group_multiset_axioms;

    vstd::seq_lib::to_multiset_remove(s, i);
    let j2 = if j < i { j } else { j - 1 };
    assert(s.remove(i)[j2] == s[j]);
    assert(s.remove(i).contains(s[j]));
    assert(s.remove(i).to_multiset().count(s[i]) > 0);
    let m = s.to_multiset();
    assert(m.remove(s[i]).count(s[i]) == m.sub(Multiset::singleton(s[i])).count(s[i]));
    assert(Multiset::singleton(s[i]).count(s[i]) == 1);
}

proof fn lemma_utf8_injective(a: Seq<char>, b: Seq<char>)
    requires
        encode_utf8(a) == encode_utf8(b),
    ensures
        a == b,
{
    vstd::utf8::encode_utf8_decode_utf8(a);
    vstd::utf8::encode_utf8_decode_utf8(b);
}

/// The `Authorization` header is `OAuth ` followed by comma-separated
/// `key="value"` fields in which no key or value holds a quote or a comma, so
/// the fields can be told apart. Exactly one field is `oauth_signature`, and
/// it holds the signature; the consumer key, signature method, timestamp,
/// nonce and version fields are all present, and the token field where there
/// is a token.
pub proof fn lemma_header_well_formed(
    consumer_key: Seq<char>,
    timestamp: Seq<char>,
    nonce: Seq<char>,
    token: Option<Seq<char>>,
    signature: Seq<char>,
)
    ensures
        ({
            let f = header_fields(consumer_key, timestamp, nonce, token, signature);
            &&& header_text(f) == oauth_prefix() + join_entries(f)
            &&& forall|i: int|
                0 <= i < f.len() ==> no_delimiters(pct_bytes(#[trigger] f[i].0)) && no_delimiters(
                    pct_bytes(f[i].1),
                )
            &&& exists|i: int|
                0 <= i < f.len() && #[trigger] f[i] == (
                    encode_utf8("oauth_signature"@),
                    encode_utf8(signature),
                )
            &&& forall|i: int, j: int|
                0 <= i < f.len() && 0 <= j < f.len() && #[trigger] f[i].0 == encode_utf8(
                    "oauth_signature"@,
                ) && #[trigger] f[j].0 == encode_utf8("oauth_signature"@) ==> i == j
            &&& has_field(f, "oauth_consumer_key"@)
            &&& has_field(f, "oauth_signature_method"@)
            &&& has_field(f, "oauth_timestamp"@)
            &&& has_field(f, "oauth_nonce"@)
            &&& has_field(f, "oauth_version"@)
            &&& token is Some ==> has_field(f, "oauth_token"@)
        }),
{
    broadcast use vstd::seq_lib::group_to_multiset_ensures;

    let p = protocol_params(consumer_key, timestamp, nonce, token);
    let sig_key: Seq<char> = "oauth_signature"@;
    let sp = (encode_utf8(sig_key), encode_utf8(signature));
    let q = p.push((sig_key, signature));
    let pp = utf8_pairs(q);
    let f = canonical_order(pp);
    lemma_pair_order_total();
    pp.lemma_sort_by_ensures(pair_order());
    assert(f.to_multiset() == pp.to_multiset());

    assert forall|i: int| 0 <= i < f.len() implies no_delimiters(pct_bytes(#[trigger] f[i].0))
        && no_delimiters(pct_bytes(f[i].1)) by {
        lemma_pct_ascii(f[i].0);
        lemma_pct_ascii(f[i].1);
    }

    reveal_strlit("oauth_signature");
    reveal_strlit("oauth_consumer_key");
    reveal_strlit("oauth_signature_method");
    reveal_strlit("oauth_timestamp");
    reveal_strlit("oauth_nonce");
    reveal_strlit("oauth_version");
    reveal_strlit("oauth_token");
    assert("oauth_timestamp"@[6] != sig_key[6]);
    assert forall|i: int| 0 <= i < p.len() implies #[trigger] p[i].0 != sig_key by {
        if i == 2 {
            assert(p[i].0[6] != sig_key[6]);
        } else {
            assert(p[i].0.len() != sig_key.len());
        }
    }
    // the only pair in pp with the signature key is the last
    assert forall|i: int| 0 <= i < pp.len() && #[trigger] pp[i].0 == encode_utf8(sig_key) implies i
        == p.len() && pp[i] == sp by {
        assert(pp[i] == utf8_pair(q[i]));
        lemma_utf8_injective(q[i].0, sig_key);
    }
    assert(pp[p.len() as int] == sp);
    assert(pp.contains(sp));
    assert(f.to_multiset().count(sp) > 0);
    assert(f.contains(sp));
    // exactly one copy of sp in pp
    let pp0 = utf8_pairs(p);
    assert(pp =~= pp0.push(sp));
    assert(!pp0.contains(sp)) by {
        if pp0.contains(sp) {
            let k = choose|k: int| 0 <= k < pp0.len() && pp0[k] == sp;
            assert(pp[k] == pp0[k]);
            assert(pp[k].0 == encode_utf8(sig_key));
            assert(k == p.len());
        }
    }
    vstd::seq_lib::to_multiset_build(pp0, sp);
    assert(pp.to_multiset().count(sp) == 1);
    assert forall|i: int, j: int|
        0 <= i < f.len() && 0 <= j < f.len() && #[trigger] f[i].0 == encode_utf8(sig_key)
            && #[trigger] f[j].0 == encode_utf8(sig_key) implies i == j by {
        assert(f.to_multiset().count(f[i]) > 0);
        assert(pp.contains(f[i]));
        assert(f.to_multiset().count(f[j]) > 0);
        assert(pp.contains(f[j]));
        let a = choose|a: int| 0 <= a < pp.len() && pp[a] == f[i];
        let b = choose|b: int| 0 <= b < pp.len() && pp[b] == f[j];
        if i != j {
            lemma_two_copies(f, i, j);
        }
    }
    assert forall|k: int| 0 <= k < q.len() implies has_field(f, #[trigger] q[k].0) by {
        assert(pp[k] == utf8_pair(q[k]));
        assert(pp.contains(pp[k]));
        assert(f.to_multiset().count(pp[k]) > 0);
        assert(f.contains(pp[k]));
        let m = choose|m: int| 0 <= m < f.len() && f[m] == pp[k];
        assert(f[m].0 == encode_utf8(q[k].0));
    }
    assert(q[0].0 == "oauth_consumer_key"@);
    assert(q[1].0 == "oauth_signature_method"@);
    assert(q[2].0 == "oauth_timestamp"@);
    assert(q[3].0 == "oauth_nonce"@);
    assert(q[4].0 == "oauth_version"@);
    if token is Some {
        assert(q[5].0 == "oauth_token"@);
    }
}

fn to_byte_pair(p: &(String, String)) -> (r: (Vec<u8>, Vec<u8>))
    ensures
        r@ == utf8_pair(p@),
{
    (slice_to_vec(p.0.as_str().as_bytes()), slice_to_vec(p.1.as_str().as_bytes()))
}

/// Appends the byte forms of `src` to `dst`.
fn push_byte_pairs(dst: &mut Vec<(Vec<u8>, Vec<u8>)>, src: &Vec<(String, String)>)
    ensures
        pairs_view(final(dst)@) == pairs_view(old(dst)@) + utf8_pairs(str_pairs(src@)),
{
    let ghost start = pairs_view(dst@);
    let mut i: usize = 0;
    while i < src.len()
        invariant
            i <= src.len(),
            pairs_view(dst@) == start + utf8_pairs(str_pairs(src@.take(i as int))),
        decreases src.len() - i,
    {
        let p = to_byte_pair(&src[i]);
        let ghost before = dst@;
        dst.push(p);
        proof {
            assert(pairs_view(dst@) =~= pairs_view(before).push(p@));
            assert(src@.take(i + 1) =~= src@.take(i as int).push(src@[i as int]));
            assert(utf8_pairs(str_pairs(src@.take(i + 1))) =~= utf8_pairs(str_pairs(src@.take(i as int))).push(utf8_pair(src@[i as int]@)));
            assert(pairs_view(dst@) =~= start + utf8_pairs(str_pairs(src@.take(i + 1))));
        }
        i = i + 1;
    }
    assert(src@.take(src@.len() as int) =~= src@);
}

fn append_bytes(out: &mut Vec<u8>, more: Vec<u8>)
    ensures
        final(out)@ == old(out)@ + more@,
{
    let mut more = more;
    out.append(&mut more);
}

/// Joins encoded pairs: `k=v` with `&`, or `k="v"` with `,` where `quoted`.
fn join_pairs(s: &Vec<(Vec<u8>, Vec<u8>)>, quoted: bool) -> (r: Vec<u8>)
    ensures
        !quoted ==> r@ == join_encoded(pairs_view(s@)),
        quoted ==> r@ == join_entries(pairs_view(s@)),
{
    let ghost v = pairs_view(s@);
    let mut out: Vec<u8> = Vec::new();
    let mut i: usize = 0;
    while i < s.len()
        invariant
            i <= s.len(),
            v == pairs_view(s@),
            !quoted ==> out@ == join_encoded(v.take(i as int)),
            quoted ==> out@ == join_entries(v.take(i as int)),
        decreases s.len() - i,
    {
        let ghost prev = out@;
        if i > 0 {
            if quoted {
                out.push(44u8);
            } else {
                out.push(38u8);
            }
        }
        append_bytes(&mut out, percent_encode(s[i].0.as_slice()));
        if quoted {
            out.push(61u8);
            out.push(34u8);
            append_bytes(&mut out, percent_encode(s[i].1.as_slice()));
            out.push(34u8);
        } else {
            out.push(61u8);
            append_bytes(&mut out, percent_encode(s[i].1.as_slice()));
        }
        proof {
            let t = v.take(i + 1);
            assert(t.drop_last() =~= v.take(i as int));
            assert(t.last() == s@[i as int]@);
            if i == 0 {
                assert(t.len() == 1);
            }
            if quoted {
                assert(out@ =~= join_entries(t));
            } else {
                assert(out@ =~= join_encoded(t));
            }
        }
        i = i + 1;
    }
    assert(v.take(s@.len() as int) =~= v);
    out
}

impl OAuth1AHeader {
    /// A header for a request, with the given nonce and timestamp.
    pub fn with_nonce(
        request_method: String,
        request_url: String,
        access_token: Option<String>,
        access_token_secret: Option<String>,
        oauth_nonce: String,
        oauth_timestamp: String,
    ) -> (r: Self)
        ensures
            r.request_method == request_method,
            r.request_url == request_url,
            r.access_token == access_token,
            r.access_token_secret == access_token_secret,
            r.oauth_nonce == oauth_nonce,
            r.oauth_timestamp == oauth_timestamp,
    {
        OAuth1AHeader {
            request_method,
            request_url,
            access_token,
            access_token_secret,
            oauth_nonce,
            oauth_timestamp,
        }
    }

    /// A header for a request, with a fresh random UUID (hyphenated text) as
    /// its nonce and the current time (decimal seconds since the epoch) as
    /// its timestamp; nothing where the system's random generator fails.
    pub fn new(
        request_method: String,
        request_url: String,
        access_token: Option<String>,
        access_token_secret: Option<String>,
    ) -> (r: Option<Self>)
        ensures
            r matches Some(h) ==> {
                &&& h.request_method == request_method
                &&& h.request_url == request_url
                &&& h.access_token == access_token
                &&& h.access_token_secret == access_token_secret
                &&& is_uuid_text(h.oauth_nonce@)
                &&& is_decimal_text(h.oauth_timestamp@)
            },
    {
        let id = match random_uuid() {
            Some(id) => id,
            None => {
                return None;
            },
        };
        let nonce = format_uuid(&id);
        let timestamp = decimal_text(unix_now());
        assert(is_uuid_text(nonce@)) by {
            assert(id@.len() == 16);
        }
        Some(
            Self::with_nonce(
                request_method,
                request_url,
                access_token,
                access_token_secret,
                nonce,
                timestamp,
            ),
        )
    }

    /// The protocol parameters: consumer key, signature method, timestamp,
    /// nonce, version, and the user token where there is one.
    pub fn get_params(&self, consumer_key: &str) -> (r: Vec<(String, String)>)
        ensures
            str_pairs(r@) == protocol_params(
                consumer_key@,
                self.oauth_timestamp@,
                self.oauth_nonce@,
                opt_view(self.access_token),
            ),
    {
        let mut params: Vec<(String, String)> = Vec::new();
        params.push(("oauth_consumer_key".to_owned(), consumer_key.to_owned()));
        params.push(("oauth_signature_method".to_owned(), "HMAC-SHA256".to_owned()));
        params.push(("oauth_timestamp".to_owned(), self.oauth_timestamp.clone()));
        params.push(("oauth_nonce".to_owned(), self.oauth_nonce.clone()));
        params.push(("oauth_version".to_owned(), "1.0".to_owned()));
        match &self.access_token {
            Some(token) => {
                params.push(("oauth_token".to_owned(), token.clone()));
            },
            None => {},
        }
        assert(str_pairs(params@) =~= protocol_params(
            consumer_key@,
            self.oauth_timestamp@,
            self.oauth_nonce@,
            opt_view(self.access_token),
        ));
        params
    }

    /// The request signature over the protocol parameters, the body
    /// parameters and the URL's query pairs.
    pub fn generate_signature(
        &self,
        request_method: &str,
        url: &RequestUrl,
        body_params: Option<Vec<(String, String)>>,
        consumer_key: &str,
        consumer_secret: &str,
    ) -> (r: String)
        ensures
            r@ == signature_of(
                request_method@,
                url.base@,
                protocol_params(
                    consumer_key@,
                    self.oauth_timestamp@,
                    self.oauth_nonce@,
                    opt_view(self.access_token),
                ) + opt_pairs(body_params) + str_pairs(url.query@),
                consumer_secret@,
                opt_view(self.access_token_secret),
            ),
    {
        let protocol = self.get_params(consumer_key);
        let ghost all = str_pairs(protocol@) + opt_pairs(body_params) + str_pairs(url.query@);
        let mut params: Vec<(Vec<u8>, Vec<u8>)> = Vec::new();
        push_byte_pairs(&mut params, &protocol);
        match &body_params {
            Some(body) => push_byte_pairs(&mut params, body),
            None => {},
        }
        push_byte_pairs(&mut params, &url.query);
        assert(pairs_view(params@) =~= utf8_pairs(all));
        let sorted = sort_pairs(params);
        let joined = join_pairs(&sorted, false);

        let mut base = slice_to_vec(request_method.as_bytes());
        base.push(38u8);
        append_bytes(&mut base, percent_encode(url.base.as_str().as_bytes()));
        base.push(38u8);
        append_bytes(&mut base, percent_encode(joined.as_slice()));

        let mut key = percent_encode(consumer_secret.as_bytes());
        key.push(38u8);
        match &self.access_token_secret {
            Some(secret) => append_bytes(&mut key, percent_encode(secret.as_str().as_bytes())),
            None => {
                assert(encode_utf8(Seq::<char>::empty()) =~= Seq::<u8>::empty());
            },
        }
        assert(base@ =~= base_string(request_method@, url.base@, all));
        assert(key@ =~= signing_key(consumer_secret@, opt_view(self.access_token_secret)));
        let mac = hmac_sha256(key.as_slice(), base.as_slice());
        base64_encode(mac.as_slice())
    }

    /// The `Authorization` header: `OAuth ` and the protocol parameters with
    /// the signature, in canonical order, as comma-separated `key="value"`.
    pub fn get_header(
        &self,
        request_method: &str,
        url: &RequestUrl,
        body_params: Option<Vec<(String, String)>>,
        consumer_key: &str,
        consumer_secret: &str,
    ) -> (r: String)
        ensures
            encode_utf8(r@) == header_text(
                header_fields(
                    consumer_key@,
                    self.oauth_timestamp@,
                    self.oauth_nonce@,
                    opt_view(self.access_token),
                    signature_of(
                        request_method@,
                        url.base@,
                        protocol_params(
                            consumer_key@,
                            self.oauth_timestamp@,
                            self.oauth_nonce@,
                            opt_view(self.access_token),
                        ) + opt_pairs(body_params) + str_pairs(url.query@),
                        consumer_secret@,
                        opt_view(self.access_token_secret),
                    ),
                ),
            ),
    {
        let signature = self.generate_signature(
            request_method,
            url,
            body_params,
            consumer_key,
            consumer_secret,
        );
        let ghost sig = signature@;
        let mut header = self.get_params(consumer_key);
        header.push(("oauth_signature".to_owned(), signature));
        let mut fields: Vec<(Vec<u8>, Vec<u8>)> = Vec::new();
        push_byte_pairs(&mut fields, &header);
        let ghost expected = utf8_pairs(
            protocol_params(
                consumer_key@,
                self.oauth_timestamp@,
                self.oauth_nonce@,
                opt_view(self.access_token),
            ).push(("oauth_signature"@, sig)),
        );
        assert(pairs_view(fields@) =~= expected);
        let sorted = sort_pairs(fields);
        let joined = join_pairs(&sorted, true);
        let mut out: Vec<u8> = Vec::new();
        out.push(79u8);
        out.push(65u8);
        out.push(117u8);
        out.push(116u8);
        out.push(104u8);
        out.push(32u8);
        append_bytes(&mut out, joined);
        proof {
            lemma_join_entries_ascii(pairs_view(sorted@));
            assert(out@ =~= header_text(pairs_view(sorted@)));
        }
        ascii_string(out)
    }
}

} // verus!
