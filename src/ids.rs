//! Record identifiers: sixteen random bytes, written as a hyphenated
//! lower-case UUID.
use vstd::prelude::*;
use vstd::utf8::{decode_utf8, encode_utf8, valid_utf8, partial_valid_utf8, is_leading_byte_width_1};
use crate::primitives::{random_uuid, string_from_utf8};

verus! {

broadcast use vstd::utf8::decode_utf8_encode_utf8;

pub open spec fn hex_lower(n: u8) -> u8 {
    if n < 10 {
        (48 + n) as u8
    } else {
        (87 + n) as u8
    }
}

pub open spec fn uuid_text_upto(b: Seq<u8>, n: nat) -> Seq<u8>
    decreases n,
{
    if n == 0 {
        Seq::empty()
    } else {
        let i = (n - 1) as nat;
        let sep: Seq<u8> = if i == 4 || i == 6 || i == 8 || i == 10 {
            seq![45u8]
        } else {
            Seq::empty()
        };
        uuid_text_upto(b, i) + sep + seq![hex_lower(b[i as int] / 16), hex_lower(b[i as int] % 16)]
    }
}

/// The hyphenated lower-case text of a UUID (`8-4-4-4-12` hex digits).
pub open spec fn uuid_text(b: Seq<u8>) -> Seq<u8> {
    uuid_text_upto(b, 16)
}

pub open spec fn is_ascii_bytes(v: Seq<u8>) -> bool {
    forall|i: int| 0 <= i < v.len() ==> #[trigger] v[i] < 128
}

/// ASCII bytes are valid UTF-8.
pub proof fn lemma_ascii_valid_utf8(v: Seq<u8>)
    requires
        is_ascii_bytes(v),
    ensures
        valid_utf8(v),
{
    assert(v.subrange(0, 0) =~= Seq::<u8>::empty());
    assert(partial_valid_utf8(v, 0));
    assert forall|i: int| 0 <= 0 <= i < v.len() <= v.len() implies #[trigger] is_leading_byte_width_1(v[i]) by {
        assert(v[i] < 128);
    }
    vstd::utf8::partial_valid_utf8_extend_ascii_block(v, 0, v.len() as int);
    assert(v.subrange(0, v.len() as int) =~= v);
}

/// Turns ASCII bytes into a `String` with exactly those bytes.
pub fn ascii_string(v: Vec<u8>) -> (r: String)
    requires
        is_ascii_bytes(v@),
    ensures
        encode_utf8(r@) == v@,
{
    proof {
        lemma_ascii_valid_utf8(v@);
    }
    let r = string_from_utf8(v);
    r.unwrap()
}

pub fn hex_digit_lower(n: u8) -> (r: u8)
    requires
        n < 16,
    ensures
        r == hex_lower(n),
        r < 128,
{
    if n < 10 {
        48 + n
    } else {
        87 + n
    }
}

/// Writes a UUID as hyphenated lower-case hex text.
pub fn format_uuid(id: &[u8; 16]) -> (r: String)
    ensures
        encode_utf8(r@) == uuid_text(id@),
{
    let mut out: Vec<u8> = Vec::new();
    let mut i: usize = 0;
    while i < 16
        invariant
            i <= 16,
            id@.len() == 16,
            out@ == uuid_text_upto(id@, i as nat),
            is_ascii_bytes(out@),
        decreases 16 - i,
    {
        if i == 4 || i == 6 || i == 8 || i == 10 {
            out.push(45u8);
        }
        let b = id[i];
        out.push(hex_digit_lower(b / 16));
        out.push(hex_digit_lower(b % 16));
        proof {
            let sep: Seq<u8> = if i == 4 || i == 6 || i == 8 || i == 10 {
                seq![45u8]
            } else {
                Seq::empty()
            };
            assert(out@ =~= uuid_text_upto(id@, i as nat) + sep + seq![hex_lower(b / 16), hex_lower(b % 16)]);
        }
        i = i + 1;
    }
    ascii_string(out)
}

/// A fresh random identifier, or nothing where the system's random
/// generator fails.
pub fn new_id() -> (r: Option<[u8; 16]>) {
    random_uuid()
}

/// Compares two identifiers.
pub fn same_id(a: &[u8; 16], b: &[u8; 16]) -> (r: bool)
    ensures
        r == (a@ == b@),
{
    let mut i: usize = 0;
    while i < 16
        invariant
            i <= 16,
            a@.len() == 16,
            b@.len() == 16,
            forall|j: int| 0 <= j < i ==> a@[j] == b@[j],
        decreases 16 - i,
    {
        if a[i] != b[i] {
            return false;
        }
        i = i + 1;
    }
    assert(a@ =~= b@);
    true
}

} // verus!
