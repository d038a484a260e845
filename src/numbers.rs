//! Decimal text of integers, written and read.
use vstd::prelude::*;
use vstd::utf8::encode_utf8;
use crate::ids::{ascii_string, is_ascii_bytes};

verus! {

/// The decimal digits of `n`, most significant first, without leading zeros.
pub open spec fn digits_of(n: nat) -> Seq<u8>
    decreases n,
{
    if n < 10 {
        seq![(48 + n) as u8]
    } else {
        digits_of(n / 10) + seq![(48 + n % 10) as u8]
    }
}

/// The decimal text of `n`, with `-` before a negative number.
pub open spec fn decimal_of(n: int) -> Seq<u8> {
    if n < 0 {
        seq![45u8] + digits_of((-n) as nat)
    } else {
        digits_of(n as nat)
    }
}

pub open spec fn is_digit(b: u8) -> bool {
    48 <= b <= 57
}

pub open spec fn all_digits(s: Seq<u8>) -> bool {
    forall|i: int| 0 <= i < s.len() ==> is_digit(#[trigger] s[i])
}

/// The number that a string of decimal digits denotes.
pub open spec fn value_of(s: Seq<u8>) -> nat
    decreases s.len(),
{
    if s.len() == 0 {
        0
    } else {
        value_of(s.drop_last()) * 10 + (s.last() - 48) as nat
    }
}

/// The text of an unsigned integer as std's `FromStr` reads it: an optional
/// `+`, then one or more decimal digits.
pub open spec fn unsigned_digits(s: Seq<u8>) -> Option<Seq<u8>> {
    let d = if s.len() > 0 && s[0] == 43u8 { s.drop_first() } else { s };
    if d.len() > 0 && all_digits(d) { Some(d) } else { None }
}

/// The value of `s` read as an unsigned decimal, if it is one and fits in 64
/// bits.
pub open spec fn parsed_u64(s: Seq<u8>) -> Option<u64> {
    match unsigned_digits(s) {
        Some(d) => if value_of(d) <= u64::MAX { Some(value_of(d) as u64) } else { None },
        None => None,
    }
}

proof fn lemma_value_prefix(s: Seq<u8>, k: int)
    requires
        0 <= k <= s.len(),
    ensures
        value_of(s) >= value_of(s.take(k)),
    decreases s.len(),
{
    if k == s.len() {
        assert(s.take(k) =~= s);
    } else {
        lemma_value_prefix(s.drop_last(), k);
        assert(s.drop_last().take(k) =~= s.take(k));
    }
}

pub proof fn lemma_digits_ascii(n: nat)
    ensures
        is_ascii_bytes(digits_of(n)),
        digits_of(n).len() >= 1,
    decreases n,
{
    if n >= 10 {
        lemma_digits_ascii(n / 10);
    }
}

pub fn push_digits(out: &mut Vec<u8>, m: u64)
    ensures
        final(out)@ == old(out)@ + digits_of(m as nat),
    decreases m,
{
    if m >= 10 {
        push_digits(out, m / 10);
    }
    out.push(48 + (m % 10) as u8);
    assert(final(out)@ =~= old(out)@ + digits_of(m as nat));
}

/// Writes `n` in decimal.
pub fn decimal_text(n: i64) -> (r: String)
    ensures
        encode_utf8(r@) == decimal_of(n as int),
{
    let mut out: Vec<u8> = Vec::new();
    let m: u64 = if n < 0 {
        out.push(45u8);
        (-(n as i128)) as u64
    } else {
        n as u64
    };
    push_digits(&mut out, m);
    proof {
        lemma_digits_ascii(m as nat);
    }
    assert(out@ =~= decimal_of(n as int));
    assert(is_ascii_bytes(out@));
    ascii_string(out)
}

/// Reads an unsigned decimal number, as `str::parse::<u64>` does: an
/// optional `+` and at least one digit, with no overflow.
pub fn parse_u64(s: &[u8]) -> (r: Option<u64>)
    ensures
        r == parsed_u64(s@),
{
    let start: usize = if s.len() > 0 && s[0] == 43u8 { 1 } else { 0 };
    let ghost d = if s@.len() > 0 && s@[0] == 43u8 { s@.drop_first() } else { s@ };
    assert(d =~= s@.subrange(start as int, s@.len() as int));
    if start >= s.len() {
        return None;
    }
    let mut acc: u64 = 0;
    let mut i: usize = start;
    while i < s.len()
        invariant
            start <= i <= s.len(),
            d == s@.subrange(start as int, s@.len() as int),
            d == (if s@.len() > 0 && s@[0] == 43u8 { s@.drop_first() } else { s@ }),
            d.len() > 0,
            all_digits(s@.subrange(start as int, i as int)),
            acc as nat == value_of(s@.subrange(start as int, i as int)),
        decreases s.len() - i,
    {
        let b = s[i];
        if b < 48 || b > 57 {
            assert(d[i - start] == b);
            assert(!all_digits(d));
            assert(unsigned_digits(s@) is None);
            return None;
        }
        let ghost pre = s@.subrange(start as int, i as int);
        assert(s@.subrange(start as int, i + 1).drop_last() =~= pre);
        if acc > (u64::MAX - (b - 48) as u64) / 10 {
            proof {
                let dig = (b - 48) as u64;
                assert(acc as int * 10 + dig > u64::MAX) by (nonlinear_arith)
                    requires
                        acc > (u64::MAX - dig) / 10,
                        dig <= 9,
                ;
                let k = i + 1 - start;
                assert(d.take(k as int) =~= s@.subrange(start as int, i + 1));
                lemma_value_prefix(d, k as int);
                assert(unsigned_digits(s@) is None || unsigned_digits(s@) == Some(d));
            }
            return None;
        }
        acc = acc * 10 + (b - 48) as u64;
        i = i + 1;
    }
    assert(s@.subrange(start as int, s@.len() as int) == d);
    Some(acc)
}

} // verus!
