//! The JSON frame of a bearer credential, `{"type":"User","id":"…",
//! "signature":"…"}`, written compactly with JSON string escapes, and read
//! back. Only the frame that `frame` writes is read.
use vstd::prelude::*;
use vstd::slice::slice_to_vec;
use crate::ids::{hex_digit_lower, hex_lower};

verus! {

/// The JSON escape of one byte: `\"`, `\\`, the short escapes of
/// backspace, tab, line feed, form feed and carriage return, `\u00xx` for the
/// other control bytes, and the byte itself otherwise.
pub open spec fn esc_byte(b: u8) -> Seq<u8> {
    if b == 34 {
        seq![92u8, 34u8]
    } else if b == 92 {
        seq![92u8, 92u8]
    } else if b == 8 {
        seq![92u8, 98u8]
    } else if b == 9 {
        seq![92u8, 116u8]
    } else if b == 10 {
        seq![92u8, 110u8]
    } else if b == 12 {
        seq![92u8, 102u8]
    } else if b == 13 {
        seq![92u8, 114u8]
    } else if b < 32 {
        seq![92u8, 117u8, 48u8, 48u8, hex_lower(b / 16), hex_lower(b % 16)]
    } else {
        seq![b]
    }
}

/// The JSON escape of a byte string.
pub open spec fn escape(s: Seq<u8>) -> Seq<u8>
    decreases s.len(),
{
    if s.len() == 0 {
        Seq::empty()
    } else {
        esc_byte(s[0]) + escape(s.drop_first())
    }
}

pub open spec fn hex_value(b: u8) -> int {
    if 48 <= b <= 57 {
        b - 48
    } else {
        b - 87
    }
}

pub open spec fn is_hex_lower(b: u8) -> bool {
    (48 <= b <= 57) || (97 <= b <= 102)
}

pub open spec fn short_escaped(v: u8) -> bool {
    v == 8 || v == 9 || v == 10 || v == 12 || v == 13
}

/// Reads one escaped byte at the start of `b` (which does not start with a
/// quote): the byte and how many bytes it took. Only the escapes that
/// `esc_byte` writes are read.
pub open spec fn unit(b: Seq<u8>) -> Option<(u8, int)> {
    if b.len() == 0 {
        None
    } else if b[0] == 92 {
        if b.len() < 2 {
            None
        } else if b[1] == 34 {
            Some((34u8, 2))
        } else if b[1] == 92 {
            Some((92u8, 2))
        } else if b[1] == 98 {
            Some((8u8, 2))
        } else if b[1] == 116 {
            Some((9u8, 2))
        } else if b[1] == 110 {
            Some((10u8, 2))
        } else if b[1] == 102 {
            Some((12u8, 2))
        } else if b[1] == 114 {
            Some((13u8, 2))
        } else if b[1] == 117 && b.len() >= 6 && b[2] == 48 && b[3] == 48 && (b[4] == 48 || b[4] == 49)
            && is_hex_lower(b[5]) && !short_escaped(((b[4] - 48) * 16 + hex_value(b[5])) as u8) {
            Some((((b[4] - 48) * 16 + hex_value(b[5])) as u8, 6))
        } else {
            None
        }
    } else if b[0] < 32 {
        None
    } else {
        Some((b[0], 1))
    }
}

/// Reads an escaped string up to its closing quote: the bytes it denotes,
/// and the position of the quote.
pub open spec fn read_string(b: Seq<u8>) -> Option<(Seq<u8>, int)>
    decreases b.len(),
{
    if b.len() == 0 {
        None
    } else if b[0] == 34 {
        Some((Seq::empty(), 0))
    } else {
        match unit(b) {
            None => None,
            Some((c, n)) => if 0 < n <= b.len() {
                match read_string(b.skip(n)) {
                    None => None,
                    Some((rest, m)) => Some((seq![c] + rest, n + m)),
                }
            } else {
                None
            },
        }
    }
}

/// `{"type":"User","id":"`
pub open spec fn frame_head() -> Seq<u8> {
    seq![
        123u8, 34u8, 116u8, 121u8, 112u8, 101u8, 34u8, 58u8, 34u8, 85u8, 115u8, 101u8, 114u8,
        34u8, 44u8, 34u8, 105u8, 100u8, 34u8, 58u8, 34u8,
    ]
}

/// `","signature":"`
pub open spec fn frame_middle() -> Seq<u8> {
    seq![34u8, 44u8, 34u8, 115u8, 105u8, 103u8, 110u8, 97u8, 116u8, 117u8, 114u8, 101u8, 34u8, 58u8, 34u8]
}

/// `"}`
pub open spec fn frame_tail() -> Seq<u8> {
    seq![34u8, 125u8]
}

/// The compact JSON of a user credential with the given id and signature.
pub open spec fn frame(id: Seq<u8>, sig: Seq<u8>) -> Seq<u8> {
    frame_head() + escape(id) + frame_middle() + escape(sig) + frame_tail()
}

/// The id and signature of a frame, if `b` is one.
pub open spec fn parse_frame(b: Seq<u8>) -> Option<(Seq<u8>, Seq<u8>)> {
    let h = frame_head().len() as int;
    if b.len() >= h && b.take(h) == frame_head() {
        match read_string(b.skip(h)) {
            None => None,
            Some((id, n)) => {
                let rest = b.skip(h + n);
                let m = frame_middle().len() as int;
                if rest.len() >= m && rest.take(m) == frame_middle() {
                    match read_string(rest.skip(m)) {
                        None => None,
                        Some((sig, k)) => if rest.skip(m + k) == frame_tail() {
                            Some((id, sig))
                        } else {
                            None
                        },
                    }
                } else {
                    None
                }
            },
        }
    } else {
        None
    }
}

pub proof fn lemma_escape_append(a: Seq<u8>, b: Seq<u8>)
    ensures
        escape(a + b) == escape(a) + escape(b),
    decreases a.len(),
{
    if a.len() == 0 {
        assert(a + b =~= b);
        assert(escape(a) + escape(b) =~= escape(b));
    } else {
        lemma_escape_append(a.drop_first(), b);
        assert((a + b).drop_first() =~= a.drop_first() + b);
        assert(escape(a + b) =~= esc_byte(a[0]) + escape(a.drop_first() + b));
    }
}

proof fn lemma_unit_esc(c: u8, tail: Seq<u8>)
    ensures
        unit(esc_byte(c) + tail) == Some((c, esc_byte(c).len() as int)),
        (esc_byte(c) + tail)[0] != 34,
        esc_byte(c).len() > 0,
{
    let b = esc_byte(c) + tail;
    if c < 32 && !short_escaped(c) {
        assert(c / 16 < 2);
        assert(b[4] == hex_lower(c / 16));
        assert(b[5] == hex_lower(c % 16));
        assert(((b[4] - 48) * 16 + hex_value(b[5])) as u8 == c);
    }
}

proof fn lemma_unit_sound(b: Seq<u8>)
    requires
        b.len() > 0,
        b[0] != 34,
        unit(b) is Some,
    ensures
        0 < (unit(b)->0).1 <= b.len(),
        b.take((unit(b)->0).1) == esc_byte((unit(b)->0).0),
{
    let (c, n) = unit(b)->0;
    if b[0] == 92 && b[1] == 117 {
        let v = ((b[4] - 48) * 16 + hex_value(b[5])) as u8;
        assert(v / 16 == b[4] - 48);
        assert(v % 16 == hex_value(b[5]));
        assert(hex_lower(v / 16) == b[4]);
        assert(hex_lower(v % 16) == b[5]);
    }
    assert(b.take(n) =~= esc_byte(c));
}

/// Reading an escaped string followed by a quote gives the string back.
pub proof fn lemma_read_escaped(s: Seq<u8>, rest: Seq<u8>)
    ensures
        read_string(escape(s) + seq![34u8] + rest) == Some((s, escape(s).len() as int)),
    decreases s.len(),
{
    let b = escape(s) + seq![34u8] + rest;
    if s.len() == 0 {
        assert(b[0] == 34);
    } else {
        let c = s[0];
        let e = esc_byte(c);
        let after = escape(s.drop_first()) + seq![34u8] + rest;
        assert(b =~= e + after);
        lemma_unit_esc(c, after);
        assert(b.skip(e.len() as int) =~= after);
        lemma_read_escaped(s.drop_first(), rest);
        assert(seq![c] + s.drop_first() =~= s);
    }
}

/// What `read_string` reads is the escape of what it returns, followed by a
/// quote.
pub proof fn lemma_read_sound(b: Seq<u8>)
    requires
        read_string(b) is Some,
    ensures
        0 <= (read_string(b)->0).1 < b.len(),
        b[(read_string(b)->0).1] == 34,
        b.take((read_string(b)->0).1) == escape((read_string(b)->0).0),
    decreases b.len(),
{
    if b[0] == 34 {
        assert(b.take(0) =~= Seq::<u8>::empty());
    } else {
        lemma_unit_sound(b);
        let (c, n) = unit(b)->0;
        lemma_read_sound(b.skip(n));
        let (r, m) = read_string(b.skip(n))->0;
        assert(escape(seq![c] + r) == esc_byte(c) + escape(r)) by {
            assert((seq![c] + r).drop_first() =~= r);
        }
        assert(b.take(n + m) =~= b.take(n) + b.skip(n).take(m));
    }
}

/// A frame reads back as the id and signature it was made of.
pub proof fn lemma_parse_frame(id: Seq<u8>, sig: Seq<u8>)
    ensures
        parse_frame(frame(id, sig)) == Some((id, sig)),
{
    let b = frame(id, sig);
    let h = frame_head().len() as int;
    assert(b.take(h) =~= frame_head());
    let tail1 = frame_middle().drop_first() + escape(sig) + frame_tail();
    assert(b.skip(h) =~= escape(id) + seq![34u8] + tail1);
    lemma_read_escaped(id, tail1);
    let n = escape(id).len() as int;
    let rest = b.skip(h + n);
    assert(rest =~= frame_middle() + escape(sig) + frame_tail());
    let m = frame_middle().len() as int;
    assert(rest.take(m) =~= frame_middle());
    assert(rest.skip(m) =~= escape(sig) + seq![34u8] + seq![125u8]);
    lemma_read_escaped(sig, seq![125u8]);
    assert(rest.skip(m + escape(sig).len()) =~= frame_tail());
}

/// Only a frame parses: what parses is the frame of what it gives.
pub proof fn lemma_parse_frame_sound(b: Seq<u8>)
    requires
        parse_frame(b) is Some,
    ensures
        b == frame((parse_frame(b)->0).0, (parse_frame(b)->0).1),
{
    let h = frame_head().len() as int;
    let (id, n) = read_string(b.skip(h))->0;
    lemma_read_sound(b.skip(h));
    let rest = b.skip(h + n);
    let m = frame_middle().len() as int;
    let (sig, k) = read_string(rest.skip(m))->0;
    lemma_read_sound(rest.skip(m));
    assert(b.skip(h).take(n) =~= b.subrange(h, h + n));
    assert(rest.skip(m).take(k) =~= rest.subrange(m, m + k));
    assert(b =~= b.take(h) + b.skip(h).take(n) + rest.take(m) + rest.skip(m).take(k) + rest.skip(m + k));
}

pub open spec fn combine(prefix: Seq<u8>, off: int, x: Option<(Seq<u8>, int)>) -> Option<(Seq<u8>, int)> {
    match x {
        None => None,
        Some((r, m)) => Some((prefix + r, off + m)),
    }
}

fn push_esc_byte(out: &mut Vec<u8>, c: u8)
    ensures
        final(out)@ == old(out)@ + esc_byte(c),
{
    if c == 34 {
        out.push(92u8);
        out.push(34u8);
    } else if c == 92 {
        out.push(92u8);
        out.push(92u8);
    } else if c == 8 {
        out.push(92u8);
        out.push(98u8);
    } else if c == 9 {
        out.push(92u8);
        out.push(116u8);
    } else if c == 10 {
        out.push(92u8);
        out.push(110u8);
    } else if c == 12 {
        out.push(92u8);
        out.push(102u8);
    } else if c == 13 {
        out.push(92u8);
        out.push(114u8);
    } else if c < 32 {
        out.push(92u8);
        out.push(117u8);
        out.push(48u8);
        out.push(48u8);
        out.push(hex_digit_lower(c / 16));
        out.push(hex_digit_lower(c % 16));
    } else {
        out.push(c);
    }
    assert(final(out)@ =~= old(out)@ + esc_byte(c));
}

/// Appends the JSON escape of `s`.
fn push_escaped(out: &mut Vec<u8>, s: &[u8])
    ensures
        final(out)@ == old(out)@ + escape(s@),
{
    let ghost start = out@;
    let mut i: usize = 0;
    assert(s@.take(0) =~= Seq::<u8>::empty());
    while i < s.len()
        invariant
            i <= s.len(),
            out@ == start + escape(s@.take(i as int)),
        decreases s.len() - i,
    {
        push_esc_byte(out, s[i]);
        proof {
            lemma_escape_append(s@.take(i as int), seq![s@[i as int]]);
            assert(s@.take(i + 1) =~= s@.take(i as int) + seq![s@[i as int]]);
            assert(escape(seq![s@[i as int]]) =~= esc_byte(s@[i as int])) by {
                assert(seq![s@[i as int]].drop_first() =~= Seq::<u8>::empty());
                assert(escape(Seq::<u8>::empty()) =~= Seq::<u8>::empty());
                assert(esc_byte(s@[i as int]) + Seq::<u8>::empty() =~= esc_byte(s@[i as int]));
            }
            assert(out@ =~= start + escape(s@.take(i + 1)));
        }
        i = i + 1;
    }
    assert(s@.take(s@.len() as int) =~= s@);
}

fn push_slice(out: &mut Vec<u8>, s: &[u8])
    ensures
        final(out)@ == old(out)@ + s@,
{
    let mut more = slice_to_vec(s);
    out.append(&mut more);
}

/// Writes the frame of a user credential.
pub fn write_frame(id: &[u8], sig: &[u8]) -> (r: Vec<u8>)
    ensures
        r@ == frame(id@, sig@),
{
    let head: [u8; 21] = [123, 34, 116, 121, 112, 101, 34, 58, 34, 85, 115, 101, 114, 34, 44, 34, 105, 100, 34, 58, 34];
    let middle: [u8; 15] = [34, 44, 34, 115, 105, 103, 110, 97, 116, 117, 114, 101, 34, 58, 34];
    let tail: [u8; 2] = [34, 125];
    assert(head@ =~= frame_head());
    assert(middle@ =~= frame_middle());
    assert(tail@ =~= frame_tail());
    let mut out: Vec<u8> = Vec::new();
    push_slice(&mut out, head.as_slice());
    push_escaped(&mut out, id);
    push_slice(&mut out, middle.as_slice());
    push_escaped(&mut out, sig);
    push_slice(&mut out, tail.as_slice());
    assert(out@ =~= frame(id@, sig@));
    out
}

fn hex_val(b: u8) -> (r: u8)
    requires
        is_hex_lower(b),
    ensures
        r as int == hex_value(b),
{
    if b <= 57 {
        b - 48
    } else {
        b - 87
    }
}

fn read_unit(b: &[u8], pos: usize) -> (r: Option<(u8, usize)>)
    requires
        pos <= b.len(),
    ensures
        match unit(b@.skip(pos as int)) {
            None => r is None,
            Some((c, n)) => r matches Some((c2, n2)) && c2 == c && n2 as int == n,
        },
{
    let ghost t = b@.skip(pos as int);
    if pos >= b.len() {
        return None;
    }
    let avail = b.len() - pos;
    assert(t.len() == avail);
    assert(t[0] == b@[pos as int]);
    let b0 = b[pos];
    if b0 == 92 {
        if avail < 2 {
            return None;
        }
        let b1 = b[pos + 1];
        assert(t[1] == b1);
        if b1 == 34 {
            Some((34u8, 2))
        } else if b1 == 92 {
            Some((92u8, 2))
        } else if b1 == 98 {
            Some((8u8, 2))
        } else if b1 == 116 {
            Some((9u8, 2))
        } else if b1 == 110 {
            Some((10u8, 2))
        } else if b1 == 102 {
            Some((12u8, 2))
        } else if b1 == 114 {
            Some((13u8, 2))
        } else if b1 == 117 && avail >= 6 {
            let (b2, b3, b4, b5) = (b[pos + 2], b[pos + 3], b[pos + 4], b[pos + 5]);
            assert(t[2] == b2 && t[3] == b3 && t[4] == b4 && t[5] == b5);
            if b2 == 48 && b3 == 48 && (b4 == 48 || b4 == 49) && ((48 <= b5 && b5 <= 57) || (97 <= b5
                && b5 <= 102)) {
                let v = (b4 - 48) * 16 + hex_val(b5);
                if v == 8 || v == 9 || v == 10 || v == 12 || v == 13 {
                    None
                } else {
                    Some((v, 6))
                }
            } else {
                None
            }
        } else {
            None
        }
    } else if b0 < 32 {
        None
    } else {
        Some((b0, 1))
    }
}

/// Reads an escaped string that starts at `start`, as `read_string` does.
fn read_string_at(b: &[u8], start: usize) -> (r: Option<(Vec<u8>, usize)>)
    requires
        start <= b.len(),
    ensures
        match read_string(b@.skip(start as int)) {
            None => r is None,
            Some((c, n)) => r matches Some((v, m)) && v@ == c && m as int == n,
        },
{
    let mut out: Vec<u8> = Vec::new();
    let mut pos: usize = start;
    assert(read_string(b@.skip(start as int)) == combine(out@, 0, read_string(b@.skip(start as int)))) by {
        match read_string(b@.skip(start as int)) {
            Some((r, m)) => {
                assert(Seq::<u8>::empty() + r =~= r);
            },
            None => {},
        }
    }
    while pos < b.len()
        invariant
            start <= pos <= b.len(),
            read_string(b@.skip(start as int)) == combine(out@, pos - start, read_string(b@.skip(pos as int))),
        decreases b.len() - pos,
    {
        let ghost t = b@.skip(pos as int);
        assert(t[0] == b@[pos as int]);
        if b[pos] == 34 {
            assert(out@ + Seq::<u8>::empty() =~= out@);
            return Some((out, pos - start));
        }
        match read_unit(b, pos) {
            None => {
                return None;
            },
            Some((c, n)) => {
                proof {
                    assert(t.skip(n as int) =~= b@.skip(pos + n));
                    match read_string(b@.skip(pos + n)) {
                        Some((r, m)) => {
                            assert(out@ + (seq![c] + r) =~= out@.push(c) + r);
                        },
                        None => {},
                    }
                }
                out.push(c);
                pos = pos + n;
            },
        }
    }
    assert(b@.skip(pos as int).len() == 0);
    None
}

fn matches_at(b: &[u8], pos: usize, pat: &[u8]) -> (r: bool)
    requires
        pos <= b.len(),
    ensures
        r == (b@.skip(pos as int).len() >= pat@.len() && b@.skip(pos as int).take(pat@.len() as int) == pat@),
{
    if b.len() - pos < pat.len() {
        return false;
    }
    let mut i: usize = 0;
    while i < pat.len()
        invariant
            i <= pat.len(),
            pos + pat.len() <= b.len(),
            forall|j: int| 0 <= j < i ==> b@[pos + j] == #[trigger] pat@[j],
        decreases pat.len() - i,
    {
        if b[pos + i] != pat[i] {
            assert(b@.skip(pos as int).take(pat@.len() as int)[i as int] != pat@[i as int]);
            return false;
        }
        i = i + 1;
    }
    assert(b@.skip(pos as int).take(pat@.len() as int) =~= pat@);
    true
}

/// Reads a frame: its id and signature, as `parse_frame` gives them.
pub fn read_frame(b: &[u8]) -> (r: Option<(Vec<u8>, Vec<u8>)>)
    ensures
        match parse_frame(b@) {
            None => r is None,
            Some((id, sig)) => r matches Some((x, y)) && x@ == id && y@ == sig,
        },
{
    let head: [u8; 21] = [123, 34, 116, 121, 112, 101, 34, 58, 34, 85, 115, 101, 114, 34, 44, 34, 105, 100, 34, 58, 34];
    let middle: [u8; 15] = [34, 44, 34, 115, 105, 103, 110, 97, 116, 117, 114, 101, 34, 58, 34];
    let tail: [u8; 2] = [34, 125];
    assert(head@ =~= frame_head());
    assert(middle@ =~= frame_middle());
    assert(tail@ =~= frame_tail());
    assert(b@.skip(0) =~= b@);
    if !matches_at(b, 0, head.as_slice()) {
        return None;
    }
    let (id, n) = match read_string_at(b, 21) {
        Some(x) => x,
        None => {
            return None;
        },
    };
    let ghost rest = b@.skip(21 + n);
    assert(b@.skip(21).len() > n) by {
        lemma_read_sound(b@.skip(21));
    }
    assert(b@.skip(21).len() == b.len() - 21);
    assert(n < b.len() - 21);
    let p = 21 + n;
    if !matches_at(b, p, middle.as_slice()) {
        return None;
    }
    assert(b.len() - p >= 15);
    assert(rest.skip(15) =~= b@.skip(p + 15));
    let (sig, k) = match read_string_at(b, p + 15) {
        Some(x) => x,
        None => {
            return None;
        },
    };
    assert(b@.skip(p + 15).len() > k) by {
        lemma_read_sound(b@.skip(p + 15));
    }
    assert(b@.skip(p + 15).len() == b.len() - (p + 15));
    let q = p + 15 + k;
    assert(rest.skip(15 + k) =~= b@.skip(q as int));
    if b.len() - q == 2 && b[q] == 34 && b[q + 1] == 125 {
        assert(b@.skip(q as int) =~= frame_tail());
        Some((id, sig))
    } else {
        proof {
            if b@.skip(q as int) == frame_tail() {
                assert(b@.skip(q as int)[0] == b@[q as int]);
                assert(b@.skip(q as int)[1] == b@[q + 1]);
            }
        }
        None
    }
}

} // verus!
