//! UTF-16 text, as code units and as little-endian bytes.
use vstd::prelude::*;

use crate::text::{chars_of, Text};

verus! {

/// `n` is the number of a character: a code point that is no surrogate.
pub open spec fn scalar(n: int) -> bool {
    0 <= n < 0xD800 || 0xE000 <= n <= 0x10FFFF
}

/// `char::from_u32` gives the character with the number `n`, and nothing where
/// there is none.
pub assume_specification[ char::from_u32 ](n: u32) -> (r: Option<char>)
    ensures
        r == (if scalar(n as int) {
            Some(n as char)
        } else {
            None
        }),
;

/// Every character has a number, and that is no surrogate.
pub proof fn lemma_char_number(c: char)
    ensures
        scalar(c as int),
{
}

/// The code units of one character: one, or two surrogates.
pub open spec fn units(c: char) -> Seq<u16> {
    let n = c as int;
    if n < 0x10000 {
        seq![n as u16]
    } else {
        seq![(0xD800 + (n - 0x10000) / 0x400) as u16, (0xDC00 + (n - 0x10000) % 0x400) as u16]
    }
}

/// The code units of a text.
pub open spec fn utf16(s: Text) -> Seq<u16>
    decreases s.len(),
{
    if s.len() == 0 {
        Seq::empty()
    } else {
        units(s[0]) + utf16(s.skip(1))
    }
}

/// The bytes of code units, the low byte of each first.
pub open spec fn le_bytes(u: Seq<u16>) -> Seq<u8> {
    Seq::new(
        2 * u.len(),
        |i: int|
            if i % 2 == 0 {
                (u[i / 2] % 256) as u8
            } else {
                (u[i / 2] / 256) as u8
            },
    )
}

/// A text as UTF-16 in little-endian bytes, without a terminator.
pub open spec fn utf16_le(s: Text) -> Seq<u8> {
    le_bytes(utf16(s))
}

/// The code units that the bytes hold, the low byte of each first. A last single
/// byte belongs to none.
pub open spec fn le_units(b: Seq<u8>) -> Seq<u16> {
    Seq::new(b.len() / 2, |i: int| (b[2 * i] as int + 256 * b[2 * i + 1]) as u16)
}

pub open spec fn high_surrogate(u: u16) -> bool {
    0xD800 <= u < 0xDC00
}

pub open spec fn low_surrogate(u: u16) -> bool {
    0xDC00 <= u < 0xE000
}

/// The text of code units, where each surrogate has its partner.
pub open spec fn decoded(u: Seq<u16>) -> Option<Text>
    decreases u.len(),
{
    if u.len() == 0 {
        Some(Seq::empty())
    } else if !high_surrogate(u[0]) && !low_surrogate(u[0]) {
        match decoded(u.skip(1)) {
            Some(rest) => Some(seq![u[0] as char] + rest),
            None => None,
        }
    } else if high_surrogate(u[0]) && u.len() >= 2 && low_surrogate(u[1]) {
        match decoded(u.skip(2)) {
            Some(rest) => Some(
                seq![(0x10000 + (u[0] - 0xD800) * 0x400 + (u[1] - 0xDC00)) as char] + rest,
            ),
            None => None,
        }
    } else {
        None
    }
}

/// Encodes a text as UTF-16.
pub fn encode(s: &[char]) -> (r: Vec<u16>)
    ensures
        r@ == utf16(s@),
{
    let mut out: Vec<u16> = Vec::new();
    let n: usize = s.len();
    assert(s@.skip(0) =~= s@);
    for i in 0..n
        invariant
            n == s@.len(),
            out@ + utf16(s@.skip(i as int)) == utf16(s@),
    {
        let ghost before = out@;
        let ch: char = s[i];
        proof {
            lemma_char_number(ch);
        }
        let c: u32 = ch as u32;
        assert(s@.skip(i as int).skip(1) =~= s@.skip(i + 1));
        if c < 0x10000 {
            out.push(c as u16);
        } else {
            let d: u32 = c - 0x10000;
            out.push((0xD800 + d / 0x400) as u16);
            out.push((0xDC00 + d % 0x400) as u16);
        }
        assert(out@ =~= before + units(s@[i as int]));
        assert(before + (units(s@[i as int]) + utf16(s@.skip(i + 1))) =~= out@ + utf16(s@.skip(i + 1)));
    }
    assert(out@ + utf16(s@.skip(n as int)) =~= out@);
    out
}

/// The bytes of code units, the low byte of each first.
pub fn bytes_of(u: &[u16]) -> (r: Vec<u8>)
    ensures
        r@ == le_bytes(u@),
{
    let mut out: Vec<u8> = Vec::new();
    let n: usize = u.len();
    for i in 0..n
        invariant
            n == u@.len(),
            out@ == le_bytes(u@).take(2 * i),
    {
        out.push((u[i] % 256) as u8);
        out.push((u[i] / 256) as u8);
        assert(le_bytes(u@).take(2 * (i + 1)) =~= le_bytes(u@).take(2 * i).push(le_bytes(u@)[2 * i]).push(
            le_bytes(u@)[2 * i + 1],
        ));
    }
    assert(le_bytes(u@).take(2 * n) =~= le_bytes(u@));
    out
}

/// Converts a string to UTF-16 little-endian bytes.
pub fn utf16_to_bytes(s: &str) -> (r: Vec<u8>)
    ensures
        r@ == utf16_le(s@),
{
    bytes_of(&encode(&chars_of(s)))
}

/// Converts a string to a wide string with a terminating zero.
pub fn to_wstring(s: &str) -> (r: Vec<u16>)
    ensures
        r@ == utf16(s@).push(0),
{
    let mut r = encode(&chars_of(s));
    r.push(0);
    r
}

/// The code units that bytes hold, from index `from` on.
pub fn units_of(b: &[u8], from: usize) -> (r: Vec<u16>)
    requires
        from <= b@.len(),
    ensures
        r@ == le_units(b@.skip(from as int)),
{
    let mut out: Vec<u16> = Vec::new();
    let ghost tail = b@.skip(from as int);
    let len: usize = b.len();
    let count: usize = (len - from) / 2;
    for i in 0..count
        invariant
            len == b@.len(),
            from <= len,
            tail == b@.skip(from as int),
            count == (b@.len() - from) / 2,
            out@ == le_units(tail).take(i as int),
    {
        let lo: u16 = b[from + 2 * i] as u16;
        let hi: u16 = b[from + 2 * i + 1] as u16;
        out.push(lo + 256 * hi);
        assert(le_units(tail).take(i + 1) =~= le_units(tail).take(i as int).push(le_units(tail)[i as int]));
    }
    assert(le_units(tail).take(count as int) =~= le_units(tail));
    out
}

/// Decodes UTF-16; gives nothing where a surrogate stands alone.
pub fn decode(u: &[u16]) -> (r: Option<Vec<char>>)
    ensures
        (match r {
            Some(v) => Some(v@),
            None => None,
        }) == decoded(u@),
{
    let mut out: Vec<char> = Vec::new();
    let n: usize = u.len();
    let mut i: usize = 0;
    assert(u@.skip(0) =~= u@);
    assert(decoded(u@) is Some ==> decoded(u@)->0 =~= out@ + decoded(u@)->0);
    while i < n
        invariant
            n == u@.len(),
            i <= n,
            decoded(u@) == (match decoded(u@.skip(i as int)) {
                Some(rest) => Some(out@ + rest),
                None => None,
            }),
        decreases n - i,
    {
        let ghost here = u@.skip(i as int);
        let ghost before = out@;
        let a: u16 = u[i];
        assert(here[0] == a);
        if a < 0xD800 || a >= 0xE000 {
            let c = match char::from_u32(a as u32) {
                Some(c) => c,
                None => {
                    return None;
                },
            };
            out.push(c);
            assert(here.skip(1) =~= u@.skip(i + 1));
            proof {
                if let Some(rest) = decoded(here.skip(1)) {
                    assert(before + (seq![c] + rest) =~= out@ + rest);
                }
            }
            i += 1;
        } else if a < 0xDC00 && n - i >= 2 && 0xDC00 <= u[i + 1] && u[i + 1] < 0xE000 {
            let b: u16 = u[i + 1];
            assert(here[1] == b);
            let code: u32 = 0x10000 + ((a - 0xD800) as u32) * 0x400 + ((b - 0xDC00) as u32);
            let c = match char::from_u32(code) {
                Some(c) => c,
                None => {
                    return None;
                },
            };
            out.push(c);
            assert(here.skip(2) =~= u@.skip(i + 2));
            proof {
                if let Some(rest) = decoded(here.skip(2)) {
                    assert(before + (seq![c] + rest) =~= out@ + rest);
                }
            }
            i += 2;
        } else {
            return None;
        }
    }
    assert(u@.skip(n as int) =~= Seq::<u16>::empty());
    assert(out@ + Seq::<char>::empty() =~= out@);
    Some(out)
}

/// Decoding gives back the text that was encoded.
pub proof fn lemma_decode_of_encode(s: Text)
    ensures
        decoded(utf16(s)) == Some(s),
    decreases s.len(),
{
    if s.len() > 0 {
        let rest = s.skip(1);
        lemma_decode_of_encode(rest);
        let u = utf16(s);
        let head = units(s[0]);
        assert(u.skip(head.len() as int) =~= utf16(rest));
        assert(seq![s[0]] + rest =~= s);
        let n = s[0] as int;
        lemma_char_number(s[0]);
        if n >= 0x10000 {
            let d = n - 0x10000;
            assert((d / 0x400) * 0x400 + d % 0x400 == d);
            assert(u[0] == head[0] && u[1] == head[1]);
        } else {
            assert(u[0] == head[0]);
        }
    } else {
        assert(s =~= Seq::<char>::empty());
    }
}

/// Encoding gives back the code units that were decoded.
pub proof fn lemma_encode_of_decode(u: Seq<u16>)
    requires
        decoded(u) is Some,
    ensures
        utf16(decoded(u)->0) == u,
    decreases u.len(),
{
    if u.len() == 0 {
        assert(u =~= Seq::<u16>::empty());
    } else {
        let s = decoded(u)->0;
        let k: int = if high_surrogate(u[0]) { 2 } else { 1 };
        lemma_encode_of_decode(u.skip(k));
        assert(s.skip(1) =~= decoded(u.skip(k))->0);
        if k == 1 {
            assert(units(s[0]) =~= seq![u[0]]);
        } else {
            let a = u[0] - 0xD800;
            let b = u[1] - 0xDC00;
            assert((a * 0x400 + b) / 0x400 == a && (a * 0x400 + b) % 0x400 == b);
            assert(units(s[0]) =~= seq![u[0], u[1]]);
        }
        assert(utf16(s) =~= u);
    }
}

/// The code units can be read back from the bytes.
pub proof fn lemma_units_of_bytes(u: Seq<u16>)
    ensures
        le_units(le_bytes(u)) == u,
{
    assert forall|i: int| 0 <= i < u.len() implies #[trigger] le_units(le_bytes(u))[i] == u[i] by {
        assert((2 * i) / 2 == i && (2 * i + 1) / 2 == i && (2 * i) % 2 == 0 && (2 * i + 1) % 2 == 1);
    }
    assert(le_units(le_bytes(u)) =~= u);
}

/// A text is read back from its UTF-16 little-endian bytes.
pub proof fn lemma_text_of_utf16_le(s: Text)
    ensures
        decoded(le_units(utf16_le(s))) == Some(s),
{
    lemma_units_of_bytes(utf16(s));
    lemma_decode_of_encode(s);
}

/// The bytes can be read back from the code units, where there is no single byte.
pub proof fn lemma_bytes_of_units(b: Seq<u8>)
    requires
        b.len() % 2 == 0,
    ensures
        le_bytes(le_units(b)) == b,
{
    let u = le_units(b);
    assert forall|i: int| 0 <= i < b.len() implies #[trigger] le_bytes(u)[i] == b[i] by {
        let k = i / 2;
        let lo = b[2 * k] as int;
        let hi = b[2 * k + 1] as int;
        assert((lo + 256 * hi) % 256 == lo && (lo + 256 * hi) / 256 == hi);
    }
    assert(le_bytes(u) =~= b);
}

/// A text in UTF-16 has, for each further character, two bytes more, the low one first;
/// or four, of two surrogates, for a character beyond the first 65536.
pub proof fn law_bytes_of_characters(s: Text, c: char)
    ensures
        utf16_le(Seq::empty()) == Seq::<u8>::empty(),
        (c as int) < 0x10000 ==> utf16_le(s.push(c)) == utf16_le(s) + seq![
            ((c as int) % 256) as u8,
            ((c as int) / 256) as u8,
        ],
        (c as int) >= 0x10000 ==> ({
            let high = 0xD800 + ((c as int) - 0x10000) / 1024;
            let low = 0xDC00 + ((c as int) - 0x10000) % 1024;
            utf16_le(s.push(c)) == utf16_le(s) + seq![
                (high % 256) as u8,
                (high / 256) as u8,
                (low % 256) as u8,
                (low / 256) as u8,
            ]
        }),
        utf16(s.push(c)).len() == utf16(s).len() + (if (c as int) < 0x10000 { 1int } else { 2 }),
{
    assert(utf16(Seq::empty()) =~= Seq::<u16>::empty());
    assert(utf16_le(Seq::empty()) =~= Seq::<u8>::empty());
    lemma_utf16_push(s, c);
    lemma_char_number(c);
    let u = utf16(s);
    let more = utf16(s.push(c));
    let old = le_bytes(u);
    let new = le_bytes(more);
    let n = u.len() as int;
    assert forall|i: int| 0 <= i < old.len() implies new[i] == old[i] by {
        assert(more[i / 2] == u[i / 2]);
    }
    if (c as int) < 0x10000 {
        assert(more[n] == c as int);
        assert((2 * n) / 2 == n && (2 * n + 1) / 2 == n && (2 * n + 1) % 2 == 1);
        assert(new =~= old + seq![((c as int) % 256) as u8, ((c as int) / 256) as u8]);
    } else {
        let high = 0xD800 + ((c as int) - 0x10000) / 1024;
        let low = 0xDC00 + ((c as int) - 0x10000) % 1024;
        assert(more[n] == high && more[n + 1] == low);
        assert((2 * n) / 2 == n && (2 * n + 1) / 2 == n && (2 * n + 1) % 2 == 1);
        assert((2 * n + 2) / 2 == n + 1 && (2 * n + 3) / 2 == n + 1 && (2 * n + 3) % 2 == 1);
        assert(new =~= old + seq![
            (high % 256) as u8,
            (high / 256) as u8,
            (low % 256) as u8,
            (low / 256) as u8,
        ]);
    }
}

proof fn lemma_utf16_push(s: Text, c: char)
    ensures
        utf16(s.push(c)) == utf16(s) + units(c),
    decreases s.len(),
{
    let all = s.push(c);
    if s.len() > 0 {
        lemma_utf16_push(s.skip(1), c);
        assert(all.skip(1) =~= s.skip(1).push(c));
        assert(all[0] == s[0]);
        assert(units(s[0]) + (utf16(s.skip(1)) + units(c)) =~= units(s[0]) + utf16(s.skip(1)) + units(c));
    } else {
        assert(all.skip(1) =~= Seq::<char>::empty());
        assert(utf16(all.skip(1)) =~= Seq::<u16>::empty());
        assert(utf16(all) =~= units(c));
        assert(utf16(s) + units(c) =~= units(c));
    }
}

/// Bytes are a text in UTF-16 exactly where writing some text gives them, and reading
/// them gives that text. A last single byte is passed over.
pub proof fn law_utf16_is_read_back(s: Text, b: Seq<u8>)
    ensures
        decoded(le_units(utf16_le(s))) == Some(s),
        b.len() % 2 == 0 ==> (decoded(le_units(b)) matches Some(t) ==> utf16_le(t) == b),
{
    lemma_text_of_utf16_le(s);
    if decoded(le_units(b)) is Some && b.len() % 2 == 0 {
        lemma_encode_of_decode(le_units(b));
        lemma_bytes_of_units(b);
    }
}

} // verus!
