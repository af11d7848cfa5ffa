//! The flag in a program's header by which it may use large addresses.
use vstd::prelude::*;

use crate::number::{hex_word, push_hex_word};
use crate::text::{chars_of, string_of, Text};

verus! {

/// Where the header begins: the number in the four bytes at 0x3C, the low byte
/// first.
pub open spec fn header_at(b: Seq<u8>) -> int {
    b[0x3C] + 0x100 * b[0x3D] + 0x1_0000 * b[0x3E] + 0x100_0000 * b[0x3F]
}

/// Whether the header's signature stands at `at`.
pub open spec fn signed(b: Seq<u8>, at: int) -> bool {
    b[at] == 0x50 && b[at + 1] == 0x45 && b[at + 2] == 0 && b[at + 3] == 0
}

/// The characteristics in the header at `at`: the last word of the file header, which
/// follows the four bytes of the signature.
pub open spec fn characteristics(b: Seq<u8>, at: int) -> u16 {
    (b[at + 22] + 0x100 * b[at + 23]) as u16
}

/// `b` with the characteristics in the header at `at` set to `n`.
pub open spec fn with_characteristics(b: Seq<u8>, at: int, n: u16) -> Seq<u8> {
    b.update(at + 22, (n % 256) as u8).update(at + 23, (n / 256) as u8)
}

/// The flag: large addresses are in order.
pub const LARGE_ADDRESS_AWARE: u16 = 0x0020;

/// What setting the flag comes to.
pub enum LaaView {
    /// It was set before.
    Unchanged,
    /// The characteristics were `before`, are `after`, and the program is `bytes`.
    Changed { before: u16, after: u16, bytes: Seq<u8> },
}

/// What setting the flag of a program comes to, or why it has none.
pub open spec fn laa_set(b: Seq<u8>) -> Result<LaaView, Text> {
    if b.len() < 0x40 {
        Err("file too small to be a PE"@)
    } else if header_at(b) + 24 > b.len() {
        Err("invalid PE offset"@)
    } else if !signed(b, header_at(b)) {
        Err("PE signature not found"@)
    } else {
        let before = characteristics(b, header_at(b));
        let after = before | LARGE_ADDRESS_AWARE;
        if after == before {
            Ok(LaaView::Unchanged)
        } else {
            Ok(
                LaaView::Changed {
                    before,
                    after,
                    bytes: with_characteristics(b, header_at(b), after),
                },
            )
        }
    }
}

/// Whether the flag of a program is set. What is no program has none.
pub open spec fn laa_flag(b: Seq<u8>) -> bool {
    &&& b.len() >= 0x40
    &&& header_at(b) + 24 <= b.len()
    &&& signed(b, header_at(b))
    &&& characteristics(b, header_at(b)) & LARGE_ADDRESS_AWARE != 0
}

/// What setting the flag comes to.
pub enum Laa {
    Unchanged,
    Changed { before: u16, after: u16, bytes: Vec<u8> },
}

impl View for Laa {
    type V = LaaView;

    open spec fn view(&self) -> LaaView {
        match *self {
            Laa::Unchanged => LaaView::Unchanged,
            Laa::Changed { before, after, bytes } => LaaView::Changed {
                before,
                after,
                bytes: bytes@,
            },
        }
    }
}

/// Where the header begins.
fn read_header_at(b: &[u8]) -> (at: u64)
    requires
        b@.len() >= 0x40,
    ensures
        at == header_at(b@),
{
    b[0x3C] as u64 + 0x100 * b[0x3D] as u64 + 0x1_0000 * b[0x3E] as u64 + 0x100_0000 * b[0x3F] as u64
}

/// Whether the header's signature stands at `at`.
fn is_signed(b: &[u8], at: usize) -> (r: bool)
    requires
        at + 4 <= b@.len(),
    ensures
        r == signed(b@, at as int),
{
    b[at] == 0x50 && b[at + 1] == 0x45 && b[at + 2] == 0 && b[at + 3] == 0
}

/// The characteristics in the header at `at`.
fn read_characteristics(b: &[u8], at: usize) -> (n: u16)
    requires
        at + 24 <= b@.len(),
    ensures
        n == characteristics(b@, at as int),
{
    let len: usize = b.len();
    assert(at + 23 < len);
    b[at + 22] as u16 + 0x100 * b[at + 23] as u16
}

/// Sets the flag of a program.
pub fn set_laa(b: &Vec<u8>) -> (r: Result<Laa, String>)
    ensures
        (match r {
            Ok(l) => Ok(l@),
            Err(e) => Err(e@),
        }) == laa_set(b@),
{
    let len: usize = b.len();
    if len < 0x40 {
        return Err("file too small to be a PE".to_owned());
    }
    let offset: u64 = read_header_at(b);
    if offset + 24 > len as u64 {
        return Err("invalid PE offset".to_owned());
    }
    let at: usize = offset as usize;
    if !is_signed(b, at) {
        return Err("PE signature not found".to_owned());
    }
    let before: u16 = read_characteristics(b, at);
    let after: u16 = before | LARGE_ADDRESS_AWARE;
    if after == before {
        return Ok(Laa::Unchanged);
    }
    let mut bytes = b.clone();
    bytes.set(at + 22, (after % 256) as u8);
    bytes.set(at + 23, (after / 256) as u8);
    Ok(Laa::Changed { before, after, bytes })
}

/// Whether the flag of a program is set.
pub fn has_laa(b: &Vec<u8>) -> (r: bool)
    ensures
        r == laa_flag(b@),
{
    let len: usize = b.len();
    if len < 0x40 {
        return false;
    }
    let offset: u64 = read_header_at(b);
    if offset + 24 > len as u64 {
        return false;
    }
    let at: usize = offset as usize;
    is_signed(b, at) && read_characteristics(b, at) & LARGE_ADDRESS_AWARE != 0
}

/// How a change of the characteristics is told.
pub open spec fn change_text(before: u16, after: u16) -> Text {
    "Characteristics 0x"@ + hex_word(before) + " -> 0x"@ + hex_word(after)
}

/// Tells a change of the characteristics.
pub fn change_string(before: u16, after: u16) -> (s: String)
    ensures
        s@ == change_text(before, after),
{
    let mut out = chars_of("Characteristics 0x");
    push_hex_word(before, &mut out);
    out.extend_from_slice(&chars_of(" -> 0x"));
    push_hex_word(after, &mut out);
    assert(out@ =~= change_text(before, after));
    string_of(&out)
}

/// The program once the flag is set.
pub open spec fn with_laa(b: Seq<u8>) -> Seq<u8> {
    match laa_set(b) {
        Ok(LaaView::Changed { bytes, .. }) => bytes,
        _ => b,
    }
}

/// Whether the byte with the flag lies apart from those that say where the header
/// begins.
pub open spec fn apart(b: Seq<u8>) -> bool {
    header_at(b) + 22 < 0x3D || 0x3F < header_at(b) + 22
}

/// Setting the flag of a program sets it, and setting it once more changes nothing.
/// Left out are headers so near the start that the byte with the flag is one of
/// those that say where the header begins.
pub proof fn law_flag_is_set(b: Seq<u8>)
    requires
        laa_set(b) is Ok,
        apart(b),
    ensures
        laa_flag(with_laa(b)),
        laa_set(with_laa(b)) == Ok::<LaaView, Text>(LaaView::Unchanged),
{
    let at = header_at(b);
    let before = characteristics(b, at);
    let after = before | LARGE_ADDRESS_AWARE;
    let r = with_laa(b);
    lemma_flag_bits(before);
    if after == before {
        assert(before & LARGE_ADDRESS_AWARE != 0);
    } else {
        assert(r[at + 22] == (after % 256) as u8);
        assert(r[at + 23] == (after / 256) as u8);
        assert(b[at + 22] == before % 256 && b[at + 23] == before / 256);
        assert(before % 256 == 0x26 ==> before & 0x20u16 != 0) by (bit_vector);
        assert(at != 0x26);
        assert forall|i: int| 0x3C <= i <= 0x3F implies r[i] == b[i] by {}
        assert(header_at(r) == at);
        assert(characteristics(r, at) == after);
        assert(signed(r, at));
        lemma_flag_bits(after);
    }
}

/// The flag is one bit of the low byte.
proof fn lemma_flag_bits(n: u16)
    ensures
        (n | LARGE_ADDRESS_AWARE) & LARGE_ADDRESS_AWARE != 0,
        (n | LARGE_ADDRESS_AWARE) | LARGE_ADDRESS_AWARE == n | LARGE_ADDRESS_AWARE,
        (n | LARGE_ADDRESS_AWARE) / 256 == n / 256,
        n & LARGE_ADDRESS_AWARE != 0 <==> n | LARGE_ADDRESS_AWARE == n,
{
    assert((n | 0x20u16) & 0x20u16 != 0) by (bit_vector);
    assert((n | 0x20u16) | 0x20u16 == n | 0x20u16) by (bit_vector);
    assert((n | 0x20u16) / 256 == n / 256) by (bit_vector);
    assert(n & 0x20u16 != 0 <==> n | 0x20u16 == n) by (bit_vector);
}

/// Setting the flag changes one bit of a program and nothing else: the characteristics
/// in its header have the flag besides what they had.
pub proof fn law_one_bit_changes(b: Seq<u8>)
    requires
        laa_set(b) is Ok,
    ensures
        with_laa(b).len() == b.len(),
        forall|i: int| 0 <= i < b.len() && i != header_at(b) + 22 ==> with_laa(b)[i] == b[i],
        with_laa(b)[header_at(b) + 22] == b[header_at(b) + 22] | 0x20u8,
        characteristics(with_laa(b), header_at(b)) == characteristics(b, header_at(b)) | LARGE_ADDRESS_AWARE,
        characteristics(with_laa(b), header_at(b)) & LARGE_ADDRESS_AWARE != 0,
{
    let at = header_at(b);
    let before = characteristics(b, at);
    let low = b[at + 22];
    let high = b[at + 23];
    lemma_flag_bits(before);
    assert(before == low + 0x100 * high);
    assert(((low + 0x100 * high) as u16 | 0x20u16) % 256 == low | 0x20u8) by (bit_vector);
    assert(with_laa(b)[at + 22] == (before | LARGE_ADDRESS_AWARE) % 256);
}

/// Where the number in the four bytes at 0x3C, the lowest first, is `p` and the letters
/// P and E with two zeros stand at `p`, setting the flag of a program works: it sets one
/// bit of the byte at `p + 22` and changes nothing else. The flag counts as set exactly
/// where that bit is.
pub proof fn law_flag_stands_in_the_header(b: Seq<u8>, p: u32)
    requires
        b.len() >= 0x40,
        p + 24 <= b.len(),
        b[0x3C] == p % 0x100,
        b[0x3D] == p / 0x100 % 0x100,
        b[0x3E] == p / 0x1_0000 % 0x100,
        b[0x3F] == p / 0x100_0000,
        b.subrange(p as int, p + 4) == seq![0x50u8, 0x45u8, 0u8, 0u8],
    ensures
        laa_set(b) is Ok,
        with_laa(b).len() == b.len(),
        forall|i: int| 0 <= i < b.len() && i != p + 22 ==> with_laa(b)[i] == b[i],
        with_laa(b)[p + 22] == b[p + 22] | 0x20u8,
        with_laa(b)[p + 22] & 0x20u8 != 0,
        laa_flag(b) <==> b[p + 22] & 0x20u8 != 0,
        laa_set(b) == Ok::<LaaView, Text>(LaaView::Unchanged) <==> b[p + 22] & 0x20u8 != 0,
        b[p + 22] & 0x20u8 == 0 ==> laa_set(b) == Ok::<LaaView, Text>(
            LaaView::Changed {
                before: (b[p + 22] + 0x100 * b[p + 23]) as u16,
                after: ((b[p + 22] | 0x20u8) + 0x100 * b[p + 23]) as u16,
                bytes: b.update(p + 22, b[p + 22] | 0x20u8),
            },
        ),
{
    assert(header_at(b) == p);
    let four = b.subrange(p as int, p + 4);
    assert(four[0] == b[p as int] && four[1] == b[p + 1] && four[2] == b[p + 2] && four[3] == b[p + 3]);
    assert(signed(b, p as int));
    law_one_bit_changes(b);
    let low = b[p + 22];
    let high = b[p + 23];
    let before = characteristics(b, p as int);
    lemma_flag_bits(before);
    assert(before == low + 0x100 * high);
    assert(((low + 0x100 * high) as u16 & 0x20u16) != 0 <==> low & 0x20u8 != 0) by (bit_vector);
    assert((low | 0x20u8) & 0x20u8 != 0) by (bit_vector);
    assert((low + 0x100 * high) as u16 | 0x20u16 == ((low | 0x20u8) + 0x100 * high) as u16) by (bit_vector);
    if low & 0x20u8 == 0 {
        assert(with_laa(b) =~= b.update(p + 22, low | 0x20u8));
    }
}

/// What is too short, what says that its header begins where there is no room for it,
/// and what has no signature there is no program: the flag is not set and cannot be.
pub proof fn law_no_flag_without_a_header(b: Seq<u8>, p: u32)
    requires
        b.len() >= 0x40 ==> {
            &&& b[0x3C] == p % 0x100
            &&& b[0x3D] == p / 0x100 % 0x100
            &&& b[0x3E] == p / 0x1_0000 % 0x100
            &&& b[0x3F] == p / 0x100_0000
        },
    ensures
        b.len() < 0x40 ==> laa_set(b) == Err::<LaaView, Text>("file too small to be a PE"@),
        b.len() >= 0x40 && p + 24 > b.len() ==> laa_set(b) == Err::<LaaView, Text>("invalid PE offset"@),
        b.len() >= 0x40 && p + 24 <= b.len() && b.subrange(p as int, p + 4) != seq![0x50u8, 0x45u8, 0u8, 0u8]
            ==> laa_set(b) == Err::<LaaView, Text>("PE signature not found"@),
        laa_set(b) is Err ==> !laa_flag(b) && with_laa(b) == b,
{
    if b.len() >= 0x40 {
        assert(header_at(b) == p);
        if p + 24 <= b.len() && signed(b, p as int) {
            assert(b.subrange(p as int, p + 4) =~= seq![0x50u8, 0x45u8, 0u8, 0u8]);
        }
    }
}

} // verus!
