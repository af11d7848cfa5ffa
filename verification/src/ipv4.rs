//! IPv4 addresses in dotted notation.
use vstd::prelude::*;

use crate::number::{all_digits, dec, is_digit, lemma_dec_digits, parse_number, value_of};
use crate::text::{
    chars_of, joined, law_parts_are_split_again, law_split_loses_nothing, split, split_at_each, texts, Text,
};
use crate::utf16::{utf16_le, utf16_to_bytes};

verus! {

/// The number under 256 that `s` denotes in one to three digits, without a
/// leading zero.
pub open spec fn octet(s: Text) -> Option<u8> {
    if 1 <= s.len() <= 3 && all_digits(s) && (s.len() > 1 ==> s[0] != '0') && value_of(s) <= 255 {
        Some(value_of(s) as u8)
    } else {
        None
    }
}

/// The address that `s` denotes: four octets with dots between them, the first
/// in the highest byte.
pub open spec fn ipv4(s: Text) -> Option<u32> {
    let parts = split(s, '.');
    if parts.len() == 4 && octet(parts[0]) is Some && octet(parts[1]) is Some && octet(parts[2]) is Some
        && octet(parts[3]) is Some {
        Some(
            (16777216 * octet(parts[0])->0 + 65536 * octet(parts[1])->0 + 256 * octet(parts[2])->0
                + octet(parts[3])->0) as u32,
        )
    } else {
        None
    }
}

/// Reads an octet.
fn parse_octet(s: &Vec<char>) -> (r: Option<u8>)
    ensures
        r == octet(s@),
{
    let n: usize = s.len();
    if n < 1 || n > 3 || (n > 1 && s[0] == '0') {
        return None;
    }
    if s[0] == '+' {
        return None;
    }
    match parse_number(s, 255) {
        Some(v) => Some(v as u8),
        None => None,
    }
}

/// Reads an IPv4 address.
pub fn parse_ipv4(s: &str) -> (r: Option<u32>)
    ensures
        r == ipv4(s@),
{
    let parts = split_at_each(&chars_of(s), '.');
    assert(texts(parts@).len() == parts@.len());
    if parts.len() != 4 {
        return None;
    }
    assert(texts(parts@)[0] == parts@[0]@ && texts(parts@)[1] == parts@[1]@);
    assert(texts(parts@)[2] == parts@[2]@ && texts(parts@)[3] == parts@[3]@);
    match (parse_octet(&parts[0]), parse_octet(&parts[1]), parse_octet(&parts[2]), parse_octet(&parts[3])) {
        (Some(a), Some(b), Some(c), Some(d)) => Some(
            16777216 * (a as u32) + 65536 * (b as u32) + 256 * (c as u32) + (d as u32),
        ),
        _ => None,
    }
}

/// The address that `ip` denotes, or 0 where it denotes none.
pub open spec fn ipv4_or_zero(ip: Text) -> u32 {
    match ipv4(ip) {
        Some(a) => a,
        None => 0,
    }
}

/// Converts an IPv4 address to a number; 0 where `ip` is none.
pub fn ipv4_to_u32(ip: &str) -> (r: u32)
    ensures
        r == ipv4_or_zero(ip@),
{
    match parse_ipv4(ip) {
        Some(a) => a,
        None => 0,
    }
}

/// Where a server is that is said to be at `s`: the address that `s` denotes and no
/// host name, or no address and the host name `s` in UTF-16. Nothing is no host name.
pub open spec fn address_or_host(s: Text) -> (u32, Option<Seq<u8>>) {
    match ipv4(s) {
        Some(a) => (a, None),
        None => (
            0,
            if s.len() == 0 {
                None
            } else {
                Some(utf16_le(s))
            },
        ),
    }
}

/// The bytes of an optional host name.
pub open spec fn host_view(host: Option<Vec<u8>>) -> Option<Seq<u8>> {
    match host {
        Some(h) => Some(h@),
        None => None,
    }
}

/// Tells an address from a host name, which the client then resolves itself.
pub fn parse_addr_or_host(s: &str) -> (r: (u32, Option<Vec<u8>>))
    ensures
        (r.0, host_view(r.1)) == address_or_host(s@),
{
    match parse_ipv4(s) {
        Some(a) => (a, None),
        None => if s.is_empty() {
            (0, None)
        } else {
            (0, Some(utf16_to_bytes(s)))
        },
    }
}

/// Whether `s` says where a server is. The address 0.0.0.0 counts as none.
pub open spec fn is_place(s: Text) -> bool {
    s.len() > 0 && ipv4(s) != Some(0u32)
}

/// Tells whether `s` says where a server is.
pub fn says_where(s: &str) -> (r: bool)
    ensures
        r == is_place(s@),
{
    if s.is_empty() {
        return false;
    }
    match parse_ipv4(s) {
        Some(a) => a != 0,
        None => true,
    }
}

/// The decimal notation of a number under 256 is an octet.
proof fn lemma_octet_of_number(n: u8)
    ensures
        octet(dec(n as nat)) == Some(n),
        !dec(n as nat).contains('.'),
{
    lemma_dec_digits(n as nat);
    let s = dec(n as nat);
    reveal_with_fuel(dec, 4);
    if n >= 10 {
        let m = n / 10;
        assert(m < 10 || m / 10 < 10);
        assert(s[0] != '0') by {
            if m >= 10 {
                assert(s[0] == dec((m / 10) as nat)[0]);
            } else {
                assert(s[0] == dec(m as nat)[0]);
            }
        }
    }
    assert forall|i: int| 0 <= i < s.len() implies s[i] != '.' by {
        assert(is_digit(s[i]));
    }
}

/// Digits that begin with another one than 0 denote more than 0.
proof fn lemma_value_is_positive(s: Text)
    requires
        s.len() > 0,
        all_digits(s),
        s[0] != '0',
    ensures
        value_of(s) > 0,
    decreases s.len(),
{
    reveal_with_fuel(value_of, 2);
    assert(is_digit(s[0]));
    assert(s.last() == s[s.len() - 1]);
    assert(is_digit(s[s.len() - 1]));
    if s.len() > 1 {
        let rest = s.drop_last();
        assert forall|i: int| 0 <= i < rest.len() implies is_digit(#[trigger] rest[i]) by {
            assert(rest[i] == s[i]);
        }
        lemma_value_is_positive(rest);
    }
}

/// Digits without a leading zero are the decimal notation of the number that they
/// denote.
proof fn lemma_number_of_digits(s: Text)
    requires
        s.len() > 0,
        all_digits(s),
        s.len() > 1 ==> s[0] != '0',
    ensures
        dec(value_of(s)) == s,
    decreases s.len(),
{
    reveal_with_fuel(value_of, 2);
    let rest = s.drop_last();
    assert(s.last() == s[s.len() - 1]);
    assert(is_digit(s[s.len() - 1]));
    let d = s.last() as int - 0x30;
    if s.len() == 1 {
        assert(rest =~= Seq::<char>::empty());
        assert(dec(value_of(s)) =~= s);
    } else {
        assert forall|i: int| 0 <= i < rest.len() implies is_digit(#[trigger] rest[i]) by {
            assert(rest[i] == s[i]);
        }
        lemma_value_is_positive(rest);
        lemma_number_of_digits(rest);
        let n = value_of(rest);
        assert(value_of(s) == 10 * n + d);
        assert((10 * n + d) / 10 == n as int && (10 * n + d) % 10 == d);
        assert(dec(value_of(s)) =~= s);
    }
}

/// Four numbers with dots between them.
pub open spec fn dotted(a: u8, b: u8, c: u8, d: u8) -> Text {
    dec(a as nat) + seq!['.'] + dec(b as nat) + seq!['.'] + dec(c as nat) + seq!['.'] + dec(d as nat)
}

proof fn lemma_dotted(p: Seq<Text>)
    requires
        p.len() == 4,
    ensures
        joined(p, '.') == p[0] + seq!['.'] + p[1] + seq!['.'] + p[2] + seq!['.'] + p[3],
{
    reveal_with_fuel(joined, 5);
    assert(p.drop_last() =~= seq![p[0], p[1], p[2]]);
    assert(p.drop_last().drop_last() =~= seq![p[0], p[1]]);
    assert(p.drop_last().drop_last().drop_last() =~= seq![p[0]]);
    assert(joined(p, '.') =~= p[0] + seq!['.'] + p[1] + seq!['.'] + p[2] + seq!['.'] + p[3]);
}

/// Four numbers under 256 with dots between them are an address, the first of them in
/// its highest byte.
pub proof fn law_dotted_numbers_are_an_address(a: u8, b: u8, c: u8, d: u8)
    ensures
        ipv4(dotted(a, b, c, d)) == Some((a * 0x100_0000 + b * 0x1_0000 + c * 0x100 + d) as u32),
{
    let parts = seq![dec(a as nat), dec(b as nat), dec(c as nat), dec(d as nat)];
    lemma_octet_of_number(a);
    lemma_octet_of_number(b);
    lemma_octet_of_number(c);
    lemma_octet_of_number(d);
    law_parts_are_split_again(parts, '.');
    lemma_dotted(parts);
}

/// Nothing else is an address.
pub proof fn law_only_dotted_numbers_are_an_address(s: Text)
    ensures
        ipv4(s) is Some ==> exists|a: u8, b: u8, c: u8, d: u8| s == #[trigger] dotted(a, b, c, d),
        ipv4(s) == Some(0u32) <==> s == dotted(0, 0, 0, 0),
{
    law_dotted_numbers_are_an_address(0, 0, 0, 0);
    if ipv4(s) is Some {
        let parts = split(s, '.');
        law_split_loses_nothing(s, '.');
        lemma_dotted(parts);
        lemma_number_of_digits(parts[0]);
        lemma_number_of_digits(parts[1]);
        lemma_number_of_digits(parts[2]);
        lemma_number_of_digits(parts[3]);
        let (a, b, c, d) = (octet(parts[0])->0, octet(parts[1])->0, octet(parts[2])->0, octet(parts[3])->0);
        assert(s == dotted(a, b, c, d));
        law_dotted_numbers_are_an_address(a, b, c, d);
    }
}

/// A server that is said to be at an address has it and no host name. What is no address
/// is its host name, in UTF-16, and it has no address; nothing is neither.
pub proof fn law_address_or_name(s: Text)
    ensures
        ipv4(s) matches Some(n) ==> address_or_host(s) == (n, None::<Seq<u8>>),
        ipv4(s) is None && s.len() > 0 ==> address_or_host(s) == (0u32, Some(utf16_le(s))),
        address_or_host(Seq::empty()) == (0u32, None::<Seq<u8>>),
        ipv4(s) is None ==> ipv4_or_zero(s) == 0,
        ipv4(s) matches Some(n) ==> ipv4_or_zero(s) == n,
        is_place(s) <==> s.len() > 0 && s != dotted(0, 0, 0, 0),
{
    law_only_dotted_numbers_are_an_address(s);
    law_split_loses_nothing(Seq::empty(), '.');
}

} // verus!
