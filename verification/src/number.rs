//! Numbers as text: decimal and hexadecimal.
use vstd::prelude::*;

use crate::text::{string_of, Text};

verus! {

/// The decimal digit of a number under ten.
pub open spec fn digit(n: int) -> char {
    (0x30 + n) as char
}

/// The decimal notation of `n`, without leading zeros.
pub open spec fn dec(n: nat) -> Text
    decreases n,
{
    if n < 10 {
        seq![digit(n as int)]
    } else {
        dec(n / 10).push(digit((n % 10) as int))
    }
}

/// `s` with zeros put in front until it has `width` characters.
pub open spec fn zero_padded(s: Text, width: nat) -> Text {
    if s.len() < width {
        Seq::new((width - s.len()) as nat, |i: int| '0') + s
    } else {
        s
    }
}

/// `n` in at least `width` characters: the sign, zeros, the digits.
pub open spec fn padded(n: int, width: nat) -> Text {
    if n < 0 {
        seq!['-'] + zero_padded(dec((-n) as nat), (if width > 0 { width - 1 } else { 0 }) as nat)
    } else {
        zero_padded(dec(n as nat), width)
    }
}

/// The digit of a number under ten.
fn digit_char(n: u64) -> (c: char)
    requires
        n < 10,
    ensures
        c == digit(n as int),
{
    (0x30u8 + n as u8) as char
}

/// Appends the decimal notation of `n`.
pub fn push_decimal(n: u64, out: &mut Vec<char>)
    ensures
        final(out)@ == old(out)@ + dec(n as nat),
    decreases n,
{
    if n >= 10 {
        push_decimal(n / 10, out);
        let ghost mid = out@;
        out.push(digit_char(n % 10));
        assert(out@ =~= old(out)@ + dec(n as nat));
    } else {
        out.push(digit_char(n));
        assert(out@ =~= old(out)@ + dec(n as nat));
    }
}

/// The decimal notation of `n`.
pub fn decimal(n: u64) -> (s: String)
    ensures
        s@ == dec(n as nat),
{
    let mut v: Vec<char> = Vec::new();
    push_decimal(n, &mut v);
    assert(v@ =~= dec(n as nat));
    string_of(&v)
}

/// Appends `n` in at least `width` characters.
#[verifier::spinoff_prover]
#[verifier::rlimit(30)]
pub fn push_padded(n: i64, width: usize, out: &mut Vec<char>)
    requires
        n > i64::MIN,
    ensures
        final(out)@ == old(out)@ + padded(n as int, width as nat),
{
    let mut digits: Vec<char> = Vec::new();
    let mut room: usize = width;
    if n < 0 {
        push_decimal((-n) as u64, &mut digits);
        out.push('-');
        if room > 0 {
            room -= 1;
        }
    } else {
        push_decimal(n as u64, &mut digits);
    }
    assert(digits@ =~= dec((if n < 0 { -n } else { n as int }) as nat));
    let ghost start = out@;
    let len: usize = digits.len();
    let mut count: usize = if len < room { room - len } else { 0 };
    let ghost zeros = count as nat;
    assert(out@ =~= start + Seq::new(0, |i: int| '0'));
    while count > 0
        invariant
            count <= zeros,
            out@ == start + Seq::new((zeros - count) as nat, |i: int| '0'),
        decreases count,
    {
        out.push('0');
        count -= 1;
        assert(out@ =~= start + Seq::new((zeros - count) as nat, |i: int| '0'));
    }
    out.append(&mut digits);
    assert(out@ =~= old(out)@ + padded(n as int, width as nat));
}

/// `c` is one of the digits 0 to 9.
pub open spec fn is_digit(c: char) -> bool {
    '0' <= c <= '9'
}

pub open spec fn all_digits(s: Text) -> bool {
    forall|i: int| 0 <= i < s.len() ==> is_digit(#[trigger] s[i])
}

/// The number that the digits `s` denote.
pub open spec fn value_of(s: Text) -> nat
    decreases s.len(),
{
    if s.len() == 0 {
        0
    } else {
        (value_of(s.drop_last()) * 10 + (s.last() as int - 0x30)) as nat
    }
}

/// The number up to `max` that `s` denotes: digits, after a `+` where there is one.
pub open spec fn parsed(s: Text, max: nat) -> Option<nat> {
    let body = if s.len() > 0 && s[0] == '+' {
        s.skip(1)
    } else {
        s
    };
    if body.len() > 0 && all_digits(body) && value_of(body) <= max {
        Some(value_of(body))
    } else {
        None
    }
}

/// More digits never denote less.
pub proof fn lemma_value_of_prefix(s: Text, i: int)
    requires
        all_digits(s),
        0 <= i <= s.len(),
    ensures
        value_of(s.take(i)) <= value_of(s),
    decreases s.len() - i,
{
    if i < s.len() {
        lemma_value_of_prefix(s, i + 1);
        assert(s.take(i + 1).drop_last() =~= s.take(i));
        assert(is_digit(s[i]));
    } else {
        assert(s.take(i) =~= s);
    }
}

/// Reads a number up to `max`.
pub fn parse_number(s: &[char], max: u64) -> (r: Option<u64>)
    ensures
        (match r {
            Some(v) => Some(v as nat),
            None => None,
        }) == parsed(s@, max as nat),
{
    let n: usize = s.len();
    let start: usize = if n > 0 && s[0] == '+' { 1 } else { 0 };
    if start == n {
        return None;
    }
    let ghost body = s@.skip(start as int);
    assert(body =~= if s@.len() > 0 && s@[0] == '+' { s@.skip(1) } else { s@ });
    let mut value: u64 = 0;
    assert(body.take(0) =~= Seq::<char>::empty());
    for i in start..n
        invariant
            n == s@.len(),
            start <= n,
            body == s@.skip(start as int),
            body == (if s@.len() > 0 && s@[0] == '+' { s@.skip(1) } else { s@ }),
            all_digits(body.take(i - start)),
            value == value_of(body.take(i - start)),
            value <= max,
    {
        let c = s[i];
        let ghost at = i - start;
        assert(body[at] == c);
        if !('0' <= c && c <= '9') {
            assert(!all_digits(body));
            return None;
        }
        let d: u64 = (c as u64) - 0x30;
        assert(body.take(at + 1).drop_last() =~= body.take(at));
        assert(value_of(body.take(at + 1)) == value * 10 + d);
        assert(all_digits(body.take(at + 1))) by {
            assert forall|k: int| 0 <= k < at + 1 implies is_digit(#[trigger] body.take(at + 1)[k]) by {
                if k < at {
                    assert(is_digit(body.take(at)[k]));
                }
            }
        }
        proof {
            if all_digits(body) {
                lemma_value_of_prefix(body, at + 1);
            }
        }
        if value > (u64::MAX - d) / 10 {
            assert(value * 10 + d > u64::MAX);
            return None;
        }
        value = value * 10 + d;
        if value > max {
            return None;
        }
    }
    assert(body.take(n - start) =~= body);
    Some(value)
}

/// Reads a `u32`.
pub fn parse_u32(s: &[char]) -> (r: Option<u32>)
    ensures
        (match r {
            Some(v) => Some(v as nat),
            None => None,
        }) == parsed(s@, u32::MAX as nat),
{
    match parse_number(s, u32::MAX as u64) {
        Some(v) => Some(v as u32),
        None => None,
    }
}

/// Reading back what was written gives the number that was written.
pub proof fn law_numbers_are_read_back(n: nat, max: nat)
    requires
        n <= max,
    ensures
        parsed(dec(n), max) == Some(n),
{
    lemma_dec_digits(n);
    let s = dec(n);
    assert(is_digit(s[0]));
}

/// Decimal notation consists of digits and denotes the number.
pub proof fn lemma_dec_digits(n: nat)
    ensures
        dec(n).len() >= 1,
        all_digits(dec(n)),
        value_of(dec(n)) == n,
    decreases n,
{
    reveal_with_fuel(value_of, 2);
    if n >= 10 {
        lemma_dec_digits(n / 10);
        assert(dec(n).drop_last() =~= dec(n / 10));
        assert forall|i: int| 0 <= i < dec(n).len() implies is_digit(#[trigger] dec(n)[i]) by {
            if i < dec(n / 10).len() {
                assert(dec(n)[i] == dec(n / 10)[i]);
            }
        }
    } else {
        assert(dec(n).drop_last() =~= Seq::<char>::empty());
    }
}

/// The hexadecimal digit of a number under sixteen.
pub open spec fn hex_digit(n: int, upper: bool) -> char {
    if n < 10 {
        (0x30 + n) as char
    } else if upper {
        (0x41 + n - 10) as char
    } else {
        (0x61 + n - 10) as char
    }
}

/// A byte in two hexadecimal digits.
pub open spec fn hex_byte(b: u8, upper: bool) -> Text {
    seq![hex_digit(b as int / 16, upper), hex_digit(b as int % 16, upper)]
}

/// Bytes in two hexadecimal digits each.
pub open spec fn hex(bytes: Seq<u8>, upper: bool) -> Text
    decreases bytes.len(),
{
    if bytes.len() == 0 {
        Seq::empty()
    } else {
        hex(bytes.drop_last(), upper) + hex_byte(bytes.last(), upper)
    }
}

/// The hexadecimal digit of a number under sixteen.
fn hex_char(n: u8, upper: bool) -> (c: char)
    requires
        n < 16,
    ensures
        c == hex_digit(n as int, upper),
{
    if n < 10 {
        (0x30 + n) as char
    } else if upper {
        (0x41 + (n - 10)) as char
    } else {
        (0x61 + (n - 10)) as char
    }
}

/// Appends a byte in two hexadecimal digits.
pub fn push_hex_byte(b: u8, upper: bool, out: &mut Vec<char>)
    ensures
        final(out)@ == old(out)@ + hex_byte(b, upper),
{
    out.push(hex_char(b / 16, upper));
    out.push(hex_char(b % 16, upper));
    assert(out@ =~= old(out)@ + hex_byte(b, upper));
}

/// Writes bytes in two hexadecimal digits each.
pub fn hex_of(bytes: &[u8], upper: bool) -> (r: Vec<char>)
    ensures
        r@ == hex(bytes@, upper),
{
    let mut r: Vec<char> = Vec::new();
    let n: usize = bytes.len();
    assert(bytes@.take(0) =~= Seq::<u8>::empty());
    for i in 0..n
        invariant
            n == bytes@.len(),
            r@ == hex(bytes@.take(i as int), upper),
    {
        push_hex_byte(bytes[i], upper, &mut r);
        assert(bytes@.take(i + 1).drop_last() =~= bytes@.take(i as int));
    }
    assert(bytes@.take(n as int) =~= bytes@);
    r
}

/// A `u16` in four hexadecimal digits, in upper case.
pub open spec fn hex_word(n: u16) -> Text {
    hex_byte((n / 256) as u8, true) + hex_byte((n % 256) as u8, true)
}

/// Appends a `u16` in four hexadecimal digits, in upper case.
pub fn push_hex_word(n: u16, out: &mut Vec<char>)
    ensures
        final(out)@ == old(out)@ + hex_word(n),
{
    push_hex_byte((n / 256) as u8, true, out);
    push_hex_byte((n % 256) as u8, true, out);
    assert(out@ =~= old(out)@ + hex_word(n));
}

/// Decimal notation has the digit of a number under ten as it is, and a further digit
/// behind a number makes ten times that number and the digit of it.
pub proof fn law_decimal_notation(n: nat, d: int)
    requires
        0 <= d < 10,
    ensures
        dec(d as nat) == seq![(('0' as int) + d) as char],
        n > 0 ==> dec((10 * n + d) as nat) == dec(n).push((('0' as int) + d) as char),
{
    if n > 0 {
        assert((10 * n + d) / 10 == n as int && (10 * n + d) % 10 == d);
    }
}

/// A text denotes a number by its digits: one digit denotes itself, and a further digit
/// ten times what stood before it and the digit. A number that is too large denotes
/// none, and neither does a text with anything else in it, but for one `+` in front.
pub proof fn law_denoted_numbers(s: Text, c: char, d: int, max: nat)
    ensures
        parsed(Seq::empty(), max) is None,
        parsed(seq!['+'], max) is None,
        0 <= d < 10 ==> parsed(seq![(('0' as int) + d) as char], max) == (if d <= max {
            Some(d as nat)
        } else {
            None
        }),
        0 <= d < 10 && parsed(s, max) is Some ==> parsed(s.push((('0' as int) + d) as char), max) == (if 10
            * parsed(s, max)->0 + d <= max {
            Some((10 * parsed(s, max)->0 + d) as nat)
        } else {
            None
        }),
        s.len() > 0 && parsed(s, max) is None ==> parsed(s.push(c), max) is None || s == seq!['+'],
        s.len() > 0 && !('0' <= c <= '9') ==> parsed(s.push(c), max) is None,
        s.len() > 0 && s[0] != '+' ==> parsed(seq!['+'] + s, max) == parsed(s, max),
{
    reveal_with_fuel(value_of, 2);
    let digit_of = seq![(('0' as int) + d) as char];
    if 0 <= d < 10 {
        assert(digit_of.drop_last() =~= Seq::<char>::empty());
    }
    let plus = seq!['+'];
    assert(plus.skip(1) =~= Seq::<char>::empty());
    lemma_one_more(s, c, max);
    if 0 <= d < 10 {
        lemma_one_more(s, (('0' as int) + d) as char, max);
    }
    assert((plus + s).skip(1) =~= s);
}

/// One more character behind a text.
proof fn lemma_one_more(s: Text, c: char, max: nat)
    ensures
        s.len() > 0 && !is_digit(c) ==> parsed(s.push(c), max) is None,
        s.len() > 0 && parsed(s, max) is None ==> parsed(s.push(c), max) is None || s == seq!['+'],
        s.len() > 0 && parsed(s, max) is Some && is_digit(c) ==> parsed(s.push(c), max) == (if 10 * parsed(s, max)->0
            + (c as int - 0x30) <= max {
            Some((10 * parsed(s, max)->0 + (c as int - 0x30)) as nat)
        } else {
            None
        }),
{
    if s.len() > 0 {
        let more = s.push(c);
        let body = if s[0] == '+' { s.skip(1) } else { s };
        assert(more[0] == s[0]);
        let longer = if more[0] == '+' { more.skip(1) } else { more };
        assert(longer =~= body.push(c));
        assert(longer.drop_last() =~= body);
        assert(longer.last() == c);
        if !is_digit(c) {
            assert(longer[body.len() as int] == c);
        } else if all_digits(body) {
            assert forall|i: int| 0 <= i < longer.len() implies is_digit(#[trigger] longer[i]) by {
                if i < body.len() {
                    assert(longer[i] == body[i]);
                }
            }
        } else {
            let i = choose|i: int| 0 <= i < body.len() && !is_digit(#[trigger] body[i]);
            assert(longer[i] == body[i]);
        }
        if body.len() == 0 {
            assert(s =~= seq!['+']);
        }
    }
}

/// Each byte goes out as two hexadecimal digits, the high one first: 0 to 9, then the
/// letters from A or a on.
pub proof fn law_hexadecimal_digits(bytes: Seq<u8>, upper: bool, i: int, high: int, low: int)
    requires
        0 <= i < bytes.len(),
        0 <= high < 16,
        0 <= low < 16,
        bytes[i] == 16 * high + low,
    ensures
        hex(bytes, upper).len() == 2 * bytes.len(),
        high < 10 ==> hex(bytes, upper)[2 * i] == (('0' as int) + high) as char,
        high >= 10 && upper ==> hex(bytes, upper)[2 * i] == (('A' as int) + high - 10) as char,
        high >= 10 && !upper ==> hex(bytes, upper)[2 * i] == (('a' as int) + high - 10) as char,
        low < 10 ==> hex(bytes, upper)[2 * i + 1] == (('0' as int) + low) as char,
        low >= 10 && upper ==> hex(bytes, upper)[2 * i + 1] == (('A' as int) + low - 10) as char,
        low >= 10 && !upper ==> hex(bytes, upper)[2 * i + 1] == (('a' as int) + low - 10) as char,
    decreases bytes.len(),
{
    lemma_hex_len(bytes, upper);
    lemma_hex_len(bytes.drop_last(), upper);
    if i < bytes.len() - 1 {
        assert(bytes.drop_last()[i] == bytes[i]);
        law_hexadecimal_digits(bytes.drop_last(), upper, i, high, low);
    } else {
        assert(bytes.last() == bytes[i]);
        assert((16 * high + low) / 16 == high && (16 * high + low) % 16 == low);
    }
}

proof fn lemma_hex_len(bytes: Seq<u8>, upper: bool)
    ensures
        hex(bytes, upper).len() == 2 * bytes.len(),
    decreases bytes.len(),
{
    if bytes.len() > 0 {
        lemma_hex_len(bytes.drop_last(), upper);
    }
}

/// A number in so many characters has zeros in front where its digits are fewer, behind
/// the sign of a number under 0, and is its digits where they are as many or more.
pub proof fn law_zeros_in_front(n: nat, zeros: nat, width: nat)
    ensures
        dec(n).len() + zeros == width ==> padded(n as int, width) == Seq::new(zeros, |i: int| '0') + dec(n),
        dec(n).len() >= width ==> padded(n as int, width) == dec(n),
        n > 0 && dec(n).len() + zeros + 1 == width ==> padded(-(n as int), width) == seq!['-'] + Seq::new(
            zeros,
            |i: int| '0',
        ) + dec(n),
        n > 0 && dec(n).len() + 1 >= width ==> padded(-(n as int), width) == seq!['-'] + dec(n),
{
    assert(Seq::new(0, |i: int| '0') + dec(n) =~= dec(n));
    assert(seq!['-'] + (Seq::new(zeros, |i: int| '0') + dec(n)) =~= seq!['-'] + Seq::new(zeros, |i: int| '0') + dec(n));
}

/// A `u16` goes out as four hexadecimal digits, the highest first, with the letters in upper
/// case.
pub proof fn law_hexadecimal_word(n: u16, a: int, b: int, c: int, d: int)
    requires
        0 <= a < 16,
        0 <= b < 16,
        0 <= c < 16,
        0 <= d < 16,
        n == 4096 * a + 256 * b + 16 * c + d,
    ensures
        hex_word(n).len() == 4,
        hex_word(n)[0] == (if a < 10 { ('0' as int) + a } else { ('A' as int) + a - 10 }) as char,
        hex_word(n)[1] == (if b < 10 { ('0' as int) + b } else { ('A' as int) + b - 10 }) as char,
        hex_word(n)[2] == (if c < 10 { ('0' as int) + c } else { ('A' as int) + c - 10 }) as char,
        hex_word(n)[3] == (if d < 10 { ('0' as int) + d } else { ('A' as int) + d - 10 }) as char,
{
    assert(n / 256 == 16 * a + b && n % 256 == 16 * c + d);
    assert((16 * a + b) / 16 == a && (16 * a + b) % 16 == b);
    assert((16 * c + d) / 16 == c && (16 * c + d) % 16 == d);
}

} // verus!
