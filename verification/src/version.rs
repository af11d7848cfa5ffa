//! Which of two versions is newer.
use vstd::prelude::*;

use crate::number::{
    all_digits, dec, is_digit, law_numbers_are_read_back, lemma_dec_digits, parse_number, parsed, value_of,
};
use crate::text::{
    chars_of, codes, comes_before, copy_range, is_before, joined, law_first_difference_decides,
    law_parts_are_split_again, lemma_before_total, lemma_before_transitive, same, split, split_at_each, texts, Text,
};

verus! {

/// How many digits `s` begins with.
pub open spec fn leading_digits(s: Text) -> nat
    decreases s.len(),
{
    if s.len() == 0 || !is_digit(s[0]) {
        0
    } else {
        1 + leading_digits(s.skip(1))
    }
}

/// What a part of a version counts as: the number that it begins with, and what
/// follows that. A part that begins with no number, or with one that a `u64` does
/// not hold, counts as 0.
pub open spec fn weight(s: Text) -> (nat, Text) {
    let k = leading_digits(s) as int;
    (
        match parsed(s.take(k), u64::MAX as nat) {
            Some(n) => n,
            None => 0,
        },
        s.skip(k),
    )
}

/// The weight of the `i`th part of a version; a part that is left out counts as 0.
pub open spec fn part(parts: Seq<Text>, i: int) -> (nat, Text) {
    if 0 <= i < parts.len() {
        weight(parts[i])
    } else {
        (0, Seq::empty())
    }
}

/// Whether one weight is less than another: by the number, and among equal numbers
/// by what follows, in dictionary order.
pub open spec fn lighter(a: (nat, Text), b: (nat, Text)) -> bool {
    a.0 < b.0 || (a.0 == b.0 && comes_before(codes(a.1), codes(b.1)))
}

/// Whether `a` is newer than `b`, by the first part from `i` up to `n` in which they
/// differ.
pub open spec fn newer_from(a: Seq<Text>, b: Seq<Text>, i: int, n: int) -> bool
    decreases n - i,
{
    if i >= n {
        false
    } else if part(a, i) != part(b, i) {
        lighter(part(b, i), part(a, i))
    } else {
        newer_from(a, b, i + 1, n)
    }
}

/// How many parts there are in the longer of two versions.
pub open spec fn longer(a: Seq<Text>, b: Seq<Text>) -> int {
    if a.len() >= b.len() {
        a.len() as int
    } else {
        b.len() as int
    }
}

/// Whether the version `remote` is newer than `local`.
pub open spec fn newer(remote: Text, local: Text) -> bool {
    let a = split(remote, '.');
    let b = split(local, '.');
    newer_from(a, b, 0, longer(a, b))
}

/// Weighs a part of a version.
fn weigh(s: &Vec<char>) -> (r: (u64, Vec<char>))
    ensures
        (r.0 as nat, r.1@) == weight(s@),
{
    let n: usize = s.len();
    let mut k: usize = 0;
    assert(s@.skip(0) =~= s@);
    while k < n && '0' <= s[k] && s[k] <= '9'
        invariant
            n == s@.len(),
            k <= n,
            leading_digits(s@) == k + leading_digits(s@.skip(k as int)),
        decreases n - k,
    {
        assert(s@.skip(k as int).skip(1) =~= s@.skip(k + 1));
        k += 1;
    }
    assert(leading_digits(s@.skip(k as int)) == 0);
    let digits = copy_range(s, 0, k);
    assert(digits@ =~= s@.take(k as int));
    let tail = copy_range(s, k, n);
    assert(tail@ =~= s@.skip(k as int));
    let number: u64 = match parse_number(&digits, u64::MAX) {
        Some(m) => m,
        None => 0,
    };
    (number, tail)
}

/// Weighs the `i`th part of a version.
fn weigh_part(parts: &Vec<Vec<char>>, i: usize) -> (r: (u64, Vec<char>))
    ensures
        (r.0 as nat, r.1@) == part(texts(parts@), i as int),
{
    if i < parts.len() {
        assert(texts(parts@)[i as int] == parts@[i as int]@);
        weigh(&parts[i])
    } else {
        let empty: Vec<char> = Vec::new();
        assert(empty@ =~= Seq::empty());
        (0, empty)
    }
}

/// Tells whether the version `remote` is newer than `local`: part by part between
/// the dots, by the number that each begins with, then by what follows that in
/// dictionary order.
pub fn is_newer(remote: &str, local: &str) -> (r: bool)
    ensures
        r == newer(remote@, local@),
{
    let a = split_at_each(&chars_of(remote), '.');
    let b = split_at_each(&chars_of(local), '.');
    let ghost pa = texts(a@);
    let ghost pb = texts(b@);
    let n: usize = if a.len() >= b.len() {
        a.len()
    } else {
        b.len()
    };
    for i in 0..n
        invariant
            pa == texts(a@),
            pb == texts(b@),
            newer_from(pa, pb, 0, n as int) == newer_from(pa, pb, i as int, n as int),
            newer(remote@, local@) == newer_from(pa, pb, 0, n as int),
    {
        let x = weigh_part(&a, i);
        let y = weigh_part(&b, i);
        if x.0 != y.0 {
            return x.0 > y.0;
        }
        if !same(&x.1, &y.1) {
            return is_before(&y.1, &x.1);
        }
    }
    false
}

/// Different weights are one lighter than the other, and never both.
proof fn lemma_lighter_total(a: (nat, Text), b: (nat, Text))
    ensures
        a == b || lighter(a, b) || lighter(b, a),
        !(lighter(a, b) && lighter(b, a)),
        !lighter(a, a),
{
    lemma_before_total(codes(a.1), codes(b.1), 0);
    lemma_before_total(codes(a.1), codes(a.1), 0);
    if codes(a.1) == codes(b.1) {
        assert(a.1 =~= b.1) by {
            assert forall|i: int| 0 <= i < a.1.len() implies a.1[i] == b.1[i] by {
                assert(codes(a.1)[i] == codes(b.1)[i]);
            }
            assert(codes(a.1).len() == codes(b.1).len());
        }
    }
}

proof fn lemma_lighter_transitive(a: (nat, Text), b: (nat, Text), c: (nat, Text))
    requires
        lighter(a, b),
        lighter(b, c),
    ensures
        lighter(a, c),
{
    if a.0 == b.0 && b.0 == c.0 {
        lemma_before_transitive(codes(a.1), codes(b.1), codes(c.1), 0);
    }
}

/// Parts that both versions leave out decide nothing.
proof fn lemma_newer_longer(a: Seq<Text>, b: Seq<Text>, i: int, n: int, m: int)
    requires
        0 <= i,
        longer(a, b) <= n <= m,
    ensures
        newer_from(a, b, i, n) == newer_from(a, b, i, m),
    decreases m - i,
{
    if i < m {
        if i < n {
            lemma_newer_longer(a, b, i + 1, n, m);
        } else {
            lemma_newer_longer(a, b, i + 1, n, m);
            assert(part(a, i) == part(b, i));
        }
    }
}

proof fn lemma_newer_order(a: Seq<Text>, b: Seq<Text>, c: Seq<Text>, i: int, n: int)
    ensures
        !newer_from(a, a, i, n),
        !(newer_from(a, b, i, n) && newer_from(b, a, i, n)),
        newer_from(a, b, i, n) && newer_from(b, c, i, n) ==> newer_from(a, c, i, n),
    decreases n - i,
{
    if i < n {
        lemma_newer_order(a, b, c, i + 1, n);
        lemma_lighter_total(part(a, i), part(b, i));
        lemma_lighter_total(part(b, i), part(c, i));
        lemma_lighter_total(part(a, i), part(c, i));
        if lighter(part(c, i), part(b, i)) && lighter(part(b, i), part(a, i)) {
            lemma_lighter_transitive(part(c, i), part(b, i), part(a, i));
        }
    }
}

/// No version is newer than itself, of two versions not each is newer than the
/// other, and what is newer than a newer version is newer.
pub proof fn law_newer_is_an_order(a: Text, b: Text, c: Text)
    ensures
        !newer(a, a),
        !(newer(a, b) && newer(b, a)),
        newer(a, b) && newer(b, c) ==> newer(a, c),
{
    let pa = split(a, '.');
    let pb = split(b, '.');
    let pc = split(c, '.');
    let n = longer(pa, pb) + longer(pb, pc);
    lemma_newer_longer(pa, pa, 0, longer(pa, pa), n);
    lemma_newer_longer(pa, pb, 0, longer(pa, pb), n);
    lemma_newer_longer(pb, pa, 0, longer(pb, pa), n);
    lemma_newer_longer(pb, pc, 0, longer(pb, pc), n);
    lemma_newer_longer(pa, pc, 0, longer(pa, pc), n);
    lemma_newer_order(pa, pb, pc, 0, n);
}

/// A version written out: its parts with dots between them, each a number in decimal
/// notation and what follows it.
pub open spec fn written(parts: Seq<(nat, Text)>) -> Text {
    joined(parts.map_values(|p: (nat, Text)| dec(p.0) + p.1), '.')
}

/// The parts of a version can be told apart once it is written out: the numbers are
/// such as a `u64` holds, and what follows them begins with no digit and has no dot.
pub open spec fn legible(parts: Seq<(nat, Text)>) -> bool {
    &&& parts.len() > 0
    &&& forall|i: int|
        0 <= i < parts.len() ==> {
            &&& (#[trigger] parts[i]).0 <= u64::MAX
            &&& !parts[i].1.contains('.')
            &&& parts[i].1.len() > 0 ==> !('0' <= parts[i].1[0] <= '9')
        }
}

/// The `i`th part of a version; one that is left out is 0 with nothing behind it.
pub open spec fn nth_part(parts: Seq<(nat, Text)>, i: int) -> (nat, Text) {
    if 0 <= i < parts.len() {
        parts[i]
    } else {
        (0, Seq::empty())
    }
}

/// The `i`th of some numbers; one that is left out is 0.
pub open spec fn nth(numbers: Seq<nat>, i: int) -> nat {
    if 0 <= i < numbers.len() {
        numbers[i]
    } else {
        0
    }
}

/// The digits that a text begins with.
proof fn lemma_leading_digits(s: Text, k: int)
    requires
        0 <= k <= s.len(),
        forall|i: int| 0 <= i < k ==> is_digit(#[trigger] s[i]),
        k < s.len() ==> !is_digit(s[k]),
    ensures
        leading_digits(s) == k,
    decreases k,
{
    if k > 0 {
        assert(is_digit(s[0]));
        let rest = s.skip(1);
        assert forall|i: int| 0 <= i < k - 1 implies is_digit(#[trigger] rest[i]) by {
            assert(rest[i] == s[i + 1]);
        }
        lemma_leading_digits(rest, k - 1);
    }
}

/// A part that is written out weighs what it was.
proof fn lemma_written_weight(n: nat, tail: Text)
    requires
        n <= u64::MAX,
        tail.len() > 0 ==> !is_digit(tail[0]),
    ensures
        weight(dec(n) + tail) == (n, tail),
{
    lemma_dec_digits(n);
    let s = dec(n) + tail;
    let k = dec(n).len() as int;
    assert forall|i: int| 0 <= i < k implies is_digit(#[trigger] s[i]) by {
        assert(s[i] == dec(n)[i]);
    }
    lemma_leading_digits(s, k);
    law_numbers_are_read_back(n, u64::MAX as nat);
    assert(s.take(k) =~= dec(n));
    assert(s.skip(k) =~= tail);
}

/// The parts of a version that is written out weigh what they were.
proof fn lemma_written_parts(parts: Seq<(nat, Text)>)
    requires
        legible(parts),
    ensures
        split(written(parts), '.').len() == parts.len(),
        forall|i: int| 0 <= i < parts.len() ==> #[trigger] part(split(written(parts), '.'), i) == parts[i],
        forall|i: int| i >= parts.len() ==> #[trigger] part(split(written(parts), '.'), i) == (0nat, Seq::<char>::empty()),
{
    let texts = parts.map_values(|p: (nat, Text)| dec(p.0) + p.1);
    assert forall|i: int| 0 <= i < texts.len() implies !(#[trigger] texts[i]).contains('.') by {
        let (n, tail) = parts[i];
        lemma_dec_digits(n);
        assert forall|j: int| 0 <= j < texts[i].len() implies texts[i][j] != '.' by {
            if j < dec(n).len() {
                assert(is_digit(dec(n)[j]));
            } else {
                assert(texts[i][j] == tail[j - dec(n).len()]);
            }
        }
    }
    law_parts_are_split_again(texts, '.');
    assert forall|i: int| 0 <= i < parts.len() implies #[trigger] part(split(written(parts), '.'), i) == parts[i] by {
        lemma_written_weight(parts[i].0, parts[i].1);
    }
}

/// Where the parts agree up to `k`, the rest decides.
proof fn lemma_newer_after(a: Seq<Text>, b: Seq<Text>, i: int, k: int, n: int)
    requires
        i <= k <= n,
        forall|j: int| i <= j < k ==> #[trigger] part(a, j) == part(b, j),
    ensures
        newer_from(a, b, i, n) == newer_from(a, b, k, n),
    decreases k - i,
{
    if i < k {
        assert(part(a, i) == part(b, i));
        lemma_newer_after(a, b, i + 1, k, n);
    }
}

/// Of two versions that are written out, the first place at which they differ decides
/// which is newer: there the greater number, and among equal numbers what follows them,
/// by the first character that differs. A part that one of them lacks counts as 0. Two
/// versions that nowhere differ are equally new.
pub proof fn law_first_different_part_decides(a: Seq<(nat, Text)>, b: Seq<(nat, Text)>, k: int, t: int)
    requires
        legible(a),
        legible(b),
        0 <= k,
        k < a.len() || k < b.len(),
    ensures
        ({
            let (x, y) = (nth_part(a, k), nth_part(b, k));
            let agree = forall|i: int| 0 <= i < k ==> #[trigger] nth_part(a, i) == nth_part(b, i);
            let tails_agree = 0 <= t <= x.1.len() && t <= y.1.len() && x.1.take(t) == y.1.take(t);
            &&& agree && x.0 != y.0 ==> (newer(written(a), written(b)) <==> x.0 > y.0)
            &&& agree && x.0 == y.0 && tails_agree && t < x.1.len() && t < y.1.len() && x.1[t] != y.1[t] ==> (newer(
                written(a),
                written(b),
            ) <==> x.1[t] > y.1[t])
            &&& agree && x.0 == y.0 && tails_agree && t == y.1.len() && t < x.1.len() ==> newer(written(a), written(b))
            &&& agree && x.0 == y.0 && tails_agree && t == x.1.len() && t < y.1.len() ==> !newer(written(a), written(b))
            &&& (forall|i: int| 0 <= i < a.len() || 0 <= i < b.len() ==> #[trigger] nth_part(a, i) == nth_part(b, i)) ==> !newer(
                written(a),
                written(b),
            )
        }),
{
    let (x, y) = (nth_part(a, k), nth_part(b, k));
    let pa = split(written(a), '.');
    let pb = split(written(b), '.');
    let n = longer(pa, pb);
    lemma_written_parts(a);
    lemma_written_parts(b);
    assert forall|i: int| 0 <= i implies part(pa, i) == #[trigger] nth_part(a, i) && part(pb, i) == nth_part(b, i) by {}
    assert(k < n);
    if forall|i: int| 0 <= i < k ==> #[trigger] nth_part(a, i) == nth_part(b, i) {
        assert forall|j: int| 0 <= j < k implies #[trigger] part(pa, j) == part(pb, j) by {
            assert(nth_part(a, j) == nth_part(b, j));
        }
        lemma_newer_after(pa, pb, 0, k, n);
        assert(part(pa, k) == x && part(pb, k) == y);
        if x.0 == y.0 && 0 <= t <= x.1.len() && t <= y.1.len() && x.1.take(t) == y.1.take(t) {
            let (cx, cy) = (codes(x.1), codes(y.1));
            assert forall|i: int| 0 <= i < t implies cx[i] == cy[i] by {
                assert(x.1.take(t)[i] == y.1.take(t)[i]);
            }
            if t < x.1.len() && t < y.1.len() && x.1[t] != y.1[t] {
                law_first_difference_decides(cy, cx, t);
            } else if (t == y.1.len() && t < x.1.len()) || (t == x.1.len() && t < y.1.len()) {
                law_first_difference_decides(cy, cx, t);
            }
        }
    }
    if forall|i: int| 0 <= i < a.len() || 0 <= i < b.len() ==> #[trigger] nth_part(a, i) == nth_part(b, i) {
        assert forall|j: int| 0 <= j < n implies #[trigger] part(pa, j) == part(pb, j) by {
            assert(nth_part(a, j) == nth_part(b, j));
        }
        lemma_newer_after(pa, pb, 0, n, n);
    }
}

/// Of two versions made of numbers with dots between them, one is newer exactly where
/// its number is the greater at the first place at which they differ. A number that one
/// of them lacks counts as 0.
pub proof fn law_greater_number_is_newer(a: Seq<nat>, b: Seq<nat>)
    requires
        a.len() > 0,
        b.len() > 0,
        forall|i: int| 0 <= i < a.len() ==> #[trigger] a[i] <= u64::MAX,
        forall|i: int| 0 <= i < b.len() ==> #[trigger] b[i] <= u64::MAX,
    ensures
        newer(joined(a.map_values(|n: nat| dec(n)), '.'), joined(b.map_values(|n: nat| dec(n)), '.')) <==> exists|k: int|
            {
                &&& 0 <= k
                &&& #[trigger] nth(a, k) > nth(b, k)
                &&& forall|i: int| 0 <= i < k ==> #[trigger] nth(a, i) == nth(b, i)
            },
{
    let none = Seq::<char>::empty();
    let pa = a.map_values(|n: nat| (n, none));
    let pb = b.map_values(|n: nat| (n, none));
    let (wa, wb) = (joined(a.map_values(|n: nat| dec(n)), '.'), joined(b.map_values(|n: nat| dec(n)), '.'));
    lemma_written_numbers(a);
    lemma_written_numbers(b);
    assert(legible(pa) && legible(pb));
    let n = if a.len() >= b.len() { a.len() as int } else { b.len() as int };
    assert forall|i: int| 0 <= i implies #[trigger] nth_part(pa, i) == (nth(a, i), none) by {}
    assert forall|i: int| 0 <= i implies #[trigger] nth_part(pb, i) == (nth(b, i), none) by {}
    if forall|i: int| 0 <= i < n ==> #[trigger] nth(a, i) == nth(b, i) {
        law_first_different_part_decides(pa, pb, 0, 0);
        assert forall|i: int| 0 <= i < pa.len() || 0 <= i < pb.len() implies #[trigger] nth_part(pa, i) == nth_part(pb, i) by {
            assert(nth(a, i) == nth(b, i));
        }
        assert(!newer(wa, wb));
        assert forall|k: int| 0 <= k implies #[trigger] nth(a, k) == nth(b, k) by {}
    } else {
        let d = choose|i: int| 0 <= i < n && #[trigger] nth(a, i) != nth(b, i);
        let k = lemma_first_difference(a, b, d);
        assert forall|i: int| 0 <= i < k implies #[trigger] nth_part(pa, i) == nth_part(pb, i) by {
            assert(nth(a, i) == nth(b, i));
        }
        law_first_different_part_decides(pa, pb, k, 0);
        assert(newer(wa, wb) <==> nth(a, k) > nth(b, k));
        assert forall|j: int|
            0 <= j && #[trigger] nth(a, j) > nth(b, j) && (forall|i: int| 0 <= i < j ==> #[trigger] nth(a, i) == nth(b, i)) implies j
            == k by {
            if k < j {
                assert(nth(a, k) == nth(b, k));
            }
        }
    }
}

/// The first place at which two sequences of numbers differ.
proof fn lemma_first_difference(a: Seq<nat>, b: Seq<nat>, d: int) -> (k: int)
    requires
        0 <= d,
        nth(a, d) != nth(b, d),
    ensures
        0 <= k <= d,
        nth(a, k) != nth(b, k),
        forall|i: int| 0 <= i < k ==> #[trigger] nth(a, i) == nth(b, i),
    decreases d,
{
    if exists|i: int| 0 <= i < d && #[trigger] nth(a, i) != nth(b, i) {
        let i = choose|i: int| 0 <= i < d && #[trigger] nth(a, i) != nth(b, i);
        lemma_first_difference(a, b, i)
    } else {
        d
    }
}

/// Numbers with dots between them are a version whose parts have nothing behind them.
proof fn lemma_written_numbers(a: Seq<nat>)
    ensures
        written(a.map_values(|n: nat| (n, Seq::<char>::empty()))) == joined(a.map_values(|n: nat| dec(n)), '.'),
{
    let parts = a.map_values(|n: nat| (n, Seq::<char>::empty()));
    let l = parts.map_values(|p: (nat, Text)| dec(p.0) + p.1);
    let r = a.map_values(|n: nat| dec(n));
    assert forall|i: int| 0 <= i < a.len() implies l[i] == r[i] by {
        assert(dec(a[i]) + Seq::<char>::empty() =~= dec(a[i]));
    }
    assert(l =~= r);
}

/// Of two versions of three numbers that agree in the first two, the one with the
/// greater third number is newer.
pub proof fn law_third_number_counts(a: nat, b: nat, c: nat, d: nat)
    requires
        a <= u64::MAX,
        b <= u64::MAX,
        c < d <= u64::MAX,
    ensures
        newer(dec(a) + seq!['.'] + dec(b) + seq!['.'] + dec(d), dec(a) + seq!['.'] + dec(b) + seq!['.'] + dec(c)),
        !newer(dec(a) + seq!['.'] + dec(b) + seq!['.'] + dec(c), dec(a) + seq!['.'] + dec(b) + seq!['.'] + dec(d)),
{
    let x = seq![a, b, d];
    let y = seq![a, b, c];
    law_greater_number_is_newer(x, y);
    assert(nth(x, 2) > nth(y, 2));
    lemma_three_numbers(a, b, d);
    lemma_three_numbers(a, b, c);
    law_newer_is_an_order(
        joined(x.map_values(|n: nat| dec(n)), '.'),
        joined(y.map_values(|n: nat| dec(n)), '.'),
        Seq::empty(),
    );
}

proof fn lemma_three_numbers(a: nat, b: nat, c: nat)
    ensures
        joined(seq![a, b, c].map_values(|n: nat| dec(n)), '.') == dec(a) + seq!['.'] + dec(b) + seq!['.'] + dec(c),
{
    reveal_with_fuel(joined, 4);
    let texts = seq![a, b, c].map_values(|n: nat| dec(n));
    assert(texts =~= seq![dec(a), dec(b), dec(c)]);
    assert(texts.drop_last() =~= seq![dec(a), dec(b)]);
    assert(texts.drop_last().drop_last() =~= seq![dec(a)]);
    assert(joined(texts, '.') =~= dec(a) + seq!['.'] + dec(b) + seq!['.'] + dec(c));
}

/// A part of a version weighs the number that it begins with, whatever zeros stand before it,
/// and what follows. A number that a `u64` does not hold weighs 0, and so does what begins
/// with none.
pub proof fn law_weight_of_a_part(zeros: nat, n: nat, tail: Text)
    requires
        tail.len() > 0 ==> !('0' <= tail[0] <= '9'),
    ensures
        n <= u64::MAX ==> weight(Seq::new(zeros, |i: int| '0') + dec(n) + tail) == (n, tail),
        n > u64::MAX ==> weight(Seq::new(zeros, |i: int| '0') + dec(n) + tail) == (0nat, tail),
        weight(tail) == (0nat, tail),
{
    lemma_dec_digits(n);
    let front = Seq::new(zeros, |i: int| '0');
    let digits = front + dec(n);
    let s = digits + tail;
    assert(front + dec(n) + tail == s);
    assert forall|i: int| 0 <= i < digits.len() implies is_digit(#[trigger] digits[i]) by {
        if i >= zeros {
            assert(digits[i] == dec(n)[i - zeros]);
        }
    }
    assert forall|i: int| 0 <= i < digits.len() implies is_digit(#[trigger] s[i]) by {
        assert(s[i] == digits[i]);
    }
    lemma_leading_digits(s, digits.len() as int);
    assert(s.take(digits.len() as int) =~= digits);
    assert(s.skip(digits.len() as int) =~= tail);
    lemma_leading_zeros(zeros, dec(n));
    assert(all_digits(digits));
    assert(is_digit(digits[0]));
    lemma_leading_digits(tail, 0);
    assert(tail.take(0) =~= Seq::<char>::empty());
    assert(tail.skip(0) =~= tail);
}

/// Zeros in front of digits change nothing of what they denote.
proof fn lemma_leading_zeros(zeros: nat, s: Text)
    ensures
        value_of(Seq::new(zeros, |i: int| '0') + s) == value_of(s),
    decreases s.len(),
{
    let front = Seq::new(zeros, |i: int| '0');
    if s.len() > 0 {
        lemma_leading_zeros(zeros, s.drop_last());
        assert((front + s).drop_last() =~= front + s.drop_last());
        assert((front + s).last() == s.last());
    } else {
        assert(front + s =~= front);
        lemma_zeros(zeros);
    }
}

proof fn lemma_zeros(zeros: nat)
    ensures
        value_of(Seq::new(zeros, |i: int| '0')) == 0,
    decreases zeros,
{
    let front = Seq::new(zeros, |i: int| '0');
    if zeros > 0 {
        lemma_zeros((zeros - 1) as nat);
        assert(front.drop_last() =~= Seq::new((zeros - 1) as nat, |i: int| '0'));
        assert(front.last() == '0');
    }
}

/// Of two versions, whatever stands between their dots, the first parts whose weights differ
/// decide which is newer: there the greater number, and among equal numbers what follows
/// them in dictionary order. Where none differ neither is newer.
pub proof fn law_first_different_weight_decides(a: Seq<Text>, b: Seq<Text>, k: int)
    requires
        a.len() > 0,
        b.len() > 0,
        forall|i: int| 0 <= i < a.len() ==> !(#[trigger] a[i]).contains('.'),
        forall|i: int| 0 <= i < b.len() ==> !(#[trigger] b[i]).contains('.'),
        0 <= k,
        forall|i: int| 0 <= i < k ==> #[trigger] nth_weight(a, i) == nth_weight(b, i),
    ensures
        ({
            let (x, y) = (nth_weight(a, k), nth_weight(b, k));
            let is_newer = newer(joined(a, '.'), joined(b, '.'));
            &&& k >= a.len() && k >= b.len() ==> !is_newer
            &&& k < a.len() || k < b.len() ==> {
                &&& x.0 != y.0 ==> (is_newer <==> x.0 > y.0)
                &&& x.0 == y.0 && x.1 != y.1 ==> (is_newer <==> comes_before(codes(y.1), codes(x.1)))
            }
        }),
{
    law_parts_are_split_again(a, '.');
    law_parts_are_split_again(b, '.');
    let n = longer(a, b);
    assert forall|i: int| 0 <= i < k implies #[trigger] part(a, i) == part(b, i) by {
        assert(nth_weight(a, i) == nth_weight(b, i));
    }
    if k >= n {
        lemma_newer_after(a, b, 0, n, n);
    } else {
        lemma_newer_after(a, b, 0, k, n);
    }
}

/// The weight of the `i`th of some parts; one that is left out weighs 0.
pub open spec fn nth_weight(parts: Seq<Text>, i: int) -> (nat, Text) {
    if 0 <= i < parts.len() {
        weight(parts[i])
    } else {
        (0, Seq::empty())
    }
}

} // verus!
