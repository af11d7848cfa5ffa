//! Strings as sequences of characters: searching, splitting, trimming, replacing.
use vstd::prelude::*;

verus! {

/// A string of the model.
pub type Text = Seq<char>;

/// `String::push` appends one character.
pub assume_specification[ String::push ](s: &mut String, c: char)
    ensures
        final(s)@ == old(s)@.push(c),
;

/// The characters of `s`.
pub fn chars_of(s: &str) -> (v: Vec<char>)
    ensures
        v@ == s@,
{
    let mut v: Vec<char> = Vec::new();
    for c in it: s.chars()
        invariant
            v@ == it.seq().take(it.index()),
            it.seq() == s@,
    {
        v.push(c);
        assert(it.seq().take(it.index() + 1) =~= it.seq().take(it.index()).push(c));
    }
    assert(s@.take(s@.len() as int) =~= s@);
    v
}

/// The string of the characters of `v`.
pub fn string_of(v: &[char]) -> (s: String)
    ensures
        s@ == v@,
{
    let mut s = String::new();
    let n: usize = v.len();
    for i in 0..n
        invariant
            n == v@.len(),
            s@ == v@.take(i as int),
    {
        s.push(v[i]);
        assert(v@.take(i + 1) =~= v@.take(i as int).push(v@[i as int]));
    }
    assert(v@.take(v@.len() as int) =~= v@);
    s
}

/// `a` followed by `b`.
pub fn join(a: &str, b: &str) -> (s: String)
    ensures
        s@ == a@ + b@,
{
    let mut s = a.to_owned();
    s.append(b);
    s
}

/// `p` stands in `s` at index `i`.
pub open spec fn stands_at(s: Text, p: Text, i: int) -> bool {
    0 <= i && i + p.len() <= s.len() && s.subrange(i, i + p.len()) == p
}

/// `p` stands somewhere in `s`.
pub open spec fn holds(s: Text, p: Text) -> bool {
    exists|i: int| stands_at(s, p, i)
}

/// `s` with each `p` replaced by `t`, from index `i` on, searching from left to
/// right and going on behind each occurrence.
pub open spec fn replaced_from(s: Text, p: Text, t: Text, i: int) -> Text
    decreases s.len() - i,
{
    if i < 0 || i >= s.len() {
        Seq::empty()
    } else if p.len() > 0 && stands_at(s, p, i) {
        t + replaced_from(s, p, t, i + p.len())
    } else {
        seq![s[i]] + replaced_from(s, p, t, i + 1)
    }
}

/// `s` with each `p` replaced by `t`.
pub open spec fn replaced(s: Text, p: Text, t: Text) -> Text {
    replaced_from(s, p, t, 0)
}

/// Whether `p` stands in `s` at index `i`.
pub fn is_at(s: &[char], p: &[char], i: usize) -> (b: bool)
    ensures
        b == stands_at(s@, p@, i as int),
{
    let n: usize = s.len();
    let m: usize = p.len();
    if m > n || i > n - m {
        return false;
    }
    for j in 0..m
        invariant
            n == s@.len(),
            m == p@.len(),
            i + m <= n,
            forall|k: int| 0 <= k < j ==> s@[i + k] == p@[k],
    {
        if s[i + j] != p[j] {
            assert(s@.subrange(i as int, i + m)[j as int] != p@[j as int]);
            return false;
        }
    }
    assert(s@.subrange(i as int, i + m) =~= p@);
    true
}

/// Whether `p` stands in `s`.
pub fn has(s: &[char], p: &[char]) -> (b: bool)
    ensures
        b == holds(s@, p@),
{
    let n: usize = s.len();
    let m: usize = p.len();
    if m > n {
        return false;
    }
    let last: usize = n - m;
    let mut i: usize = 0;
    while i <= last
        invariant
            n == s@.len(),
            m == p@.len(),
            last == n - m,
            i <= last + 1,
            n <= usize::MAX,
            forall|k: int| 0 <= k < i ==> !stands_at(s@, p@, k),
        decreases last + 1 - i,
    {
        if is_at(s, p, i) {
            return true;
        }
        if i == last {
            return false;
        }
        i += 1;
    }
    false
}

/// Replaces each `p` in `s` by `t`.
pub fn replace(s: &[char], p: &[char], t: &[char]) -> (r: Vec<char>)
    requires
        p@.len() > 0,
    ensures
        r@ == replaced(s@, p@, t@),
{
    let mut out: Vec<char> = Vec::new();
    let n: usize = s.len();
    let mut i: usize = 0;
    while i < n
        invariant
            n == s@.len(),
            i <= n,
            p@.len() > 0,
            out@ + replaced_from(s@, p@, t@, i as int) == replaced(s@, p@, t@),
        decreases n - i,
    {
        let ghost before = out@;
        if is_at(s, p, i) {
            let ghost rest = replaced_from(s@, p@, t@, i + p@.len());
            out.extend_from_slice(t);
            assert(out@ =~= before + t@);
            assert(before + (t@ + rest) =~= before + t@ + rest);
            i += p.len();
        } else {
            let ghost rest = replaced_from(s@, p@, t@, i + 1);
            out.push(s[i]);
            assert(before + (seq![s@[i as int]] + rest) =~= before.push(s@[i as int]) + rest);
            i += 1;
        }
    }
    assert(out@ + replaced_from(s@, p@, t@, n as int) =~= out@);
    out
}

/// Where `p` does not stand, nothing is replaced.
pub proof fn lemma_replaced_absent(s: Text, p: Text, t: Text, i: int)
    requires
        0 <= i <= s.len(),
        !holds(s, p),
    ensures
        replaced_from(s, p, t, i) == s.skip(i),
    decreases s.len() - i,
{
    if i < s.len() {
        lemma_replaced_absent(s, p, t, i + 1);
        assert(!stands_at(s, p, i));
        assert(s.skip(i) =~= seq![s[i]] + s.skip(i + 1));
    } else {
        assert(s.skip(i) =~= Seq::<char>::empty());
    }
}

/// The parts of `s` between occurrences of `sep`: one more than there are of these.
pub open spec fn split(s: Text, sep: char) -> Seq<Text>
    decreases s.len(),
{
    if s.len() == 0 {
        seq![Seq::empty()]
    } else {
        let parts = split(s.drop_last(), sep);
        if s.last() == sep {
            parts.push(Seq::empty())
        } else {
            parts.update(parts.len() - 1, parts.last().push(s.last()))
        }
    }
}

/// There is always a first part.
pub proof fn lemma_split_len(s: Text, sep: char)
    ensures
        split(s, sep).len() >= 1,
    decreases s.len(),
{
    if s.len() > 0 {
        lemma_split_len(s.drop_last(), sep);
    }
}

/// Where `p` first stands in `s` from index `i` on.
pub open spec fn first_at(s: Text, p: Text, i: int) -> Option<int>
    decreases s.len() - i,
{
    if i < 0 || i + p.len() > s.len() {
        None
    } else if stands_at(s, p, i) {
        Some(i)
    } else if i >= s.len() {
        None
    } else {
        first_at(s, p, i + 1)
    }
}

/// Finds where `p` first stands in `s` from index `from` on.
pub fn find(s: &[char], p: &[char], from: usize) -> (r: Option<usize>)
    ensures
        match r {
            Some(i) => first_at(s@, p@, from as int) == Some(i as int) && i + p@.len() <= s@.len(),
            None => first_at(s@, p@, from as int) is None,
        },
{
    let n: usize = s.len();
    let m: usize = p.len();
    let mut i: usize = from;
    while i <= n && m <= n - i
        invariant
            n == s@.len(),
            m == p@.len(),
            from <= i,
            first_at(s@, p@, from as int) == first_at(s@, p@, i as int),
        decreases n + 1 - i,
    {
        if is_at(s, p, i) {
            return Some(i);
        }
        if i == n {
            return None;
        }
        i += 1;
    }
    None
}

/// `s` without the characters `c` at its end.
pub open spec fn trimmed_end_of(s: Text, c: char) -> Text
    decreases s.len(),
{
    if s.len() > 0 && s.last() == c {
        trimmed_end_of(s.drop_last(), c)
    } else {
        s
    }
}

/// Takes the characters `c` off the end of `s`.
pub fn trim_end_of(s: &[char], c: char) -> (r: Vec<char>)
    ensures
        r@ == trimmed_end_of(s@, c),
{
    let mut n: usize = s.len();
    assert(s@.take(n as int) =~= s@);
    while n > 0 && s[n - 1] == c
        invariant
            n <= s@.len(),
            trimmed_end_of(s@.take(n as int), c) == trimmed_end_of(s@, c),
        decreases n,
    {
        assert(s@.take(n as int).drop_last() =~= s@.take(n - 1));
        assert(s@.take(n as int).last() == s@[n - 1]);
        n -= 1;
    }
    if n > 0 {
        assert(s@.take(n as int).last() == s@[n - 1]);
    }
    let r = copy_range(s, 0, n);
    assert(r@ =~= s@.take(n as int));
    r
}

/// The texts of several character vectors.
pub open spec fn texts(v: Seq<Vec<char>>) -> Seq<Text> {
    v.map_values(|x: Vec<char>| x@)
}

/// Splits `s` at each `sep`.
pub fn split_at_each(s: &[char], sep: char) -> (r: Vec<Vec<char>>)
    ensures
        texts(r@) == split(s@, sep),
{
    let mut parts: Vec<Vec<char>> = Vec::new();
    let mut current: Vec<char> = Vec::new();
    let n: usize = s.len();
    assert(s@.take(0) =~= Seq::<char>::empty());
    assert(texts(parts@).push(current@) =~= split(s@.take(0), sep));
    for i in 0..n
        invariant
            n == s@.len(),
            texts(parts@).push(current@) == split(s@.take(i as int), sep),
    {
        let ghost done = texts(parts@);
        let ghost cur = current@;
        assert(s@.take(i + 1).drop_last() =~= s@.take(i as int));
        assert(s@.take(i + 1).last() == s@[i as int]);
        if s[i] == sep {
            parts.push(current);
            current = Vec::new();
            assert(texts(parts@) =~= done.push(cur));
        } else {
            current.push(s[i]);
            assert(done.push(current@) =~= done.push(cur).update(done.len() as int, cur.push(s@[i as int])));
        }
    }
    let ghost done = texts(parts@);
    let ghost cur = current@;
    parts.push(current);
    assert(texts(parts@) =~= done.push(cur));
    assert(s@.take(n as int) =~= s@);
    parts
}

/// The characters with the Unicode property `White_Space`.
pub open spec fn white_space(c: char) -> bool {
    let n = c as int;
    ||| 0x09 <= n <= 0x0D
    ||| n == 0x20
    ||| n == 0x85
    ||| n == 0xA0
    ||| n == 0x1680
    ||| 0x2000 <= n <= 0x200A
    ||| n == 0x2028
    ||| n == 0x2029
    ||| n == 0x202F
    ||| n == 0x205F
    ||| n == 0x3000
}

/// Whether `c` is white space.
pub fn is_white_space(c: char) -> (b: bool)
    ensures
        b == white_space(c),
{
    let n: u32 = c as u32;
    (0x09 <= n && n <= 0x0D) || n == 0x20 || n == 0x85 || n == 0xA0 || n == 0x1680
        || (0x2000 <= n && n <= 0x200A) || n == 0x2028 || n == 0x2029 || n == 0x202F
        || n == 0x205F || n == 0x3000
}

/// `s` without the white space at its start.
pub open spec fn trimmed_start(s: Text) -> Text
    decreases s.len(),
{
    if s.len() > 0 && white_space(s[0]) {
        trimmed_start(s.skip(1))
    } else {
        s
    }
}

/// `s` without the white space at its end.
pub open spec fn trimmed_end(s: Text) -> Text
    decreases s.len(),
{
    if s.len() > 0 && white_space(s.last()) {
        trimmed_end(s.drop_last())
    } else {
        s
    }
}

/// `s` without the white space around it.
pub open spec fn trimmed(s: Text) -> Text {
    trimmed_end(trimmed_start(s))
}

/// Takes the white space off both ends of `s`.
pub fn trim(s: &[char]) -> (r: Vec<char>)
    ensures
        r@ == trimmed(s@),
{
    let n: usize = s.len();
    let mut a: usize = 0;
    assert(s@.skip(0) =~= s@);
    while a < n && is_white_space(s[a])
        invariant
            n == s@.len(),
            a <= n,
            trimmed_start(s@.skip(a as int)) == trimmed_start(s@),
        decreases n - a,
    {
        assert(s@.skip(a as int).skip(1) =~= s@.skip(a + 1));
        a += 1;
    }
    let ghost core = s@.skip(a as int);
    assert(core == trimmed_start(s@));
    let mut b: usize = n;
    assert(s@.subrange(a as int, n as int) =~= core);
    while a < b && is_white_space(s[b - 1])
        invariant
            n == s@.len(),
            a <= b <= n,
            trimmed_end(s@.subrange(a as int, b as int)) == trimmed_end(core),
        decreases b - a,
    {
        assert(s@.subrange(a as int, b as int).drop_last() =~= s@.subrange(a as int, b - 1));
        assert(s@.subrange(a as int, b as int).last() == s@[b - 1]);
        b -= 1;
    }
    if a < b {
        assert(s@.subrange(a as int, b as int).last() == s@[b - 1]);
    }
    copy_range(s, a, b)
}

/// The characters from `a` up to `b`.
pub fn copy_range(s: &[char], a: usize, b: usize) -> (r: Vec<char>)
    requires
        a <= b <= s@.len(),
    ensures
        r@ == s@.subrange(a as int, b as int),
{
    let mut r: Vec<char> = Vec::new();
    for i in a..b
        invariant
            a <= b <= s@.len(),
            r@ == s@.subrange(a as int, i as int),
    {
        r.push(s[i]);
        assert(s@.subrange(a as int, i + 1) =~= s@.subrange(a as int, i as int).push(s@[i as int]));
    }
    r
}

/// Whether `s` begins with `p`.
pub fn begins(s: &[char], p: &[char]) -> (b: bool)
    ensures
        b == p@.is_prefix_of(s@),
{
    let b = is_at(s, p, 0);
    proof {
        if p@.len() <= s@.len() {
            assert(s@.subrange(0, p@.len() as int) =~= s@.take(p@.len() as int));
            if p@.is_prefix_of(s@) {
                assert(p@ =~= s@.subrange(0, p@.len() as int));
            }
        }
    }
    b
}

/// The ASCII letters A to Z in lower case, every other character as it is.
pub open spec fn lower(c: char) -> char {
    if 'A' <= c <= 'Z' {
        (c as int + 32) as char
    } else {
        c
    }
}

/// `s` with its ASCII letters in lower case.
pub open spec fn lowered(s: Text) -> Text {
    s.map_values(|c: char| lower(c))
}

/// `c` in lower case, where it is an ASCII letter.
pub fn lower_char(c: char) -> (r: char)
    ensures
        r == lower(c),
{
    if 'A' <= c && c <= 'Z' {
        ((c as u8) + 32) as char
    } else {
        c
    }
}

/// Puts the ASCII letters of `s` in lower case.
pub fn to_lower(s: &[char]) -> (r: Vec<char>)
    ensures
        r@ == lowered(s@),
{
    let mut r: Vec<char> = Vec::new();
    let n: usize = s.len();
    for i in 0..n
        invariant
            n == s@.len(),
            r@ == lowered(s@).take(i as int),
    {
        r.push(lower_char(s[i]));
        assert(lowered(s@).take(i + 1) =~= lowered(s@).take(i as int).push(lowered(s@)[i as int]));
    }
    assert(lowered(s@).take(n as int) =~= lowered(s@));
    r
}

/// Whether two character vectors hold the same text.
pub fn same(a: &[char], b: &[char]) -> (r: bool)
    ensures
        r == (a@ == b@),
{
    if a.len() != b.len() {
        return false;
    }
    let r = is_at(a, b, 0);
    assert(a@.subrange(0, b@.len() as int) =~= a@);
    r
}

/// `a` comes before `b` in dictionary order, from index `i` on.
pub open spec fn before_from(a: Seq<int>, b: Seq<int>, i: int) -> bool
    decreases b.len() - i,
{
    if i < 0 || i >= b.len() {
        false
    } else if i >= a.len() {
        true
    } else if a[i] != b[i] {
        a[i] < b[i]
    } else {
        before_from(a, b, i + 1)
    }
}

/// `a` comes before `b` in dictionary order.
pub open spec fn comes_before(a: Seq<int>, b: Seq<int>) -> bool {
    before_from(a, b, 0)
}

/// Of three in dictionary order, the first comes before the last.
pub proof fn lemma_before_transitive(a: Seq<int>, b: Seq<int>, c: Seq<int>, i: int)
    requires
        0 <= i,
        before_from(a, b, i),
        before_from(b, c, i),
    ensures
        before_from(a, c, i),
    decreases c.len() - i,
{
    if i < a.len() && i < c.len() && a[i] == b[i] && b[i] == c[i] {
        lemma_before_transitive(a, b, c, i + 1);
    }
}

/// Of two different sequences that agree up to `i`, one comes before the other,
/// and never both.
pub proof fn lemma_before_total(a: Seq<int>, b: Seq<int>, i: int)
    requires
        0 <= i <= a.len(),
        i <= b.len(),
        forall|k: int| 0 <= k < i ==> a[k] == b[k],
    ensures
        before_from(a, b, i) || before_from(b, a, i) || a == b,
        !(before_from(a, b, i) && before_from(b, a, i)),
    decreases b.len() - i,
{
    if i < a.len() && i < b.len() {
        if a[i] == b[i] {
            lemma_before_total(a, b, i + 1);
        }
    } else if a.len() == b.len() {
        assert(a =~= b);
    }
}

/// The numbers of characters.
pub open spec fn codes(s: Text) -> Seq<int> {
    s.map_values(|c: char| c as int)
}

/// Whether `a` comes before `b` in dictionary order of the characters' numbers.
pub fn is_before(a: &[char], b: &[char]) -> (r: bool)
    ensures
        r == comes_before(codes(a@), codes(b@)),
{
    let n: usize = b.len();
    let m: usize = a.len();
    let mut i: usize = 0;
    while i < n
        invariant
            n == b@.len(),
            m == a@.len(),
            i <= n,
            comes_before(codes(a@), codes(b@)) == before_from(codes(a@), codes(b@), i as int),
        decreases n - i,
    {
        if i >= m {
            return true;
        }
        if a[i] != b[i] {
            return a[i] < b[i];
        }
        i += 1;
    }
    false
}

/// `parts` one after another, with `sep` between each two.
pub open spec fn joined(parts: Seq<Text>, sep: char) -> Text
    decreases parts.len(),
{
    if parts.len() == 0 {
        Seq::empty()
    } else if parts.len() == 1 {
        parts[0]
    } else {
        joined(parts.drop_last(), sep).push(sep) + parts.last()
    }
}

/// A text without `sep` is one part.
proof fn lemma_split_one(s: Text, sep: char)
    requires
        !s.contains(sep),
    ensures
        split(s, sep) == seq![s],
    decreases s.len(),
{
    if s.len() > 0 {
        let rest = s.drop_last();
        assert forall|i: int| 0 <= i < rest.len() implies rest[i] != sep by {
            assert(s[i] == rest[i]);
        }
        lemma_split_one(rest, sep);
        assert(s.last() == s[s.len() - 1]);
        assert(rest.push(s.last()) =~= s);
        assert(split(s, sep) =~= seq![s]);
    } else {
        assert(s =~= Seq::<char>::empty());
    }
}

/// A part behind one more `sep` is one more part.
proof fn lemma_split_more(s: Text, last: Text, sep: char)
    requires
        !last.contains(sep),
    ensures
        split(s.push(sep) + last, sep) == split(s, sep).push(last),
    decreases last.len(),
{
    let all = s.push(sep) + last;
    if last.len() == 0 {
        assert(last =~= Seq::<char>::empty());
        assert(all =~= s.push(sep));
        assert(all.drop_last() =~= s);
        assert(all.last() == sep);
    } else {
        let rest = last.drop_last();
        assert forall|i: int| 0 <= i < rest.len() implies rest[i] != sep by {
            assert(last[i] == rest[i]);
        }
        lemma_split_more(s, rest, sep);
        assert(all.drop_last() =~= s.push(sep) + rest);
        assert(all.last() == last[last.len() - 1]);
        assert(rest.push(last.last()) =~= last);
        let parts = split(s, sep).push(rest);
        assert(parts.update(parts.len() - 1, parts.last().push(last.last())) =~= split(s, sep).push(last));
    }
}

/// Splitting gives back the texts that were put together with separators between
/// them, whatever they are, as long as none of them holds the separator.
pub proof fn law_parts_are_split_again(parts: Seq<Text>, sep: char)
    requires
        parts.len() > 0,
        forall|i: int| 0 <= i < parts.len() ==> !(#[trigger] parts[i]).contains(sep),
    ensures
        split(joined(parts, sep), sep) == parts,
    decreases parts.len(),
{
    if parts.len() == 1 {
        lemma_split_one(parts[0], sep);
        assert(parts =~= seq![parts[0]]);
    } else {
        let rest = parts.drop_last();
        assert forall|i: int| 0 <= i < rest.len() implies !(#[trigger] rest[i]).contains(sep) by {
            assert(rest[i] == parts[i]);
        }
        law_parts_are_split_again(rest, sep);
        assert(parts.last() == parts[parts.len() - 1]);
        lemma_split_more(joined(rest, sep), parts.last(), sep);
        assert(rest.push(parts.last()) =~= parts);
    }
}

/// What stands before the first separator is the first part, whatever follows.
pub proof fn law_first_part(first: Text, rest: Text, sep: char)
    requires
        !first.contains(sep),
    ensures
        split(first, sep)[0] == first,
        split(first.push(sep) + rest, sep)[0] == first,
    decreases rest.len(),
{
    lemma_split_one(first, sep);
    let all = first.push(sep) + rest;
    if rest.len() == 0 {
        assert(rest =~= Seq::<char>::empty());
        lemma_split_more(first, rest, sep);
    } else {
        law_first_part(first, rest.drop_last(), sep);
        assert(all.drop_last() =~= first.push(sep) + rest.drop_last());
        lemma_split_two(first, rest.drop_last(), sep);
    }
}

/// Where there is a separator there are at least two parts.
proof fn lemma_split_two(first: Text, rest: Text, sep: char)
    ensures
        split(first.push(sep) + rest, sep).len() >= 2,
    decreases rest.len(),
{
    let all = first.push(sep) + rest;
    if rest.len() == 0 {
        assert(all =~= first.push(sep));
        assert(all.drop_last() =~= first);
        assert(all.last() == sep);
        lemma_split_len(first, sep);
    } else {
        lemma_split_two(first, rest.drop_last(), sep);
        assert(all.drop_last() =~= first.push(sep) + rest.drop_last());
    }
}

/// Of two sequences that agree before index `k`, the first comes before the second in
/// dictionary order exactly where it ends there and the second does not, or has the
/// smaller number there, as far as they differ there.
pub proof fn law_first_difference_decides(a: Seq<int>, b: Seq<int>, k: int)
    requires
        0 <= k <= a.len(),
        k <= b.len(),
        forall|i: int| 0 <= i < k ==> a[i] == b[i],
        k < a.len() && k < b.len() ==> a[k] != b[k],
    ensures
        comes_before(a, b) <==> k < b.len() && (k == a.len() || a[k] < b[k]),
{
    lemma_before_after(a, b, 0, k);
}

proof fn lemma_before_after(a: Seq<int>, b: Seq<int>, i: int, k: int)
    requires
        0 <= i <= k <= a.len(),
        k <= b.len(),
        forall|j: int| 0 <= j < k ==> a[j] == b[j],
    ensures
        before_from(a, b, i) == before_from(a, b, k),
    decreases k - i,
{
    if i < k {
        lemma_before_after(a, b, i + 1, k);
    }
}

/// Nothing is lost when a text is split: its parts, with the separators between them,
/// are the text, and none of them holds the separator.
pub proof fn law_split_loses_nothing(s: Text, sep: char)
    ensures
        joined(split(s, sep), sep) == s,
        split(s, sep).len() > 0,
        forall|i: int| 0 <= i < split(s, sep).len() ==> !(#[trigger] split(s, sep)[i]).contains(sep),
    decreases s.len(),
{
    let parts = split(s, sep);
    if s.len() == 0 {
        assert(s =~= Seq::<char>::empty());
    } else {
        let before = split(s.drop_last(), sep);
        law_split_loses_nothing(s.drop_last(), sep);
        assert(s =~= s.drop_last().push(s.last()));
        if s.last() == sep {
            assert(parts.drop_last() =~= before);
            assert(joined(parts, sep) =~= s);
        } else {
            let n = before.len() - 1;
            assert(parts.drop_last() =~= before.drop_last());
            assert(parts.last() == before.last().push(s.last()));
            if n == 0 {
                assert(joined(before, sep) == before[0]);
                assert(joined(parts, sep) == parts[0]);
            } else {
                assert(joined(before, sep) == joined(before.drop_last(), sep).push(sep) + before.last());
                assert(joined(parts, sep) =~= joined(before, sep).push(s.last()));
            }
            assert forall|i: int| 0 <= i < parts.len() implies !(#[trigger] parts[i]).contains(sep) by {
                if i < n {
                    assert(parts[i] == before[i]);
                } else {
                    assert(!before[n].contains(sep));
                    assert forall|j: int| 0 <= j < parts[i].len() implies parts[i][j] != sep by {
                        if j < before[n].len() {
                            assert(parts[i][j] == before[n][j]);
                        }
                    }
                }
            }
        }
    }
}

/// White space is what Unicode says it is.
pub proof fn law_white_space(c: char)
    ensures
        white_space(c) <==> {
            let n = c as int;
            ||| n == 0x09 || n == 0x0A || n == 0x0B || n == 0x0C || n == 0x0D || n == 0x20 || n == 0x85
            ||| n == 0xA0 || n == 0x1680 || 0x2000 <= n <= 0x200A || n == 0x2028 || n == 0x2029
            ||| n == 0x202F || n == 0x205F || n == 0x3000
        },
{
}

/// Trimming takes off the white space around a text and no more.
pub proof fn law_white_space_is_taken_off(front: Text, core: Text, back: Text)
    requires
        forall|i: int| 0 <= i < front.len() ==> white_space(#[trigger] front[i]),
        forall|i: int| 0 <= i < back.len() ==> white_space(#[trigger] back[i]),
        core.len() > 0 ==> !white_space(core[0]) && !white_space(core.last()),
    ensures
        trimmed(front + core + back) == core,
{
    let rest = core + back;
    assert(front + core + back =~= front + rest);
    lemma_trimmed_front(front, rest);
    if core.len() == 0 {
        assert(rest =~= back + Seq::<char>::empty());
        lemma_trimmed_front(back, Seq::empty());
        assert(core =~= Seq::<char>::empty());
    } else {
        assert(rest[0] == core[0]);
        lemma_trimmed_back(core, back);
    }
}

/// White space in front of a text is taken off its start.
pub proof fn lemma_trimmed_front(front: Text, rest: Text)
    requires
        forall|i: int| 0 <= i < front.len() ==> white_space(#[trigger] front[i]),
    ensures
        trimmed_start(front + rest) == trimmed_start(rest),
    decreases front.len(),
{
    if front.len() > 0 {
        let all = front + rest;
        assert(all[0] == front[0]);
        assert(all.skip(1) =~= front.skip(1) + rest);
        assert forall|i: int| 0 <= i < front.skip(1).len() implies white_space(#[trigger] front.skip(1)[i]) by {
            assert(front.skip(1)[i] == front[i + 1]);
        }
        lemma_trimmed_front(front.skip(1), rest);
    } else {
        assert(front + rest =~= rest);
    }
}

/// White space behind a text is taken off its end.
proof fn lemma_trimmed_back(core: Text, back: Text)
    requires
        forall|i: int| 0 <= i < back.len() ==> white_space(#[trigger] back[i]),
        core.len() > 0,
        !white_space(core.last()),
    ensures
        trimmed_end(core + back) == core,
    decreases back.len(),
{
    let all = core + back;
    if back.len() > 0 {
        assert(all.last() == back[back.len() - 1]);
        assert(all.drop_last() =~= core + back.drop_last());
        assert forall|i: int| 0 <= i < back.drop_last().len() implies white_space(#[trigger] back.drop_last()[i]) by {
            assert(back.drop_last()[i] == back[i]);
        }
        lemma_trimmed_back(core, back.drop_last());
    } else {
        assert(all =~= core);
    }
}

/// In lower case the letters from A to Z are those from a to z, and every other
/// character is as it was.
pub proof fn law_lower_case(s: Text, i: int)
    requires
        0 <= i < s.len(),
    ensures
        lowered(s).len() == s.len(),
        'A' <= s[i] <= 'Z' ==> (lowered(s)[i] as int) - ('a' as int) == (s[i] as int) - ('A' as int),
        !('A' <= s[i] <= 'Z') ==> lowered(s)[i] == s[i],
{
}

/// A text holds another exactly where it is something, the other, and something again.
pub proof fn law_what_a_text_holds(s: Text, p: Text)
    ensures
        holds(s, p) <==> exists|x: Text, y: Text| s == #[trigger] (x + p + y),
{
    if holds(s, p) {
        let i = choose|i: int| stands_at(s, p, i);
        assert(s =~= s.take(i) + p + s.skip(i + p.len())) by {
            assert forall|j: int| i <= j < i + p.len() implies s[j] == p[j - i] by {
                assert(s.subrange(i, i + p.len())[j - i] == p[j - i]);
            }
        }
    }
    if exists|x: Text, y: Text| s == #[trigger] (x + p + y) {
        let (x, y) = choose|x: Text, y: Text| s == #[trigger] (x + p + y);
        let i = x.len() as int;
        assert(s.subrange(i, i + p.len()) =~= p);
        assert(stands_at(s, p, i));
    }
}

/// A replacement is made from the front: what stands before the first occurrence stays,
/// what was to be put in follows, and then the rest with the replacement made in it. A
/// text in which the other does not stand stays as it is.
pub proof fn law_replacement(x: Text, p: Text, t: Text, y: Text)
    requires
        p.len() > 0,
        forall|i: int| 0 <= i < x.len() ==> (#[trigger] (x + p + y).subrange(i, i + p.len())) != p,
    ensures
        replaced(x + p + y, p, t) == x + t + replaced(y, p, t),
        !holds(y, p) ==> replaced(y, p, t) == y,
{
    let s = x + p + y;
    let k = x.len() as int;
    assert(s.subrange(k, k + p.len()) =~= p);
    lemma_copied_up_to(s, p, t, 0, k);
    assert(s.subrange(0, k) =~= x);
    assert(s.skip(k + p.len()) =~= y);
    lemma_replaced_behind(x + p, y, p, t, 0);
    assert(replaced_from(s, p, t, k) == t + replaced_from(s, p, t, k + p.len()));
    assert(x + (t + replaced(y, p, t)) =~= x + t + replaced(y, p, t));
    if !holds(y, p) {
        lemma_replaced_absent(y, p, t, 0);
        assert(y.skip(0) =~= y);
    }
}

/// Up to the first occurrence everything is copied.
proof fn lemma_copied_up_to(s: Text, p: Text, t: Text, a: int, k: int)
    requires
        p.len() > 0,
        0 <= a <= k,
        k + p.len() <= s.len(),
        forall|i: int| a <= i < k ==> (#[trigger] s.subrange(i, i + p.len())) != p,
    ensures
        replaced_from(s, p, t, a) == s.subrange(a, k) + replaced_from(s, p, t, k),
    decreases k - a,
{
    if a < k {
        assert(s.subrange(a, a + p.len()) != p);
        lemma_copied_up_to(s, p, t, a + 1, k);
        assert(seq![s[a]] + (s.subrange(a + 1, k) + replaced_from(s, p, t, k)) =~= s.subrange(a, k) + replaced_from(
            s,
            p,
            t,
            k,
        ));
    } else {
        assert(s.subrange(a, k) + replaced_from(s, p, t, k) =~= replaced_from(s, p, t, k));
    }
}

/// What stands in front of where a replacement is made does not matter.
proof fn lemma_replaced_behind(x: Text, y: Text, p: Text, t: Text, i: int)
    requires
        0 <= i <= y.len(),
    ensures
        replaced_from(x + y, p, t, x.len() + i) == replaced_from(y, p, t, i),
    decreases y.len() - i,
{
    if i < y.len() {
        let s = x + y;
        let k = x.len() + i;
        if k + p.len() <= s.len() {
            assert(s.subrange(k, k + p.len()) =~= y.subrange(i, i + p.len()));
        }
        if p.len() > 0 && stands_at(y, p, i) {
            lemma_replaced_behind(x, y, p, t, i + p.len());
        } else {
            lemma_replaced_behind(x, y, p, t, i + 1);
        }
    }
}

/// A text is first found where it stands and nowhere before, from a place on.
pub proof fn law_first_place(s: Text, p: Text, i: int, k: int)
    requires
        0 <= i,
        p.len() > 0,
    ensures
        first_at(s, p, i) == Some(k) <==> i <= k && stands_at(s, p, k) && forall|j: int|
            i <= j < k ==> !#[trigger] stands_at(s, p, j),
        first_at(s, p, i) is None <==> forall|j: int| i <= j ==> !#[trigger] stands_at(s, p, j),
    decreases s.len() - i,
{
    if i + p.len() <= s.len() && !stands_at(s, p, i) {
        law_first_place(s, p, i + 1, k);
        if first_at(s, p, i + 1) is Some {
            law_first_place(s, p, i + 1, first_at(s, p, i + 1)->0);
        }
    }
}

/// Trimming a character off the end takes off as many of it as stand there, and no more.
pub proof fn law_end_is_taken_off(core: Text, c: char, n: nat)
    requires
        core.len() > 0 ==> core.last() != c,
    ensures
        trimmed_end_of(core + Seq::new(n, |i: int| c), c) == core,
    decreases n,
{
    let all = core + Seq::new(n, |i: int| c);
    if n > 0 {
        assert(all.last() == c);
        assert(all.drop_last() =~= core + Seq::new((n - 1) as nat, |i: int| c));
        law_end_is_taken_off(core, c, (n - 1) as nat);
    } else {
        assert(all =~= core);
    }
}

} // verus!
