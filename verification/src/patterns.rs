//! What replacements do to the settings in a text.
use vstd::prelude::*;

use crate::ini::{applied, default_engine, law_nothing_to_replace, patched, s1_engine, s1_engine_extra, PatchView};
use crate::text::{holds, replaced, replaced_from, stands_at, Text};

verus! {

/// Wherever `f` and `w` stand in one text, they have no place in common.
pub open spec fn never_meet(f: Text, w: Text) -> bool {
    forall|d: int| -f.len() < d < w.len() ==> #[trigger] differs(f, w, d)
}

/// `f` does not fit where it would stand `d` places behind `w`.
pub open spec fn differs(f: Text, w: Text, d: int) -> bool {
    exists|i: int| 0 <= i < w.len() && 0 <= i - d < f.len() && #[trigger] w[i] != f[i - d]
}

/// What stands in a text stands in a longer one.
proof fn lemma_holds_behind(x: Text, y: Text, w: Text)
    requires
        holds(y, w),
    ensures
        holds(x + y, w),
{
    let i = choose|i: int| stands_at(y, w, i);
    assert((x + y).subrange(x.len() + i, x.len() + i + w.len()) =~= y.subrange(i, i + w.len()));
    assert(stands_at(x + y, w, x.len() + i));
}

/// A text that never meets `w` does not stand within a `w`.
proof fn lemma_not_within(s: Text, f: Text, w: Text, p: int, q: int)
    requires
        never_meet(f, w),
        stands_at(s, w, p),
        p - f.len() < q < p + w.len(),
    ensures
        !stands_at(s, f, q),
{
    assert(differs(f, w, q - p));
    let i = choose|i: int| 0 <= i < w.len() && 0 <= i - (q - p) < f.len() && #[trigger] w[i] != f[i - (q - p)];
    if stands_at(s, f, q) {
        assert(s.subrange(p, p + w.len())[i] == w[i]);
        assert(s.subrange(q, q + f.len())[i - (q - p)] == f[i - (q - p)]);
    }
}

/// A `w` is copied place by place.
proof fn lemma_copied(s: Text, f: Text, t: Text, w: Text, p: int, k: int)
    requires
        never_meet(f, w),
        stands_at(s, w, p),
        f.len() > 0,
        0 <= k <= w.len(),
    ensures
        stands_at(replaced_from(s, f, t, p + k), w.skip(k), 0),
    decreases w.len() - k,
{
    let r = replaced_from(s, f, t, p + k);
    if k == w.len() {
        assert(r.subrange(0, 0) =~= w.skip(k));
    } else {
        lemma_not_within(s, f, w, p, p + k);
        lemma_copied(s, f, t, w, p, k + 1);
        let rest = replaced_from(s, f, t, p + k + 1);
        assert(s.subrange(p, p + w.len())[k] == w[k]);
        assert(r == seq![s[p + k]] + rest);
        assert(rest.subrange(0, w.len() - k - 1) == w.skip(k + 1));
        assert(r.subrange(0, w.len() - k) =~= w.skip(k)) by {
            assert forall|j: int| 0 < j < w.len() - k implies r[j] == w.skip(k)[j] by {
                assert(rest.subrange(0, w.len() - k - 1)[j - 1] == w.skip(k + 1)[j - 1]);
            }
        }
    }
}

/// A replacement leaves what it never meets.
proof fn lemma_kept_from(s: Text, f: Text, t: Text, w: Text, p: int, a: int)
    requires
        never_meet(f, w),
        stands_at(s, w, p),
        f.len() > 0,
        w.len() > 0,
        0 <= a <= p,
    ensures
        holds(replaced_from(s, f, t, a), w),
    decreases p - a,
{
    if a == p {
        lemma_copied(s, f, t, w, p, 0);
        assert(w.skip(0) =~= w);
        assert(stands_at(replaced_from(s, f, t, p), w, 0));
    } else if stands_at(s, f, a) {
        if a + f.len() > p {
            lemma_not_within(s, f, w, p, a);
        }
        lemma_kept_from(s, f, t, w, p, a + f.len());
        lemma_holds_behind(t, replaced_from(s, f, t, a + f.len()), w);
    } else {
        lemma_kept_from(s, f, t, w, p, a + 1);
        lemma_holds_behind(seq![s[a]], replaced_from(s, f, t, a + 1), w);
    }
}

/// What replaces something is there afterwards.
proof fn lemma_put_from(s: Text, f: Text, t: Text, p: int, a: int)
    requires
        stands_at(s, f, p),
        f.len() > 0,
        0 <= a <= p,
    ensures
        holds(replaced_from(s, f, t, a), t),
    decreases p - a,
{
    if stands_at(s, f, a) {
        let rest = replaced_from(s, f, t, a + f.len());
        assert((t + rest).subrange(0, t.len() as int) =~= t);
        assert(stands_at(replaced_from(s, f, t, a), t, 0));
    } else {
        lemma_put_from(s, f, t, p, a + 1);
        lemma_holds_behind(seq![s[a]], replaced_from(s, f, t, a + 1), t);
    }
}

/// Replacements leave what they never meet.
proof fn lemma_kept(s: Text, patches: Seq<PatchView>, w: Text, a: int, b: int)
    requires
        0 <= a <= b <= patches.len(),
        w.len() > 0,
        holds(patched(s, patches, a), w),
        forall|i: int| a <= i < b ==> (#[trigger] patches[i]).from.len() > 0 && never_meet(patches[i].from, w),
    ensures
        holds(patched(s, patches, b), w),
    decreases b,
{
    if a < b {
        lemma_kept(s, patches, w, a, b - 1);
        let before = patched(s, patches, b - 1);
        let p = choose|p: int| stands_at(before, w, p);
        lemma_kept_from(before, patches[b - 1].from, patches[b - 1].to, w, p, 0);
    }
}

/// A setting that stands in a text as it is to be replaced, or as it will be, stands
/// there as it will be once the replacements were made, where no other meets it.
proof fn lemma_setting_changed(s: Text, patches: Seq<PatchView>, i: int)
    requires
        0 <= i < patches.len(),
        patches[i].from.len() > 0,
        patches[i].to.len() > 0,
        holds(s, patches[i].from) || holds(s, patches[i].to),
        forall|j: int| 0 <= j < patches.len() ==> (#[trigger] patches[j]).from.len() > 0,
        forall|j: int|
            0 <= j < patches.len() ==> never_meet((#[trigger] patches[j]).from, patches[i].to),
        forall|j: int| 0 <= j < i ==> never_meet((#[trigger] patches[j]).from, patches[i].from),
    ensures
        holds(patched(s, patches, patches.len() as int), patches[i].to),
{
    let n = patches.len() as int;
    assert(patched(s, patches, 0) == s);
    if holds(s, patches[i].from) {
        lemma_kept(s, patches, patches[i].from, 0, i);
        let before = patched(s, patches, i);
        let p = choose|p: int| stands_at(before, patches[i].from, p);
        lemma_put_from(before, patches[i].from, patches[i].to, p, 0);
        assert(patched(s, patches, i + 1) == replaced(before, patches[i].from, patches[i].to));
        lemma_kept(s, patches, patches[i].to, i + 1, n);
    } else {
        lemma_kept(s, patches, patches[i].to, 0, n);
    }
}

/// Whatever stands in a text after a replacement, and does not meet what was put in,
/// stood there before, and is not what was replaced.
proof fn lemma_not_made(s: Text, f: Text, t: Text, w: Text, a: int, p: int)
    requires
        never_meet(w, t),
        f.len() > 0,
        t.len() > 0,
        w.len() > 0,
        0 <= a <= s.len(),
        stands_at(replaced_from(s, f, t, a), w, p),
    ensures
        holds(s, w),
        w != f,
    decreases s.len() - a,
{
    let r = replaced_from(s, f, t, a);
    if a < s.len() {
        if stands_at(s, f, a) {
            let rest = replaced_from(s, f, t, a + f.len());
            assert(r == t + rest);
            if p < t.len() {
                assert(r.subrange(0, t.len() as int) =~= t);
                assert(stands_at(r, t, 0));
                lemma_not_within(r, w, t, 0, p);
            } else {
                assert(r.subrange(p, p + w.len()) =~= rest.subrange(p - t.len(), p - t.len() + w.len()));
                lemma_not_made(s, f, t, w, a + f.len(), p - t.len());
            }
        } else {
            let rest = replaced_from(s, f, t, a + 1);
            assert(r == seq![s[a]] + rest);
            if p > 0 {
                assert(r.subrange(p, p + w.len()) =~= rest.subrange(p - 1, p - 1 + w.len()));
                lemma_not_made(s, f, t, w, a + 1, p - 1);
            } else {
                lemma_same_start(s, f, t, w, a, 0);
                assert(s.subrange(a, a + w.len()) =~= w);
                assert(stands_at(s, w, a));
            }
        }
    }
}

/// A text that the replaced one begins with was copied, where it does not meet what
/// was put in.
proof fn lemma_same_start(s: Text, f: Text, t: Text, w: Text, a: int, k: int)
    requires
        never_meet(w, t),
        f.len() > 0,
        t.len() > 0,
        0 <= a,
        0 <= k < w.len(),
        k == 0 ==> !stands_at(s, f, a),
        a + k <= s.len(),
        w.len() - k <= replaced_from(s, f, t, a + k).len(),
        forall|j: int| k <= j < w.len() ==> replaced_from(s, f, t, a + k)[j - k] == w[j],
    ensures
        a + w.len() <= s.len(),
        forall|j: int| k <= j < w.len() ==> s[a + j] == w[j],
    decreases w.len() - k,
{
    let r = replaced_from(s, f, t, a + k);
    if stands_at(s, f, a + k) {
        // What was put in stands `k` places behind the start of `w`.
        let rest = replaced_from(s, f, t, a + k + f.len());
        assert(differs(w, t, -k));
        let i = choose|i: int| 0 <= i < t.len() && 0 <= i - (-k) < w.len() && #[trigger] t[i] != w[i - (-k)];
        assert(r[i + k - k] == w[i + k]);
        assert(r == t + rest);
        assert(r[i] == t[i]);
    } else {
        let rest = replaced_from(s, f, t, a + k + 1);
        assert(r == seq![s[a + k]] + rest);
        assert(r[k - k] == w[k]);
        if k + 1 < w.len() {
            assert forall|j: int| k + 1 <= j < w.len() implies rest[j - k - 1] == w[j] by {
                assert(r[j - k] == w[j]);
            }
            lemma_same_start(s, f, t, w, a, k + 1);
        }
    }
}

/// Where no text that is replaced meets one that is put in, none of them is left.
proof fn lemma_none_left(s: Text, patches: Seq<PatchView>, n: int)
    requires
        0 <= n <= patches.len(),
        forall|i: int| 0 <= i < patches.len() ==> (#[trigger] patches[i]).from.len() > 0 && patches[i].to.len() > 0,
        forall|i: int, j: int|
            0 <= i < patches.len() && 0 <= j < patches.len() ==> never_meet(
                (#[trigger] patches[i]).from,
                (#[trigger] patches[j]).to,
            ),
    ensures
        forall|i: int| 0 <= i < n ==> !holds(patched(s, patches, n), (#[trigger] patches[i]).from),
    decreases n,
{
    if n > 0 {
        lemma_none_left(s, patches, n - 1);
        let before = patched(s, patches, n - 1);
        let last = patches[n - 1];
        assert forall|i: int| 0 <= i < n implies !holds(patched(s, patches, n), (#[trigger] patches[i]).from) by {
            let w = patches[i].from;
            let r = replaced(before, last.from, last.to);
            assert(patched(s, patches, n) == r);
            if holds(r, w) {
                let p = choose|p: int| stands_at(r, w, p);
                lemma_not_made(before, last.from, last.to, w, 0, p);
            }
        }
    }
}

/// From index `i` on `s` has an `=` at index `e` and nowhere else.
pub open spec fn divided(s: Text, e: int, i: int) -> bool
    decreases s.len() - i,
{
    i >= s.len() || ((s[i] == '=' <==> i == e) && divided(s, e, i + 1))
}

proof fn lemma_divided(s: Text, e: int, i: int)
    requires
        divided(s, e, i),
    ensures
        forall|j: int| i <= j < s.len() ==> (#[trigger] s[j] == '=' <==> j == e),
    decreases s.len() - i,
{
    if i < s.len() {
        lemma_divided(s, e, i + 1);
    }
}

/// A character of a number.
pub open spec fn in_number(c: char) -> bool {
    '0' <= c <= '9' || c == '.' || c == '-'
}

/// From index `i` on `s` is a number.
pub open spec fn is_number(s: Text, i: int) -> bool
    decreases s.len() - i,
{
    i >= s.len() || (in_number(s[i]) && is_number(s, i + 1))
}

proof fn lemma_number(s: Text, i: int)
    requires
        is_number(s, i),
    ensures
        forall|j: int| i <= j < s.len() ==> in_number(#[trigger] s[j]),
    decreases s.len() - i,
{
    if i < s.len() {
        lemma_number(s, i + 1);
    }
}

/// `s` ends in the four or five characters of a truth value that stand at index `i`.
pub open spec fn is_truth_value(s: Text, i: int) -> bool {
    ||| s.len() == i + 4 && s[i] == 'T' && s[i + 1] == 'r' && s[i + 2] == 'u' && s[i + 3] == 'e'
    ||| s.len() == i + 4 && s[i] == 'T' && s[i + 1] == 'R' && s[i + 2] == 'U' && s[i + 3] == 'E'
    ||| s.len() == i + 5 && s[i] == 'F' && s[i + 1] == 'a' && s[i + 2] == 'l' && s[i + 3] == 's' && s[i + 4] == 'e'
    ||| s.len() == i + 5 && s[i] == 'F' && s[i + 1] == 'A' && s[i + 2] == 'L' && s[i + 3] == 'S' && s[i + 4] == 'E'
}

/// No number, and no end of a truth value, begins as the key of `s` does.
pub open spec fn begins_as_key(s: Text) -> bool {
    &&& !in_number(s[0])
    &&& s[0] != 'r' && s[0] != 'u' && s[0] != 'e' && s[0] != 'a' && s[0] != 'l' && s[0] != 's'
    &&& s[0] != 'R' && s[0] != 'E'
    &&& s[0] == 'T' ==> s[1] != 'R' && (s[1] != 'r' || s[2] != 'u')
    &&& s[0] == 'U' ==> s[1] != 'E'
    &&& s[0] == 'F' ==> s[1] != 'a' && s[1] != 'A'
    &&& s[0] == 'A' ==> s[1] != 'L'
    &&& s[0] == 'L' ==> s[1] != 'S'
    &&& s[0] == 'S' ==> s[1] != 'E'
}

/// `s` is a key and a value with an `=` at index `e` between them; the value is a
/// number or a truth value, and no end of one can be the start of the key.
pub open spec fn is_setting(s: Text, e: int) -> bool {
    &&& 3 <= e < s.len() - 1
    &&& divided(s, e, 0)
    &&& begins_as_key(s)
    &&& is_truth_value(s, e + 1) || is_number(s, e + 1)
}

/// The keys end, or the values begin, with different characters.
pub open spec fn told_apart(f: Text, e: int, w: Text, g: int) -> bool {
    ||| f[e - 1] != w[g - 1]
    ||| f[e - 2] != w[g - 2]
    ||| f[e - 3] != w[g - 3]
    ||| e >= 9 && g >= 9 && (f[e - 5] != w[g - 5] || f[e - 8] != w[g - 8] || f[e - 9] != w[g - 9])
    ||| f[e + 1] != w[g + 1]
    ||| f.len() > e + 3 && w.len() > g + 3 && f[e + 3] != w[g + 3]
    ||| f.len() > e + 4 && w.len() > g + 4 && f[e + 4] != w[g + 4]
}

/// No end of the value of the setting `w` is the start of the key of another.
proof fn lemma_value_is_no_key(f: Text, e: int, w: Text, g: int, d: int)
    requires
        is_setting(f, e),
        is_setting(w, g),
        g < d < w.len(),
    ensures
        f[0] != w[d] || (d + 1 < w.len() && f[1] != w[d + 1]) || (d + 2 < w.len() && f[2] != w[d + 2]),
{
    if is_number(w, g + 1) {
        lemma_number(w, g + 1);
    }
}

/// Settings that are told apart never meet.
proof fn lemma_settings_never_meet(f: Text, e: int, w: Text, g: int)
    requires
        is_setting(f, e),
        is_setting(w, g),
        told_apart(f, e, w, g),
    ensures
        never_meet(f, w),
{
    lemma_divided(f, e, 0);
    lemma_divided(w, g, 0);
    assert forall|d: int| -f.len() < d < w.len() implies #[trigger] differs(f, w, d) by {
        if d + e == g {
            if f[e + 1] != w[g + 1] {
                assert(w[g + 1] != f[g + 1 - d]);
            } else if f[e - 1] != w[g - 1] {
                assert(w[g - 1] != f[g - 1 - d]);
            } else if f[e - 2] != w[g - 2] {
                assert(w[g - 2] != f[g - 2 - d]);
            } else if f[e - 3] != w[g - 3] {
                assert(w[g - 3] != f[g - 3 - d]);
            } else if e >= 9 && g >= 9 && f[e - 5] != w[g - 5] {
                assert(w[g - 5] != f[g - 5 - d]);
            } else if e >= 9 && g >= 9 && f[e - 8] != w[g - 8] {
                assert(w[g - 8] != f[g - 8 - d]);
            } else if e >= 9 && g >= 9 && f[e - 9] != w[g - 9] {
                assert(w[g - 9] != f[g - 9 - d]);
            } else if f.len() > e + 3 && w.len() > g + 3 && f[e + 3] != w[g + 3] {
                assert(w[g + 3] != f[g + 3 - d]);
            } else {
                assert(w[g + 4] != f[g + 4 - d]);
            }
        } else if 0 <= d + e < w.len() {
            // The `=` of the one stands within the other, beside its own.
            assert(w[d + e] != f[d + e - d]);
        } else if d + e < 0 {
            // The value of `f` reaches the key of `w`.
            lemma_value_is_no_key(w, g, f, e, -d);
            if w[0] != f[-d] {
                assert(w[0] != f[0 - d]);
            } else if 1 - d < f.len() && w[1] != f[1 - d] {
                assert(w[1] != f[1 - d]);
            } else {
                assert(w[2] != f[2 - d]);
            }
        } else if d <= g {
            assert(w[g] != f[g - d]);
        } else {
            // The value of `w` reaches the key of `f`.
            lemma_value_is_no_key(f, e, w, g, d);
            if f[0] != w[d] {
                assert(w[d] != f[d - d]);
            } else if d + 1 < w.len() && f[1] != w[d + 1] {
                assert(w[d + 1] != f[d + 1 - d]);
            } else {
                assert(w[d + 2] != f[d + 2 - d]);
            }
        }
    }
}

/// The first `n` replacements turn settings, whose `=` stand at the indices `at`, to
/// others of the same key.
pub open spec fn turn_settings(patches: Seq<PatchView>, at: Seq<int>, n: int) -> bool
    decreases n,
{
    n <= 0 || {
        &&& is_setting(patches[n - 1].from, at[n - 1])
        &&& is_setting(patches[n - 1].to, at[n - 1])
        &&& turn_settings(patches, at, n - 1)
    }
}

/// The settings that the first `n` replacements turn are told apart from the setting `w`.
pub open spec fn clear_of(patches: Seq<PatchView>, at: Seq<int>, w: Text, g: int, n: int) -> bool
    decreases n,
{
    n <= 0 || (told_apart(patches[n - 1].from, at[n - 1], w, g) && clear_of(patches, at, w, g, n - 1))
}

/// The settings that are turned are told apart from the first `n` that are turned to.
pub open spec fn all_clear(patches: Seq<PatchView>, at: Seq<int>, n: int) -> bool
    decreases n,
{
    n <= 0 || (clear_of(patches, at, patches[n - 1].to, at[n - 1], patches.len() as int) && all_clear(
        patches,
        at,
        n - 1,
    ))
}

proof fn lemma_turn_settings(patches: Seq<PatchView>, at: Seq<int>, n: int, i: int)
    requires
        turn_settings(patches, at, n),
        0 <= i < n,
    ensures
        is_setting(patches[i].from, at[i]),
        is_setting(patches[i].to, at[i]),
    decreases n,
{
    if i < n - 1 {
        lemma_turn_settings(patches, at, n - 1, i);
    }
}

proof fn lemma_clear_of(patches: Seq<PatchView>, at: Seq<int>, w: Text, g: int, n: int, i: int)
    requires
        clear_of(patches, at, w, g, n),
        0 <= i < n,
    ensures
        told_apart(patches[i].from, at[i], w, g),
    decreases n,
{
    if i < n - 1 {
        lemma_clear_of(patches, at, w, g, n - 1, i);
    }
}

proof fn lemma_all_clear(patches: Seq<PatchView>, at: Seq<int>, n: int, j: int)
    requires
        all_clear(patches, at, n),
        0 <= j < n,
    ensures
        clear_of(patches, at, patches[j].to, at[j], patches.len() as int),
    decreases n,
{
    if j < n - 1 {
        lemma_all_clear(patches, at, n - 1, j);
    }
}

/// The first `n` replacements never meet a setting that they are told apart from.
proof fn lemma_never_meet(patches: Seq<PatchView>, at: Seq<int>, w: Text, g: int, n: int)
    requires
        0 <= n <= patches.len(),
        turn_settings(patches, at, n),
        is_setting(w, g),
        clear_of(patches, at, w, g, n),
    ensures
        forall|i: int|
            0 <= i < n ==> (#[trigger] patches[i]).from.len() > 0 && never_meet(patches[i].from, w),
{
    assert forall|i: int| 0 <= i < n implies (#[trigger] patches[i]).from.len() > 0 && never_meet(
        patches[i].from,
        w,
    ) by {
        lemma_turn_settings(patches, at, n, i);
        lemma_clear_of(patches, at, w, g, n, i);
        lemma_settings_never_meet(patches[i].from, at[i], w, g);
    }
}

/// Replacements that were made find nothing to replace when they are made once more,
/// where the settings that they turn are told apart from those that they turn to.
proof fn lemma_made_once(s: Text, patches: Seq<PatchView>, at: Seq<int>)
    requires
        turn_settings(patches, at, patches.len() as int),
        all_clear(patches, at, patches.len() as int),
    ensures
        ({
            let n = patches.len() as int;
            let made = patched(s, patches, n);
            patched(made, patches, n) == made && applied(made, patches, n) == 0
        }),
{
    let n = patches.len() as int;
    assert forall|i: int| 0 <= i < n implies (#[trigger] patches[i]).from.len() > 0 && patches[i].to.len() > 0 by {
        lemma_turn_settings(patches, at, n, i);
    }
    assert forall|i: int, j: int| 0 <= i < n && 0 <= j < n implies never_meet(
        (#[trigger] patches[i]).from,
        (#[trigger] patches[j]).to,
    ) by {
        lemma_turn_settings(patches, at, n, i);
        lemma_turn_settings(patches, at, n, j);
        lemma_all_clear(patches, at, n, j);
        lemma_clear_of(patches, at, patches[j].to, at[j], n, i);
        lemma_settings_never_meet(patches[i].from, at[i], patches[j].to, at[j]);
    }
    lemma_none_left(s, patches, n);
    law_nothing_to_replace(patched(s, patches, n), patches, n);
}

/// Where the `=` of the default settings stand.
pub open spec fn default_at() -> Seq<int> {
    seq![16int, 20int, 16int]
}

/// The default settings are in order.
proof fn lemma_default_settings()
    ensures
        turn_settings(default_engine(), default_at(), 3),
        all_clear(default_engine(), default_at(), 3),
{
    reveal_strlit("bSmoothFrameRate=TRUE");
    reveal_strlit("bSmoothFrameRate=FALSE");
    reveal_strlit("MaxSmoothedFrameRate=80");
    reveal_strlit("MaxSmoothedFrameRate=300");
    reveal_strlit("AmbientOcclusion=True");
    reveal_strlit("AmbientOcclusion=False");
    reveal_with_fuel(divided, 42);
    reveal_with_fuel(is_number, 10);
    reveal_with_fuel(turn_settings, 4);
    reveal_with_fuel(clear_of, 4);
    reveal_with_fuel(all_clear, 4);
}

/// Where the `=` of the settings that cost frames stand.
pub open spec fn base_at() -> Seq<int> {
    seq![
        16int, 17int, 10int, 12int, 16int, 19int, 10int, 10int, 10int, 4int, 19int,
        27int, 36int, 27int, 25int, 8int, 15int, 31int,
    ]
}

/// The settings that cost frames are in order, and told apart from the further ones that
/// are looked for.
#[verifier::spinoff_prover]
#[verifier::rlimit(50)]
proof fn lemma_base_settings()
    ensures
        turn_settings(s1_engine(), base_at(), 18),
        all_clear(s1_engine(), base_at(), 18),
        clear_of(s1_engine(), base_at(), "OneFrameThreadLag=False"@, 17, 1),
        clear_of(s1_engine(), base_at(), "MotionBlur=True"@, 10, 2),
        clear_of(s1_engine(), base_at(), "DynamicShadows=False"@, 14, 18),
        clear_of(s1_engine(), base_at(), "DynamicShadows=True"@, 14, 18),
        clear_of(s1_engine(), base_at(), "SkeletalMeshLODBias=2"@, 19, 18),
        clear_of(s1_engine(), base_at(), "SkeletalMeshLODBias=0"@, 19, 18),
        is_setting("OneFrameThreadLag=False"@, 17),
        is_setting("MotionBlur=True"@, 10),
        is_setting("DynamicShadows=False"@, 14),
        is_setting("DynamicShadows=True"@, 14),
        is_setting("SkeletalMeshLODBias=2"@, 19),
        is_setting("SkeletalMeshLODBias=0"@, 19),
{
    reveal_strlit("bSmoothFrameRate=TRUE");
    reveal_strlit("bSmoothFrameRate=FALSE");
    reveal_strlit("OneFrameThreadLag=False");
    reveal_strlit("OneFrameThreadLag=True");
    reveal_strlit("MotionBlur=True");
    reveal_strlit("MotionBlur=False");
    reveal_strlit("DepthOfField=True");
    reveal_strlit("DepthOfField=False");
    reveal_strlit("AmbientOcclusion=True");
    reveal_strlit("AmbientOcclusion=False");
    reveal_strlit("UseHighQualityBloom=True");
    reveal_strlit("UseHighQualityBloom=False");
    reveal_strlit("Distortion=True");
    reveal_strlit("Distortion=False");
    reveal_strlit("FogVolumes=True");
    reveal_strlit("FogVolumes=False");
    reveal_strlit("LensFlares=True");
    reveal_strlit("LensFlares=False");
    reveal_strlit("FXAA=True");
    reveal_strlit("FXAA=False");
    reveal_strlit("MaxShadowResolution=2048");
    reveal_strlit("MaxShadowResolution=1024");
    reveal_strlit("FoliageDrawRadiusMultiplier=1.050000");
    reveal_strlit("FoliageDrawRadiusMultiplier=0.700000");
    reveal_strlit("TimeBetweenPurgingPendingKillObjects=120");
    reveal_strlit("TimeBetweenPurgingPendingKillObjects=300");
    reveal_strlit("MaxObjectsNotConsideredByGC=0");
    reveal_strlit("MaxObjectsNotConsideredByGC=500000");
    reveal_strlit("SizeOfPermanentObjectPool=0");
    reveal_strlit("SizeOfPermanentObjectPool=16777216");
    reveal_strlit("PoolSize=2048");
    reveal_strlit("PoolSize=3072");
    reveal_strlit("HysteresisLimit=30");
    reveal_strlit("HysteresisLimit=50");
    reveal_strlit("FudgeFactorDecreaseRateOfChange=-0.4");
    reveal_strlit("FudgeFactorDecreaseRateOfChange=-0.8");
    reveal_strlit("DynamicShadows=False");
    reveal_strlit("DynamicShadows=True");
    reveal_strlit("SkeletalMeshLODBias=2");
    reveal_strlit("SkeletalMeshLODBias=0");
    reveal_with_fuel(divided, 42);
    reveal_with_fuel(is_number, 10);
    reveal_with_fuel(turn_settings, 19);
    reveal_with_fuel(clear_of, 19);
    reveal_with_fuel(all_clear, 19);
}

/// Where the `=` of the further settings stand.
pub open spec fn extra_at() -> Seq<int> {
    seq![
        8int, 19int, 14int, 31int, 31int, 30int, 19int, 15int, 16int, 10int, 13int, 13int,
        15int, 15int, 27int, 26int, 29int, 22int, 25int, 5int, 11int, 23int,
    ]
}

/// The further settings are in order, and told apart from the first ones that are looked
/// for.
#[verifier::spinoff_prover]
#[verifier::rlimit(50)]
proof fn lemma_extra_settings()
    ensures
        turn_settings(s1_engine_extra(), extra_at(), 22),
        all_clear(s1_engine_extra(), extra_at(), 22),
        clear_of(s1_engine_extra(), extra_at(), "OneFrameThreadLag=True"@, 17, 22),
        clear_of(s1_engine_extra(), extra_at(), "MotionBlur=False"@, 10, 22),
        clear_of(s1_engine_extra(), extra_at(), "DynamicShadows=True"@, 14, 2),
        clear_of(s1_engine_extra(), extra_at(), "SkeletalMeshLODBias=0"@, 19, 6),
        is_setting("OneFrameThreadLag=True"@, 17),
        is_setting("MotionBlur=False"@, 10),
        is_setting("DynamicShadows=True"@, 14),
        is_setting("SkeletalMeshLODBias=0"@, 19),
{
    reveal_strlit("PoolSize=3072");
    reveal_strlit("PoolSize=4096");
    reveal_strlit("MaxShadowResolution=1024");
    reveal_strlit("MaxShadowResolution=512");
    reveal_strlit("DynamicShadows=True");
    reveal_strlit("DynamicShadows=False");
    reveal_strlit("bAllowWholeSceneDominantShadows=True");
    reveal_strlit("bAllowWholeSceneDominantShadows=False");
    reveal_strlit("bEnableForegroundShadowsOnWorld=True");
    reveal_strlit("bEnableForegroundShadowsOnWorld=False");
    reveal_strlit("bEnableForegroundSelfShadowing=True");
    reveal_strlit("bEnableForegroundSelfShadowing=False");
    reveal_strlit("SkeletalMeshLODBias=0");
    reveal_strlit("SkeletalMeshLODBias=2");
    reveal_strlit("ParticleLODBias=0");
    reveal_strlit("ParticleLODBias=2");
    reveal_strlit("SpeedTreeLODBias=0");
    reveal_strlit("SpeedTreeLODBias=2");
    reveal_strlit("DetailMode=2");
    reveal_strlit("DetailMode=1");
    reveal_strlit("MaxAnisotropy=16");
    reveal_strlit("MaxAnisotropy=4");
    reveal_strlit("MaxAnisotropy=8");
    reveal_strlit("MaxMultiSamples=4");
    reveal_strlit("MaxMultiSamples=1");
    reveal_strlit("MaxMultiSamples=2");
    reveal_strlit("FoliageDrawRadiusMultiplier=0.700000");
    reveal_strlit("FoliageDrawRadiusMultiplier=0.500000");
    reveal_strlit("bInitializeShadersOnDemand=False");
    reveal_strlit("bInitializeShadersOnDemand=True");
    reveal_strlit("bForceCPUAccessToGPUSkinVerts=True");
    reveal_strlit("bForceCPUAccessToGPUSkinVerts=False");
    reveal_strlit("TranslucencyVolumeBlur=True");
    reveal_strlit("TranslucencyVolumeBlur=False");
    reveal_strlit("AllowSubsurfaceScattering=True");
    reveal_strlit("AllowSubsurfaceScattering=False");
    reveal_strlit("Bloom=True");
    reveal_strlit("Bloom=False");
    reveal_strlit("LightShafts=True");
    reveal_strlit("LightShafts=False");
    reveal_strlit("ShadowFilterQualityBias=0");
    reveal_strlit("ShadowFilterQualityBias=-1");
    reveal_strlit("OneFrameThreadLag=True");
    reveal_strlit("MotionBlur=False");
    reveal_with_fuel(divided, 42);
    reveal_with_fuel(is_number, 10);
    reveal_with_fuel(turn_settings, 23);
    reveal_with_fuel(clear_of, 23);
    reveal_with_fuel(all_clear, 23);
}

/// Replacements that were made find nothing to replace when they are made once more.
pub proof fn law_replacements_are_made_once(s: Text, patches: Seq<PatchView>)
    requires
        patches == s1_engine() || patches == default_engine() || patches == s1_engine_extra(),
    ensures
        ({
            let n = patches.len() as int;
            let made = patched(s, patches, n);
            patched(made, patches, n) == made && applied(made, patches, n) == 0
        }),
{
    if patches == s1_engine() {
        lemma_base_settings();
        lemma_made_once(s, patches, base_at());
    } else if patches == default_engine() {
        lemma_default_settings();
        lemma_made_once(s, patches, default_at());
    } else {
        lemma_extra_settings();
        lemma_made_once(s, patches, extra_at());
    }
}

/// A setting that the `i`th replacement turns is turned, where it is told apart from
/// those that are turned before it.
proof fn lemma_turned(s: Text, patches: Seq<PatchView>, at: Seq<int>, i: int)
    requires
        0 <= i < patches.len(),
        turn_settings(patches, at, patches.len() as int),
        all_clear(patches, at, patches.len() as int),
        clear_of(patches, at, patches[i].from, at[i], i),
        holds(s, patches[i].from) || holds(s, patches[i].to),
    ensures
        holds(patched(s, patches, patches.len() as int), patches[i].to),
{
    let n = patches.len() as int;
    lemma_turn_settings(patches, at, n, i);
    lemma_all_clear(patches, at, n, i);
    lemma_never_meet(patches, at, patches[i].to, at[i], n);
    lemma_turn_some(patches, at, n, i);
    lemma_never_meet(patches, at, patches[i].from, at[i], i);
    lemma_setting_changed(s, patches, i);
}

proof fn lemma_turn_some(patches: Seq<PatchView>, at: Seq<int>, n: int, k: int)
    requires
        turn_settings(patches, at, n),
        k <= n,
    ensures
        turn_settings(patches, at, k),
    decreases n,
{
    if 0 < n && k < n {
        lemma_turn_some(patches, at, n - 1, k);
    }
}

/// The replacements for speed turn the two settings that are looked for.
pub proof fn lemma_base_changed(s: Text)
    requires
        holds(s, "OneFrameThreadLag=False"@) || holds(s, "OneFrameThreadLag=True"@),
        holds(s, "MotionBlur=True"@) || holds(s, "MotionBlur=False"@),
    ensures
        holds(patched(s, s1_engine(), s1_engine().len() as int), "OneFrameThreadLag=True"@),
        holds(patched(s, s1_engine(), s1_engine().len() as int), "MotionBlur=False"@),
{
    lemma_base_settings();
    lemma_turned(s, s1_engine(), base_at(), 1);
    lemma_turned(s, s1_engine(), base_at(), 2);
}

/// The further replacements turn the two settings that are looked for.
pub proof fn lemma_extra_changed(s: Text)
    requires
        holds(s, "DynamicShadows=True"@) || holds(s, "DynamicShadows=False"@),
        holds(s, "SkeletalMeshLODBias=0"@) || holds(s, "SkeletalMeshLODBias=2"@),
    ensures
        holds(patched(s, s1_engine_extra(), s1_engine_extra().len() as int), "DynamicShadows=False"@),
        holds(patched(s, s1_engine_extra(), s1_engine_extra().len() as int), "SkeletalMeshLODBias=2"@),
{
    lemma_extra_settings();
    lemma_turned(s, s1_engine_extra(), extra_at(), 2);
    lemma_turned(s, s1_engine_extra(), extra_at(), 6);
}

/// Replacements leave a setting that they are told apart from.
proof fn lemma_left(s: Text, patches: Seq<PatchView>, at: Seq<int>, w: Text, g: int)
    requires
        turn_settings(patches, at, patches.len() as int),
        is_setting(w, g),
        clear_of(patches, at, w, g, patches.len() as int),
        holds(s, w),
    ensures
        holds(patched(s, patches, patches.len() as int), w),
{
    assert(patched(s, patches, 0) == s);
    lemma_never_meet(patches, at, w, g, patches.len() as int);
    lemma_kept(s, patches, w, 0, patches.len() as int);
}

/// The replacements for speed leave the settings that the further ones turn to.
pub proof fn lemma_base_leaves(s: Text, w: Text)
    requires
        w == "DynamicShadows=True"@ || w == "DynamicShadows=False"@ || w == "SkeletalMeshLODBias=0"@ || w
            == "SkeletalMeshLODBias=2"@,
        holds(s, w),
    ensures
        holds(patched(s, s1_engine(), s1_engine().len() as int), w),
{
    lemma_base_settings();
    let g = if w == "DynamicShadows=True"@ || w == "DynamicShadows=False"@ {
        14int
    } else {
        19int
    };
    lemma_left(s, s1_engine(), base_at(), w, g);
}

/// The further replacements leave the settings that the ones for speed turned.
pub proof fn lemma_extra_leaves(s: Text, w: Text)
    requires
        w == "OneFrameThreadLag=True"@ || w == "MotionBlur=False"@,
        holds(s, w),
    ensures
        holds(patched(s, s1_engine_extra(), s1_engine_extra().len() as int), w),
{
    lemma_extra_settings();
    let g = if w == "OneFrameThreadLag=True"@ {
        17int
    } else {
        10int
    };
    lemma_left(s, s1_engine_extra(), extra_at(), w, g);
}

/// Each of the first `n` settings that are turned is told apart from those that are turned
/// before it.
pub open spec fn in_turn(patches: Seq<PatchView>, at: Seq<int>, n: int) -> bool
    decreases n,
{
    n <= 0 || (clear_of(patches, at, patches[n - 1].from, at[n - 1], n - 1) && in_turn(patches, at, n - 1))
}

proof fn lemma_in_turn(patches: Seq<PatchView>, at: Seq<int>, n: int, i: int)
    requires
        in_turn(patches, at, n),
        0 <= i < n,
    ensures
        clear_of(patches, at, patches[i].from, at[i], i),
    decreases n,
{
    if i < n - 1 {
        lemma_in_turn(patches, at, n - 1, i);
    }
}

/// Each replacement leaves none of the settings that it turns, and where one of them
/// stood, or what it is turned to, that stands afterwards.
proof fn lemma_all_turned(s: Text, patches: Seq<PatchView>, at: Seq<int>)
    requires
        turn_settings(patches, at, patches.len() as int),
        all_clear(patches, at, patches.len() as int),
        in_turn(patches, at, patches.len() as int),
    ensures
        turned(s, patched(s, patches, patches.len() as int), patches),
{
    let n = patches.len() as int;
    let made = patched(s, patches, n);
    assert forall|i: int| 0 <= i < n implies (#[trigger] patches[i]).from.len() > 0 && patches[i].to.len() > 0 by {
        lemma_turn_settings(patches, at, n, i);
    }
    assert forall|i: int, j: int| 0 <= i < n && 0 <= j < n implies never_meet(
        (#[trigger] patches[i]).from,
        (#[trigger] patches[j]).to,
    ) by {
        lemma_turn_settings(patches, at, n, i);
        lemma_turn_settings(patches, at, n, j);
        lemma_all_clear(patches, at, n, j);
        lemma_clear_of(patches, at, patches[j].to, at[j], n, i);
        lemma_settings_never_meet(patches[i].from, at[i], patches[j].to, at[j]);
    }
    lemma_none_left(s, patches, n);
    assert forall|i: int|
        0 <= i < n && (holds(s, (#[trigger] patches[i]).from) || holds(s, patches[i].to)) implies holds(
        made,
        patches[i].to,
    ) by {
        lemma_in_turn(patches, at, n, i);
        lemma_turned(s, patches, at, i);
    }
    if forall|i: int| 0 <= i < n ==> !holds(s, (#[trigger] patches[i]).from) {
        law_nothing_to_replace(s, patches, n);
    }
}

/// In `made` none of the settings that `patches` turn is left, what each of them is turned
/// to stands there where the one or the other stood in `s`, and where none stood there
/// nothing changed.
pub open spec fn turned(s: Text, made: Text, patches: Seq<PatchView>) -> bool {
    &&& forall|i: int| 0 <= i < patches.len() ==> !holds(made, (#[trigger] patches[i]).from)
    &&& forall|i: int|
        0 <= i < patches.len() && (holds(s, (#[trigger] patches[i]).from) || holds(s, patches[i].to)) ==> holds(
            made,
            patches[i].to,
        )
    &&& (forall|i: int| 0 <= i < patches.len() ==> !holds(s, (#[trigger] patches[i]).from)) ==> made == s
}

/// The settings that cost frames are told apart from each other.
#[verifier::spinoff_prover]
#[verifier::rlimit(50)]
proof fn lemma_base_in_turn()
    ensures
        in_turn(s1_engine(), base_at(), 18),
{
    reveal_strlit("bSmoothFrameRate=TRUE");
    reveal_strlit("bSmoothFrameRate=FALSE");
    reveal_strlit("OneFrameThreadLag=False");
    reveal_strlit("OneFrameThreadLag=True");
    reveal_strlit("MotionBlur=True");
    reveal_strlit("MotionBlur=False");
    reveal_strlit("DepthOfField=True");
    reveal_strlit("DepthOfField=False");
    reveal_strlit("AmbientOcclusion=True");
    reveal_strlit("AmbientOcclusion=False");
    reveal_strlit("UseHighQualityBloom=True");
    reveal_strlit("UseHighQualityBloom=False");
    reveal_strlit("Distortion=True");
    reveal_strlit("Distortion=False");
    reveal_strlit("FogVolumes=True");
    reveal_strlit("FogVolumes=False");
    reveal_strlit("LensFlares=True");
    reveal_strlit("LensFlares=False");
    reveal_strlit("FXAA=True");
    reveal_strlit("FXAA=False");
    reveal_strlit("MaxShadowResolution=2048");
    reveal_strlit("MaxShadowResolution=1024");
    reveal_strlit("FoliageDrawRadiusMultiplier=1.050000");
    reveal_strlit("FoliageDrawRadiusMultiplier=0.700000");
    reveal_strlit("TimeBetweenPurgingPendingKillObjects=120");
    reveal_strlit("TimeBetweenPurgingPendingKillObjects=300");
    reveal_strlit("MaxObjectsNotConsideredByGC=0");
    reveal_strlit("MaxObjectsNotConsideredByGC=500000");
    reveal_strlit("SizeOfPermanentObjectPool=0");
    reveal_strlit("SizeOfPermanentObjectPool=16777216");
    reveal_strlit("PoolSize=2048");
    reveal_strlit("PoolSize=3072");
    reveal_strlit("HysteresisLimit=30");
    reveal_strlit("HysteresisLimit=50");
    reveal_strlit("FudgeFactorDecreaseRateOfChange=-0.4");
    reveal_strlit("FudgeFactorDecreaseRateOfChange=-0.8");
    reveal_with_fuel(clear_of, 19);
    reveal_with_fuel(in_turn, 19);
}

/// The default settings are told apart from each other.
#[verifier::spinoff_prover]
#[verifier::rlimit(50)]
proof fn lemma_default_in_turn()
    ensures
        in_turn(default_engine(), default_at(), 3),
{
    reveal_strlit("bSmoothFrameRate=TRUE");
    reveal_strlit("bSmoothFrameRate=FALSE");
    reveal_strlit("MaxSmoothedFrameRate=80");
    reveal_strlit("MaxSmoothedFrameRate=300");
    reveal_strlit("AmbientOcclusion=True");
    reveal_strlit("AmbientOcclusion=False");
    reveal_with_fuel(clear_of, 4);
    reveal_with_fuel(in_turn, 4);
}

/// The further settings are told apart from each other.
#[verifier::spinoff_prover]
#[verifier::rlimit(50)]
proof fn lemma_extra_in_turn()
    ensures
        in_turn(s1_engine_extra(), extra_at(), 22),
{
    reveal_strlit("PoolSize=3072");
    reveal_strlit("PoolSize=4096");
    reveal_strlit("MaxShadowResolution=1024");
    reveal_strlit("MaxShadowResolution=512");
    reveal_strlit("DynamicShadows=True");
    reveal_strlit("DynamicShadows=False");
    reveal_strlit("bAllowWholeSceneDominantShadows=True");
    reveal_strlit("bAllowWholeSceneDominantShadows=False");
    reveal_strlit("bEnableForegroundShadowsOnWorld=True");
    reveal_strlit("bEnableForegroundShadowsOnWorld=False");
    reveal_strlit("bEnableForegroundSelfShadowing=True");
    reveal_strlit("bEnableForegroundSelfShadowing=False");
    reveal_strlit("SkeletalMeshLODBias=0");
    reveal_strlit("SkeletalMeshLODBias=2");
    reveal_strlit("ParticleLODBias=0");
    reveal_strlit("ParticleLODBias=2");
    reveal_strlit("SpeedTreeLODBias=0");
    reveal_strlit("SpeedTreeLODBias=2");
    reveal_strlit("DetailMode=2");
    reveal_strlit("DetailMode=1");
    reveal_strlit("MaxAnisotropy=16");
    reveal_strlit("MaxAnisotropy=4");
    reveal_strlit("MaxAnisotropy=8");
    reveal_strlit("MaxMultiSamples=4");
    reveal_strlit("MaxMultiSamples=1");
    reveal_strlit("MaxMultiSamples=2");
    reveal_strlit("FoliageDrawRadiusMultiplier=0.700000");
    reveal_strlit("FoliageDrawRadiusMultiplier=0.500000");
    reveal_strlit("bInitializeShadersOnDemand=False");
    reveal_strlit("bInitializeShadersOnDemand=True");
    reveal_strlit("bForceCPUAccessToGPUSkinVerts=True");
    reveal_strlit("bForceCPUAccessToGPUSkinVerts=False");
    reveal_strlit("TranslucencyVolumeBlur=True");
    reveal_strlit("TranslucencyVolumeBlur=False");
    reveal_strlit("AllowSubsurfaceScattering=True");
    reveal_strlit("AllowSubsurfaceScattering=False");
    reveal_strlit("Bloom=True");
    reveal_strlit("Bloom=False");
    reveal_strlit("LightShafts=True");
    reveal_strlit("LightShafts=False");
    reveal_strlit("ShadowFilterQualityBias=0");
    reveal_strlit("ShadowFilterQualityBias=-1");
    reveal_with_fuel(clear_of, 23);
    reveal_with_fuel(in_turn, 23);
}

/// What the three lists of replacements do to a text.
pub proof fn lemma_lists_turned(s: Text)
    ensures
        turned(s, patched(s, s1_engine(), s1_engine().len() as int), s1_engine()),
        turned(s, patched(s, default_engine(), default_engine().len() as int), default_engine()),
        turned(s, patched(s, s1_engine_extra(), s1_engine_extra().len() as int), s1_engine_extra()),
{
    lemma_base_settings();
    lemma_base_in_turn();
    lemma_all_turned(s, s1_engine(), base_at());
    lemma_default_settings();
    lemma_default_in_turn();
    lemma_all_turned(s, default_engine(), default_at());
    lemma_extra_settings();
    lemma_extra_in_turn();
    lemma_all_turned(s, s1_engine_extra(), extra_at());
}

/// How many of the settings that the first `n` replacements turn stand in `s`.
pub open spec fn standing(s: Text, patches: Seq<PatchView>, n: int) -> nat
    decreases n,
{
    if n <= 0 {
        0
    } else {
        standing(s, patches, n - 1) + (if holds(s, patches[n - 1].from) {
            1nat
        } else {
            0nat
        })
    }
}

/// What stands after replacements that it does not meet stood before.
proof fn lemma_stood_before(s: Text, patches: Seq<PatchView>, w: Text, n: int)
    requires
        0 <= n <= patches.len(),
        w.len() > 0,
        forall|i: int| 0 <= i < patches.len() ==> (#[trigger] patches[i]).from.len() > 0 && patches[i].to.len() > 0,
        forall|i: int| 0 <= i < patches.len() ==> never_meet(w, (#[trigger] patches[i]).to),
        holds(patched(s, patches, n), w),
    ensures
        holds(s, w),
    decreases n,
{
    if n > 0 {
        let before = patched(s, patches, n - 1);
        let last = patches[n - 1];
        let p = choose|p: int| stands_at(replaced(before, last.from, last.to), w, p);
        lemma_not_made(before, last.from, last.to, w, 0, p);
        lemma_stood_before(s, patches, w, n - 1);
    }
}

/// Each replacement finds something exactly where its setting stands in the text at first.
proof fn lemma_counted(s: Text, patches: Seq<PatchView>, at: Seq<int>, n: int)
    requires
        0 <= n <= patches.len(),
        turn_settings(patches, at, patches.len() as int),
        all_clear(patches, at, patches.len() as int),
        in_turn(patches, at, patches.len() as int),
    ensures
        applied(s, patches, n) == standing(s, patches, n),
    decreases n,
{
    if n > 0 {
        lemma_counted(s, patches, at, n - 1);
        let all = patches.len() as int;
        let w = patches[n - 1].from;
        assert forall|i: int| 0 <= i < all implies (#[trigger] patches[i]).from.len() > 0 && patches[i].to.len() > 0 by {
            lemma_turn_settings(patches, at, all, i);
        }
        lemma_turn_settings(patches, at, all, n - 1);
        if holds(s, w) {
            lemma_in_turn(patches, at, all, n - 1);
            lemma_turn_some(patches, at, all, n - 1);
            lemma_never_meet(patches, at, w, at[n - 1], n - 1);
            assert(patched(s, patches, 0) == s);
            lemma_kept(s, patches, w, 0, n - 1);
        }
        if holds(patched(s, patches, n - 1), w) {
            assert forall|i: int| 0 <= i < all implies never_meet(w, (#[trigger] patches[i]).to) by {
                lemma_turn_settings(patches, at, all, i);
                lemma_all_clear(patches, at, all, i);
                lemma_clear_of(patches, at, patches[i].to, at[i], all, n - 1);
                lemma_settings_never_meet(w, at[n - 1], patches[i].to, at[i]);
            }
            lemma_stood_before(s, patches, w, n - 1);
        }
    }
}

/// The number that is told of replacements is how many of the settings that they turn stand
/// in the text.
pub proof fn law_replacements_are_counted(s: Text, patches: Seq<PatchView>)
    requires
        patches == s1_engine() || patches == default_engine() || patches == s1_engine_extra(),
    ensures
        applied(s, patches, patches.len() as int) == standing(s, patches, patches.len() as int),
{
    let n = patches.len() as int;
    if patches == s1_engine() {
        lemma_base_settings();
        lemma_base_in_turn();
        lemma_counted(s, patches, base_at(), n);
    } else if patches == default_engine() {
        lemma_default_settings();
        lemma_default_in_turn();
        lemma_counted(s, patches, default_at(), n);
    } else {
        lemma_extra_settings();
        lemma_extra_in_turn();
        lemma_counted(s, patches, extra_at(), n);
    }
}

} // verus!
