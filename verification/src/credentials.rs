//! Who plays, and what the portal says of that account.
use std::collections::HashMap;

use vstd::prelude::*;

use crate::number::{dec, is_digit, law_numbers_are_read_back, lemma_dec_digits, parse_u32, parsed};
use crate::text::{
    chars_of, joined, law_first_part, law_parts_are_split_again, law_white_space_is_taken_off, lemma_split_len, split,
    split_at_each, texts, trim, trimmed, white_space, Text,
};

verus! {

/// What a session of the game is started with.
pub struct Credentials {
    pub account_name: String,
    /// The last server played on and the characters on each server, in the form
    /// `lastServer|server,count|server,count|`.
    pub characters_count: String,
    pub ticket: String,
    pub game_lang: String,
    pub game_path: String,
}

/// [`Credentials`] in the model.
pub struct CredentialsView {
    pub account_name: Text,
    pub characters_count: Text,
    pub ticket: Text,
    pub game_lang: Text,
    pub game_path: Text,
}

impl View for Credentials {
    type V = CredentialsView;

    open spec fn view(&self) -> CredentialsView {
        CredentialsView {
            account_name: self.account_name@,
            characters_count: self.characters_count@,
            ticket: self.ticket@,
            game_lang: self.game_lang@,
            game_path: self.game_path@,
        }
    }
}

impl Credentials {
    /// Gives the same once more.
    pub fn copy(&self) -> (r: Credentials)
        ensures
            r@ == self@,
    {
        Credentials {
            account_name: self.account_name.clone(),
            characters_count: self.characters_count.clone(),
            ticket: self.ticket.clone(),
            game_lang: self.game_lang.clone(),
            game_path: self.game_path.clone(),
        }
    }
}

/// The number that `s` denotes, as far as a `u32` holds it.
pub open spec fn u32_of(s: Text) -> Option<u32> {
    match parsed(s, u32::MAX as nat) {
        Some(n) => Some(n as u32),
        None => None,
    }
}

/// The server and the number of characters in an entry `server,count`. White
/// space around the two is left out, and what follows a second comma.
pub open spec fn entry(s: Text) -> Option<(u32, u32)> {
    let fields = split(s, ',');
    if s.len() > 0 && fields.len() >= 2 && u32_of(trimmed(fields[0])) is Some && u32_of(trimmed(fields[1])) is Some {
        Some((u32_of(trimmed(fields[0]))->0, u32_of(trimmed(fields[1]))->0))
    } else {
        None
    }
}

/// The characters on each server by the first `n` of `entries`. What is no entry
/// is passed over; of two entries for one server the later counts.
pub open spec fn counts_of(entries: Seq<Text>, n: int) -> Map<u32, u32>
    decreases n,
{
    if n <= 0 {
        Map::empty()
    } else {
        match entry(entries[n - 1]) {
            Some((id, count)) => counts_of(entries, n - 1).insert(id, count),
            None => counts_of(entries, n - 1),
        }
    }
}

/// The last server played on, or 0 where that is not known.
pub open spec fn last_server(s: Text) -> u32 {
    match u32_of(split(s, '|')[0]) {
        Some(id) => id,
        None => 0,
    }
}

/// The characters on each server.
pub open spec fn character_counts(s: Text) -> Map<u32, u32> {
    let parts = split(s, '|');
    counts_of(parts.skip(1), parts.len() - 1)
}

/// How many characters there are on a server.
pub open spec fn count_on(counts: Map<u32, u32>, id: u32) -> u32 {
    if counts.dom().contains(id) {
        counts[id]
    } else {
        0
    }
}

/// Reads an entry `server,count`.
fn parse_entry(s: &Vec<char>) -> (r: Option<(u32, u32)>)
    ensures
        r == entry(s@),
{
    if s.len() == 0 {
        return None;
    }
    let fields = split_at_each(s, ',');
    assert(texts(fields@).len() == fields@.len());
    if fields.len() < 2 {
        return None;
    }
    assert(texts(fields@)[0] == fields@[0]@ && texts(fields@)[1] == fields@[1]@);
    match (parse_u32(&trim(&fields[0])), parse_u32(&trim(&fields[1]))) {
        (Some(id), Some(count)) => Some((id, count)),
        _ => None,
    }
}

/// Reads the last server played on and the characters on each server.
pub fn parse_character_counts(characters_count: &str) -> (r: (u32, HashMap<u32, u32>))
    ensures
        r.0 == last_server(characters_count@),
        r.1@ == character_counts(characters_count@),
{
    broadcast use vstd::std_specs::hash::group_hash_axioms;

    let parts = split_at_each(&chars_of(characters_count), '|');
    let ghost all = split(characters_count@, '|');
    let ghost entries = all.skip(1);
    proof {
        lemma_split_len(characters_count@, '|');
        assert(texts(parts@).len() == parts@.len());
        assert(texts(parts@)[0] == parts@[0]@);
    }
    let last: u32 = match parse_u32(&parts[0]) {
        Some(id) => id,
        None => 0,
    };
    let mut counts: HashMap<u32, u32> = HashMap::new();
    let n: usize = parts.len();
    assert(counts@ =~= counts_of(entries, 0));
    for i in 1..n
        invariant
            n == parts@.len(),
            texts(parts@) == all,
            entries == all.skip(1),
            all.len() == n,
            counts@ == counts_of(entries, i - 1),
    {
        broadcast use vstd::std_specs::hash::group_hash_axioms;

        assert(entries[i - 1] == all[i as int]);
        assert(all[i as int] == parts@[i as int]@);
        match parse_entry(&parts[i]) {
            Some((id, count)) => {
                counts.insert(id, count);
            },
            None => {},
        }
    }
    (last, counts)
}

/// Looks up how many characters there are on a server.
pub fn lookup_count(counts: &HashMap<u32, u32>, id: u32) -> (r: u32)
    ensures
        r == count_on(counts@, id),
{
    broadcast use vstd::std_specs::hash::group_hash_axioms;

    match counts.get(&id) {
        Some(c) => *c,
        None => 0,
    }
}

/// The last server played on is the number before the first bar, as far as a `u32` holds
/// it, whatever follows. Where no number stands there it is 0.
pub proof fn law_last_server_comes_first(n: nat, first: Text, rest: Text)
    requires
        !first.contains('|'),
    ensures
        n <= u32::MAX ==> last_server(dec(n)) == n && last_server(dec(n) + seq!['|'] + rest) == n,
        n > u32::MAX ==> last_server(dec(n)) == 0 && last_server(dec(n) + seq!['|'] + rest) == 0,
        first.len() == 0 ==> last_server(first) == 0 && last_server(first + seq!['|'] + rest) == 0,
        (exists|i: int| 0 <= i < first.len() && !('0' <= #[trigger] first[i] <= '9') && (i > 0 || first[i] != '+'))
            ==> last_server(first) == 0 && last_server(first + seq!['|'] + rest) == 0,
{
    lemma_dec_digits(n);
    let s = dec(n);
    assert forall|i: int| 0 <= i < s.len() implies s[i] != '|' by {
        assert(is_digit(s[i]));
    }
    law_first_part(s, rest, '|');
    assert(s + seq!['|'] + rest =~= s.push('|') + rest);
    law_first_part(first, rest, '|');
    assert(first + seq!['|'] + rest =~= first.push('|') + rest);
    if n <= u32::MAX {
        law_numbers_are_read_back(n, u32::MAX as nat);
    } else {
        assert(is_digit(s[0]));
    }
    if exists|i: int| 0 <= i < first.len() && !('0' <= #[trigger] first[i] <= '9') && (i > 0 || first[i] != '+') {
        let i = choose|i: int| 0 <= i < first.len() && !('0' <= #[trigger] first[i] <= '9') && (i > 0 || first[i] != '+');
        if first[0] == '+' {
            assert(first.skip(1)[i - 1] == first[i]);
            assert(!is_digit(first.skip(1)[i - 1]));
        } else {
            assert(!is_digit(first[i]));
        }
    }
}

/// The last server played on and the characters on each server, written out.
pub open spec fn written_counts(last: nat, entries: Seq<(u32, u32)>, bar_at_end: bool) -> Text {
    let parts = seq![dec(last)] + entries.map_values(
        |e: (u32, u32)| dec(e.0 as nat) + seq![','] + dec(e.1 as nat),
    );
    joined(
        if bar_at_end {
            parts.push(Seq::empty())
        } else {
            parts
        },
        '|',
    )
}

/// A number has no white space around it.
proof fn lemma_number_is_trimmed(n: nat)
    ensures
        trimmed(dec(n)) == dec(n),
{
    lemma_dec_digits(n);
    let s = dec(n);
    assert(is_digit(s[0]) && is_digit(s[s.len() - 1]));
    law_white_space_is_taken_off(Seq::empty(), s, Seq::empty());
    assert(Seq::<char>::empty() + s + Seq::<char>::empty() =~= s);
}

/// An entry that is written out is read back.
proof fn lemma_written_entry(id: u32, count: u32)
    ensures
        entry(dec(id as nat) + seq![','] + dec(count as nat)) == Some((id, count)),
        !(dec(id as nat) + seq![','] + dec(count as nat)).contains('|'),
{
    let (a, b) = (dec(id as nat), dec(count as nat));
    lemma_dec_digits(id as nat);
    lemma_dec_digits(count as nat);
    let parts = seq![a, b];
    assert forall|i: int| 0 <= i < a.len() implies a[i] != ',' && a[i] != '|' by {
        assert(is_digit(a[i]));
    }
    assert forall|i: int| 0 <= i < b.len() implies b[i] != ',' && b[i] != '|' by {
        assert(is_digit(b[i]));
    }
    law_parts_are_split_again(parts, ',');
    let s = a + seq![','] + b;
    assert(joined(parts, ',') =~= s) by {
        reveal_with_fuel(joined, 2);
        assert(parts.drop_last() =~= seq![a]);
    }
    lemma_number_is_trimmed(id as nat);
    lemma_number_is_trimmed(count as nat);
    law_numbers_are_read_back(id as nat, u32::MAX as nat);
    law_numbers_are_read_back(count as nat, u32::MAX as nat);
    assert forall|i: int| 0 <= i < s.len() implies s[i] != '|' by {
        if i < a.len() {
            assert(s[i] == a[i]);
        } else if i > a.len() {
            assert(s[i] == b[i - a.len() - 1]);
        }
    }
}

/// What was read of `texts` is what `entries` say.
proof fn lemma_counts_of(texts: Seq<Text>, entries: Seq<(u32, u32)>, n: int, id: u32)
    requires
        0 <= n <= texts.len(),
        forall|i: int| 0 <= i < n && i < entries.len() ==> entry(#[trigger] texts[i]) == Some(entries[i]),
        forall|i: int| entries.len() <= i < n ==> entry(#[trigger] texts[i]) is None,
    ensures
        (forall|i: int| 0 <= i < n && i < entries.len() ==> (#[trigger] entries[i]).0 != id) ==> !counts_of(
            texts,
            n,
        ).dom().contains(id),
        forall|i: int|
            0 <= i < n && i < entries.len() && (#[trigger] entries[i]).0 == id && (forall|j: int|
                i < j < n && j < entries.len() ==> (#[trigger] entries[j]).0 != id) ==> counts_of(texts, n).dom().contains(
                id,
            ) && counts_of(texts, n)[id] == entries[i].1,
    decreases n,
{
    if n > 0 {
        lemma_counts_of(texts, entries, n - 1, id);
        assert(n - 1 < entries.len() ==> entry(texts[n - 1]) == Some(entries[n - 1]));
        assert(n - 1 >= entries.len() ==> entry(texts[n - 1]) is None);
    }
}

/// The characters on a server are counted as its entry says, the last one where there are
/// several, and there are none on a server without an entry. The last server played on
/// comes before the entries.
pub proof fn law_characters_are_counted(last: nat, entries: Seq<(u32, u32)>, bar_at_end: bool, id: u32)
    ensures
        ({
            let s = written_counts(last, entries, bar_at_end);
            &&& last <= u32::MAX ==> last_server(s) == last
            &&& (forall|i: int| 0 <= i < entries.len() ==> (#[trigger] entries[i]).0 != id) ==> count_on(
                character_counts(s),
                id,
            ) == 0
            &&& forall|i: int|
                0 <= i < entries.len() && (#[trigger] entries[i]).0 == id && (forall|j: int|
                    i < j < entries.len() ==> (#[trigger] entries[j]).0 != id) ==> count_on(character_counts(s), id)
                    == entries[i].1
        }),
{
    let heads = seq![dec(last)];
    let written = entries.map_values(|e: (u32, u32)| dec(e.0 as nat) + seq![','] + dec(e.1 as nat));
    let parts = if bar_at_end {
        (heads + written).push(Seq::empty())
    } else {
        heads + written
    };
    let s = written_counts(last, entries, bar_at_end);
    lemma_dec_digits(last);
    let first = dec(last);
    assert forall|i: int| 0 <= i < first.len() implies first[i] != '|' by {
        assert(is_digit(first[i]));
    }
    assert forall|i: int| 0 <= i < parts.len() implies !(#[trigger] parts[i]).contains('|') by {
        if 0 < i <= entries.len() {
            let e = entries[i - 1];
            lemma_written_entry(e.0, e.1);
            assert(parts[i] == written[i - 1]);
        }
    }
    law_parts_are_split_again(parts, '|');
    assert(parts[0] == first);
    if last <= u32::MAX {
        law_numbers_are_read_back(last, u32::MAX as nat);
    }
    let texts = parts.skip(1);
    assert forall|i: int| 0 <= i < entries.len() implies entry(#[trigger] texts[i]) == Some(entries[i]) by {
        lemma_written_entry(entries[i].0, entries[i].1);
        assert(texts[i] == written[i]);
    }
    assert forall|i: int| entries.len() <= i < texts.len() implies entry(#[trigger] texts[i]) is None by {
        assert(texts[i] == Seq::<char>::empty());
    }
    lemma_counts_of(texts, entries, texts.len() as int, id);
}

/// White space around the two numbers of an entry is passed over, and so is what is no
/// entry: one without a comma, or with anything else than a number before or behind it.
pub proof fn law_entries_are_told_from_the_rest(id: u32, count: u32, a: Text, b: Text, c: Text, d: Text, s: Text)
    requires
        forall|i: int| 0 <= i < a.len() ==> white_space(#[trigger] a[i]) && a[i] != ',',
        forall|i: int| 0 <= i < b.len() ==> white_space(#[trigger] b[i]) && b[i] != ',',
        forall|i: int| 0 <= i < c.len() ==> white_space(#[trigger] c[i]) && c[i] != ',',
        forall|i: int| 0 <= i < d.len() ==> white_space(#[trigger] d[i]) && d[i] != ',',
        !s.contains(','),
    ensures
        entry((a + dec(id as nat) + b) + seq![','] + (c + dec(count as nat) + d)) == Some((id, count)),
        entry(s) is None,
        trimmed(s).len() == 0 ==> entry(s + seq![','] + dec(count as nat)) is None,
        trimmed(s).len() == 0 ==> entry(dec(id as nat) + seq![','] + s) is None,
{
    let x = dec(id as nat);
    let y = dec(count as nat);
    lemma_dec_digits(id as nat);
    lemma_dec_digits(count as nat);
    assert(is_digit(x[0]) && is_digit(x[x.len() - 1]) && is_digit(y[0]) && is_digit(y[y.len() - 1]));
    law_white_space_is_taken_off(a, x, b);
    law_white_space_is_taken_off(c, y, d);
    law_numbers_are_read_back(id as nat, u32::MAX as nat);
    law_numbers_are_read_back(count as nat, u32::MAX as nat);
    let (l, r) = (a + x + b, c + y + d);
    assert forall|i: int| 0 <= i < l.len() implies l[i] != ',' by {
        if i < a.len() {
            assert(l[i] == a[i]);
        } else if i < a.len() + x.len() {
            assert(l[i] == x[i - a.len()] && is_digit(x[i - a.len()]));
        } else {
            assert(l[i] == b[i - a.len() - x.len()]);
        }
    }
    assert forall|i: int| 0 <= i < r.len() implies r[i] != ',' by {
        if i < c.len() {
            assert(r[i] == c[i]);
        } else if i < c.len() + y.len() {
            assert(r[i] == y[i - c.len()] && is_digit(y[i - c.len()]));
        } else {
            assert(r[i] == d[i - c.len() - y.len()]);
        }
    }
    assert forall|i: int| 0 <= i < x.len() implies x[i] != ',' by {
        assert(is_digit(x[i]));
    }
    assert forall|i: int| 0 <= i < y.len() implies y[i] != ',' by {
        assert(is_digit(y[i]));
    }
    lemma_two_fields(l, r);
    lemma_two_fields(s, y);
    lemma_two_fields(x, s);
    law_parts_are_split_again(seq![s], ',');
    assert(joined(seq![s], ',') == s);
}

proof fn lemma_two_fields(l: Text, r: Text)
    requires
        !l.contains(','),
        !r.contains(','),
    ensures
        split(l + seq![','] + r, ',') == seq![l, r],
{
    law_parts_are_split_again(seq![l, r], ',');
    reveal_with_fuel(joined, 2);
    assert(seq![l, r].drop_last() =~= seq![l]);
    assert(joined(seq![l, r], ',') =~= l + seq![','] + r);
}

/// What follows a second comma is passed over.
pub proof fn law_further_fields_are_passed_over(id: u32, count: u32, rest: Text)
    requires
        !rest.contains(','),
    ensures
        entry(dec(id as nat) + seq![','] + dec(count as nat) + seq![','] + rest) == Some((id, count)),
{
    let (a, b) = (dec(id as nat), dec(count as nat));
    lemma_dec_digits(id as nat);
    lemma_dec_digits(count as nat);
    assert forall|i: int| 0 <= i < a.len() implies a[i] != ',' by {
        assert(is_digit(a[i]));
    }
    assert forall|i: int| 0 <= i < b.len() implies b[i] != ',' by {
        assert(is_digit(b[i]));
    }
    let parts = seq![a, b, rest];
    law_parts_are_split_again(parts, ',');
    reveal_with_fuel(joined, 4);
    assert(parts.drop_last() =~= seq![a, b]);
    assert(parts.drop_last().drop_last() =~= seq![a]);
    assert(joined(parts, ',') =~= a + seq![','] + b + seq![','] + rest);
    lemma_number_is_trimmed(id as nat);
    lemma_number_is_trimmed(count as nat);
    law_numbers_are_read_back(id as nat, u32::MAX as nat);
    law_numbers_are_read_back(count as nat, u32::MAX as nat);
}

} // verus!
