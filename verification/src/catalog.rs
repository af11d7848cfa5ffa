//! The server list as it is kept between requests, and the order in which the
//! client is shown it.
use vstd::prelude::*;

use crate::credentials::{character_counts, count_on, lookup_count, parse_character_counts};
use crate::text::{
    before_from, comes_before, law_first_difference_decides, lemma_before_total, lemma_before_transitive, Text,
};
use crate::utf16::{le_units, units_of};
use crate::wire::{arrival, indices, ints, ServerInfoView, ServerList, ServerListView};

verus! {

/// A server list with the order in which it was last shown.
pub struct ServerCatalog {
    list: ServerList,
    /// How many characters the account has on each server.
    counts: Vec<u32>,
    /// The servers by their index in the list, in the order last shown.
    order: Vec<usize>,
    /// The criterion of the last request, unless that asked for no order.
    last: Option<i32>,
}

/// [`ServerCatalog`] in the model.
#[verifier::ext_equal]
pub struct CatalogView {
    pub list: ServerListView,
    pub counts: Seq<u32>,
    pub order: Seq<int>,
    pub last: Option<i32>,
}

impl View for ServerCatalog {
    type V = CatalogView;

    closed spec fn view(&self) -> CatalogView {
        CatalogView {
            list: self.list@,
            counts: self.counts@,
            order: self.order@.map_values(|i: usize| i as int),
            last: self.last,
        }
    }
}

/// A text in the message as the numbers of its UTF-16 code units.
pub open spec fn unit_codes(b: Seq<u8>) -> Seq<int> {
    le_units(b).map_values(|u: u16| u as int)
}

impl CatalogView {
    /// Each server stands in the order once.
    pub open spec fn wf(self) -> bool {
        let n = self.list.servers.len();
        &&& self.counts.len() == n
        &&& self.order.len() == n
        &&& forall|i: int| 0 <= i < n ==> 0 <= #[trigger] self.order[i] < n
        &&& self.order.no_duplicates()
    }

    /// Server `a` stands before server `b` by the criterion `c`: 0 the number of
    /// characters, 1 the category, 2 the name, 4 the population. By any other,
    /// none stands before another.
    pub open spec fn less(self, c: i32, a: int, b: int) -> bool {
        let x = self.list.servers[a];
        let y = self.list.servers[b];
        if c == 0 {
            self.counts[a] < self.counts[b]
        } else if c == 1 {
            comes_before(unit_codes(x.category), unit_codes(y.category))
        } else if c == 2 {
            comes_before(unit_codes(x.name), unit_codes(y.name))
        } else if c == 4 {
            comes_before(unit_codes(x.population), unit_codes(y.population))
        } else {
            false
        }
    }

    /// Server `x` put in behind those of `s` that it does not stand before.
    pub open spec fn placed(self, c: i32, s: Seq<int>, x: int) -> Seq<int>
        decreases s.len(),
    {
        if s.len() == 0 || !self.less(c, x, s.last()) {
            s.push(x)
        } else {
            self.placed(c, s.drop_last(), x).push(s.last())
        }
    }

    /// `s` sorted by the criterion `c`, equals in the order they had.
    pub open spec fn sorted(self, c: i32, s: Seq<int>) -> Seq<int>
        decreases s.len(),
    {
        if s.len() == 0 {
            s
        } else {
            self.placed(c, self.sorted(c, s.drop_last()), s.last())
        }
    }

    /// The catalog after a request with the criterion `c`: -1 brings back the order
    /// of the list, the criterion of the last request turns the order round, and
    /// any other sorts what was shown last.
    pub open spec fn requested(self, c: i32) -> CatalogView {
        if c == -1 {
            CatalogView { order: arrival(self.list.servers.len()), last: None, ..self }
        } else if self.last == Some(c) {
            CatalogView { order: self.order.reverse(), ..self }
        } else {
            CatalogView { order: self.sorted(c, self.order), last: Some(c), ..self }
        }
    }

    /// The list in the order last shown, with the given criterion.
    pub open spec fn shown(self, sort_criterion: u32) -> ServerListView {
        self.list.arranged(self.order, sort_criterion)
    }
}

/// The catalog of a list that has not been shown yet.
pub open spec fn fresh(list: ServerListView, characters_count: Text) -> CatalogView {
    CatalogView {
        list,
        counts: list.servers.map_values(
            |s: ServerInfoView| count_on(character_counts(characters_count), s.id),
        ),
        order: arrival(list.servers.len()),
        last: None,
    }
}

/// The number in four bytes, the lowest first.
pub open spec fn i32_of(b: Seq<u8>) -> i32 {
    (if b[3] < 128 {
        b[0] + 256 * b[1] + 65536 * b[2] + 16777216 * b[3]
    } else {
        b[0] + 256 * b[1] + 65536 * b[2] + 16777216 * (b[3] - 256)
    }) as i32
}

/// The 32 bits of a number.
pub open spec fn bits_of(n: i32) -> u32 {
    (if n < 0 {
        n + 0x1_0000_0000
    } else {
        n as int
    }) as u32
}

/// The catalog after a request with the given payload. One that holds no criterion
/// changes nothing.
pub open spec fn after_request(catalog: CatalogView, payload: Seq<u8>) -> CatalogView {
    if payload.len() == 4 {
        catalog.requested(i32_of(payload))
    } else {
        catalog
    }
}

/// The list that answers a request with the given payload. It has the criterion
/// that was asked for, or the list's own where none was.
pub open spec fn answer_list(catalog: CatalogView, payload: Seq<u8>) -> ServerListView {
    after_request(catalog, payload).shown(
        if payload.len() == 4 {
            bits_of(i32_of(payload))
        } else {
            catalog.list.sort_criterion
        },
    )
}

/// Reads a number of four bytes.
fn read_i32(b: &[u8]) -> (r: i32)
    requires
        b@.len() == 4,
    ensures
        r == i32_of(b@),
{
    let low: i64 = b[0] as i64 + 256 * (b[1] as i64) + 65536 * (b[2] as i64);
    let high: i64 = if b[3] < 128 {
        b[3] as i64
    } else {
        b[3] as i64 - 256
    };
    (low + 16777216 * high) as i32
}

/// Whether a text of the message stands before another.
fn text_less(a: &Vec<u8>, b: &Vec<u8>) -> (r: bool)
    ensures
        r == comes_before(unit_codes(a@), unit_codes(b@)),
{
    let x = units_of(a, 0);
    let y = units_of(b, 0);
    assert(a@.skip(0) =~= a@ && b@.skip(0) =~= b@);
    let n: usize = y.len();
    let m: usize = x.len();
    let mut i: usize = 0;
    while i < n
        invariant
            n == y@.len(),
            m == x@.len(),
            x@ == le_units(a@),
            y@ == le_units(b@),
            i <= n,
            comes_before(unit_codes(a@), unit_codes(b@)) == before_from(unit_codes(a@), unit_codes(b@), i as int),
        decreases n - i,
    {
        if i >= m {
            return true;
        }
        if x[i] != y[i] {
            return x[i] < y[i];
        }
        i += 1;
    }
    false
}

impl ServerCatalog {
    /// Whether server `a` stands before server `b` by the criterion `c`.
    fn is_less(&self, c: i32, a: usize, b: usize) -> (r: bool)
        requires
            a < self@.list.servers.len(),
            b < self@.list.servers.len(),
            self@.counts.len() == self@.list.servers.len(),
        ensures
            r == self@.less(c, a as int, b as int),
    {
        if c == 0 {
            self.counts[a] < self.counts[b]
        } else if c == 1 {
            text_less(&self.list.servers[a].category, &self.list.servers[b].category)
        } else if c == 2 {
            text_less(&self.list.servers[a].name, &self.list.servers[b].name)
        } else if c == 4 {
            text_less(&self.list.servers[a].population, &self.list.servers[b].population)
        } else {
            false
        }
    }

    /// Makes a catalog of a list that has not been shown yet.
    pub fn new(list: ServerList, characters_count: &str) -> (r: Self)
        ensures
            r@.wf(),
            r@ == fresh(list@, characters_count@),
    {
        let (_, known) = parse_character_counts(characters_count);
        let ghost all = list@.servers.map_values(
            |s: ServerInfoView| count_on(character_counts(characters_count@), s.id),
        );
        let n: usize = list.servers.len();
        let mut counts: Vec<u32> = Vec::new();
        for i in 0..n
            invariant
                n == list.servers@.len(),
                known@ == character_counts(characters_count@),
                all == list@.servers.map_values(
                    |s: ServerInfoView| count_on(character_counts(characters_count@), s.id),
                ),
                counts@ == all.take(i as int),
        {
            counts.push(lookup_count(&known, list.servers[i].id));
            assert(all.take(i + 1) =~= all.take(i as int).push(all[i as int]));
        }
        assert(all.take(n as int) =~= all);
        let order = indices(n);
        assert(ints(order@) =~= arrival(n as nat));
        ServerCatalog { list, counts, order, last: None }
    }

    /// Gives the same once more.
    pub fn copy(&self) -> (r: Self)
        ensures
            r@ == self@,
    {
        ServerCatalog {
            list: self.list.copy(),
            counts: self.counts.clone(),
            order: self.order.clone(),
            last: self.last,
        }
    }

    /// Puts server `x` in behind those of `s` that it does not stand before.
    fn place(&self, c: i32, s: &mut Vec<usize>, x: usize)
        requires
            self@.wf(),
            x < self@.list.servers.len(),
            forall|i: int| 0 <= i < old(s)@.len() ==> #[trigger] old(s)@[i] < self@.list.servers.len(),
        ensures
            ints(final(s)@) == self@.placed(c, ints(old(s)@), x as int),
            forall|i: int| 0 <= i < final(s)@.len() ==> #[trigger] final(s)@[i] < self@.list.servers.len(),
    {
        let ghost all = ints(s@);
        let ghost target = self@.placed(c, all, x as int);
        let mut j: usize = s.len();
        assert(all.take(j as int) =~= all);
        assert(target =~= self@.placed(c, all.take(j as int), x as int) + all.skip(j as int));
        while j > 0 && self.is_less(c, x, s[j - 1])
            invariant
                self@.wf(),
                x < self@.list.servers.len(),
                forall|i: int| 0 <= i < s@.len() ==> #[trigger] s@[i] < self@.list.servers.len(),
                all == ints(s@),
                j <= s@.len(),
                target == self@.placed(c, all.take(j as int), x as int) + all.skip(j as int),
            decreases j,
        {
            let ghost part = all.take(j as int);
            assert(part.last() == s@[j - 1]);
            assert(part.drop_last() =~= all.take(j - 1));
            j -= 1;
            assert(self@.placed(c, part.drop_last(), x as int).push(part.last()) + all.skip(j + 1) =~= self@.placed(
                c,
                all.take(j as int),
                x as int,
            ) + all.skip(j as int));
        }
        let ghost part = all.take(j as int);
        assert(j > 0 ==> part.last() == s@[j - 1]);
        assert(self@.placed(c, part, x as int) == part.push(x as int));
        s.insert(j, x);
        assert(ints(s@) =~= part.push(x as int) + all.skip(j as int));
    }

    /// The order, sorted by the criterion `c`.
    fn sort(&self, c: i32) -> (r: Vec<usize>)
        requires
            self@.wf(),
        ensures
            ints(r@) == self@.sorted(c, self@.order),
    {
        let ghost all = self@.order;
        let n: usize = self.order.len();
        let mut r: Vec<usize> = Vec::new();
        assert(ints(r@) =~= all.take(0));
        for i in 0..n
            invariant
                self@.wf(),
                all == self@.order,
                n == self.order@.len(),
                ints(r@) == self@.sorted(c, all.take(i as int)),
                forall|k: int| 0 <= k < r@.len() ==> #[trigger] r@[k] < self@.list.servers.len(),
        {
            assert(all[i as int] == self.order@[i as int]);
            assert(all.take(i + 1).drop_last() =~= all.take(i as int));
            assert(all.take(i + 1).last() == all[i as int]);
            self.place(c, &mut r, self.order[i]);
        }
        assert(all.take(n as int) =~= all);
        r
    }

    /// Takes note of a request with the criterion `c`.
    pub fn request(&mut self, c: i32)
        requires
            old(self)@.wf(),
        ensures
            final(self)@ == old(self)@.requested(c),
            final(self)@.wf(),
    {
        proof {
            lemma_requested_wf(self@, c);
        }
        if c == -1 {
            self.order = indices(self.list.servers.len());
            self.last = None;
            assert(self@.order =~= arrival(self@.list.servers.len()));
        } else {
            let again = match self.last {
                Some(l) => l == c,
                None => false,
            };
            if again {
                self.order = reversed(&self.order);
            } else {
                self.order = self.sort(c);
                self.last = Some(c);
            }
        }
    }

    /// The message of the list in the order last shown, with the given criterion.
    pub fn encode_shown(&self, sort_criterion: u32) -> (b: Vec<u8>)
        requires
            self@.wf(),
        ensures
            b@ == self@.shown(sort_criterion).message(),
    {
        assert forall|i: int| 0 <= i < self.order@.len() implies #[trigger] self.order@[i]
            < self.list@.servers.len() by {
            assert(self@.order[i] == self.order@[i]);
        }
        self.list.encode_arranged(&self.order, sort_criterion)
    }

    /// Answers a request with the given payload: the criterion by which to sort, in
    /// four bytes. Without one the list comes as it was last shown.
    pub fn answer(&mut self, payload: &[u8]) -> (b: Vec<u8>)
        requires
            old(self)@.wf(),
        ensures
            final(self)@ == after_request(old(self)@, payload@),
            final(self)@.wf(),
            b@ == answer_list(old(self)@, payload@).message(),
    {
        if payload.len() == 4 {
            let c: i32 = read_i32(payload);
            self.request(c);
            self.encode_shown(to_bits(c))
        } else {
            self.encode_shown(self.list.sort_criterion)
        }
    }
}

/// Turns indices round.
fn reversed(v: &Vec<usize>) -> (r: Vec<usize>)
    ensures
        ints(r@) == ints(v@).reverse(),
{
    let mut r: Vec<usize> = Vec::new();
    let n: usize = v.len();
    for i in 0..n
        invariant
            n == v@.len(),
            r@.len() == i,
            forall|k: int| 0 <= k < i ==> r@[k] == v@[n - 1 - k],
    {
        r.push(v[n - 1 - i]);
    }
    assert(ints(r@) =~= ints(v@).reverse());
    r
}

/// The 32 bits of a number.
fn to_bits(n: i32) -> (r: u32)
    ensures
        r == bits_of(n),
{
    if n < 0 {
        (n as i64 + 0x1_0000_0000) as u32
    } else {
        n as u32
    }
}

/// Putting a server in keeps the others.
proof fn lemma_placed_members(v: CatalogView, c: i32, s: Seq<int>, x: int)
    ensures
        v.placed(c, s, x).to_multiset() == s.to_multiset().insert(x),
        v.placed(c, s, x).len() == s.len() + 1,
    decreases s.len(),
{
    broadcast use vstd::seq_lib::group_to_multiset_ensures;

    if s.len() == 0 || !v.less(c, x, s.last()) {
    } else {
        let rest = s.drop_last();
        lemma_placed_members(v, c, rest, x);
        assert(rest.push(s.last()) =~= s);
        assert(s.to_multiset() =~= rest.to_multiset().insert(s.last()));
        assert(v.placed(c, s, x).to_multiset() =~= v.placed(c, rest, x).to_multiset().insert(s.last()));
        assert(rest.to_multiset().insert(x).insert(s.last()) =~= rest.to_multiset().insert(s.last()).insert(x));
    }
}

/// Sorting keeps the servers.
pub proof fn law_sorting_keeps_the_servers(v: CatalogView, c: i32, s: Seq<int>)
    ensures
        v.sorted(c, s).to_multiset() == s.to_multiset(),
        v.sorted(c, s).len() == s.len(),
    decreases s.len(),
{
    broadcast use vstd::seq_lib::group_to_multiset_ensures;

    if s.len() > 0 {
        law_sorting_keeps_the_servers(v, c, s.drop_last());
        lemma_placed_members(v, c, v.sorted(c, s.drop_last()), s.last());
        assert(s.drop_last().push(s.last()) =~= s);
    }
}

/// Every request leaves each server in the order once.
pub proof fn lemma_requested_wf(v: CatalogView, c: i32)
    requires
        v.wf(),
    ensures
        v.requested(c).wf(),
{
    let n = v.list.servers.len();
    if c == -1 {
    } else if v.last == Some(c) {
        let r = v.order.reverse();
        assert forall|i: int| 0 <= i < n implies 0 <= #[trigger] r[i] < n by {
            assert(r[i] == v.order[n - 1 - i]);
        }
        assert forall|i: int, j: int| 0 <= i < n && 0 <= j < n && i != j implies r[i] != r[j] by {
            assert(r[i] == v.order[n - 1 - i] && r[j] == v.order[n - 1 - j]);
        }
    } else {
        let r = v.sorted(c, v.order);
        law_sorting_keeps_the_servers(v, c, v.order);
        lemma_same_members(v.order, r, n);
    }
}

/// What has the same members as an order of the servers is one too.
proof fn lemma_same_members(s: Seq<int>, r: Seq<int>, n: nat)
    requires
        r.to_multiset() == s.to_multiset(),
        r.len() == s.len(),
        forall|i: int| 0 <= i < s.len() ==> 0 <= #[trigger] s[i] < n,
        s.no_duplicates(),
    ensures
        forall|i: int| 0 <= i < r.len() ==> 0 <= #[trigger] r[i] < n,
        r.no_duplicates(),
{
    broadcast use vstd::seq_lib::group_to_multiset_ensures;

    s.lemma_multiset_has_no_duplicates();
    assert forall|i: int| 0 <= i < r.len() implies 0 <= #[trigger] r[i] < n by {
        assert(r.to_multiset().count(r[i]) > 0) by {
            assert(r.contains(r[i]));
        }
        assert(s.contains(r[i]));
    }
    r.lemma_multiset_has_no_duplicates_conv();
}

/// Of two different texts exactly one comes before the other, and of three in
/// order the first comes before the last.
proof fn lemma_order_of_texts(a: Seq<int>, b: Seq<int>, c: Seq<int>)
    ensures
        !(comes_before(a, b) && comes_before(b, a)),
        comes_before(a, c) ==> comes_before(a, b) || comes_before(b, c),
{
    lemma_before_total(a, b, 0);
    lemma_before_total(b, c, 0);
    if comes_before(a, c) && comes_before(c, b) {
        lemma_before_transitive(a, c, b, 0);
    }
}

/// No two servers stand before each other; and where `a` stands before `d`, any
/// other stands behind `a` or before `d`.
proof fn lemma_less(v: CatalogView, c: i32, a: int, b: int, d: int)
    ensures
        !(v.less(c, a, b) && v.less(c, b, a)),
        v.less(c, a, d) ==> v.less(c, a, b) || v.less(c, b, d),
{
    let x = v.list.servers[a];
    let y = v.list.servers[b];
    let z = v.list.servers[d];
    lemma_order_of_texts(unit_codes(x.category), unit_codes(y.category), unit_codes(z.category));
    lemma_order_of_texts(unit_codes(x.name), unit_codes(y.name), unit_codes(z.name));
    lemma_order_of_texts(unit_codes(x.population), unit_codes(y.population), unit_codes(z.population));
}

/// A server is put in behind one that it does not stand before, and before those
/// behind that one, all of which it stands before.
proof fn lemma_placed_shape(v: CatalogView, c: i32, s: Seq<int>, x: int) -> (j: int)
    ensures
        0 <= j <= s.len(),
        v.placed(c, s, x) == s.take(j).push(x) + s.skip(j),
        j > 0 ==> !v.less(c, x, s[j - 1]),
        forall|k: int| j <= k < s.len() ==> v.less(c, x, #[trigger] s[k]),
    decreases s.len(),
{
    if s.len() == 0 || !v.less(c, x, s.last()) {
        let j = s.len() as int;
        assert(s.take(j).push(x) + s.skip(j) =~= s.push(x));
        j
    } else {
        let rest = s.drop_last();
        let j = lemma_placed_shape(v, c, rest, x);
        assert(rest.take(j) =~= s.take(j));
        assert(s.take(j).push(x) + s.skip(j) =~= (rest.take(j).push(x) + rest.skip(j)).push(s.last()));
        assert forall|k: int| j <= k < s.len() implies v.less(c, x, #[trigger] s[k]) by {
            if k < rest.len() {
                assert(rest[k] == s[k]);
            }
        }
        j
    }
}

/// None of `s` stands before one that is in front of it.
pub open spec fn in_order(v: CatalogView, c: i32, s: Seq<int>) -> bool {
    forall|i: int, j: int| 0 <= i < j < s.len() ==> !v.less(c, #[trigger] s[j], #[trigger] s[i])
}

/// Sorting puts the servers in the order of the criterion.
pub proof fn law_sorting_puts_in_order(v: CatalogView, c: i32, s: Seq<int>)
    ensures
        in_order(v, c, v.sorted(c, s)),
    decreases s.len(),
{
    if s.len() > 0 {
        let before = v.sorted(c, s.drop_last());
        let x = s.last();
        law_sorting_puts_in_order(v, c, s.drop_last());
        let p = lemma_placed_shape(v, c, before, x);
        let r = v.sorted(c, s);
        assert forall|i: int, j: int| 0 <= i < j < r.len() implies !v.less(c, #[trigger] r[j], #[trigger] r[i]) by {
            if j < p {
                assert(r[i] == before[i] && r[j] == before[j]);
            } else if j == p {
                // `x` itself, behind those that it does not stand before.
                assert(r[i] == before[i]);
                assert(i == p - 1 || !v.less(c, before[p - 1], before[i]));
                lemma_less(v, c, x, before[p - 1], before[i]);
            } else if i == p {
                assert(r[j] == before[j - 1]);
                lemma_less(v, c, x, before[j - 1], x);
            } else if i < p {
                assert(r[i] == before[i] && r[j] == before[j - 1]);
            } else {
                assert(r[i] == before[i - 1] && r[j] == before[j - 1]);
            }
        }
    }
}

/// Sorting is stable: servers of which neither stands before the other keep the
/// order they had.
pub proof fn law_sorting_is_stable(v: CatalogView, c: i32, s: Seq<int>, i: int, j: int)
    requires
        s.no_duplicates(),
        0 <= i < j < v.sorted(c, s).len(),
        !v.less(c, v.sorted(c, s)[i], v.sorted(c, s)[j]),
        !v.less(c, v.sorted(c, s)[j], v.sorted(c, s)[i]),
    ensures
        s.contains(v.sorted(c, s)[i]),
        s.contains(v.sorted(c, s)[j]),
        s.index_of(v.sorted(c, s)[i]) < s.index_of(v.sorted(c, s)[j]),
    decreases s.len(),
{
    let r = v.sorted(c, s);
    let rest = s.drop_last();
    let before = v.sorted(c, rest);
    let x = s.last();
    law_sorting_keeps_the_servers(v, c, s);
    law_sorting_keeps_the_servers(v, c, rest);
    lemma_member_of_sorted(v, c, s, r[i]);
    lemma_member_of_sorted(v, c, s, r[j]);
    let p = lemma_placed_shape(v, c, before, x);
    assert(s.index_of(x) == s.len() - 1);
    if i == p {
        assert(r[j] == before[j - 1]);
        assert(false);
    } else if j == p {
        assert(r[i] == before[i]);
        lemma_member_of_sorted(v, c, rest, before[i]);
        let k = rest.index_of(before[i]);
        assert(s[k] == r[i]);
        assert(s.index_of(r[i]) == k);
    } else {
        let i2 = if i < p { i } else { i - 1 };
        let j2 = if j < p { j } else { j - 1 };
        assert(r[i] == before[i2] && r[j] == before[j2]);
        law_sorting_is_stable(v, c, rest, i2, j2);
        let a = rest.index_of(before[i2]);
        let b = rest.index_of(before[j2]);
        assert(s[a] == r[i] && s[b] == r[j]);
        assert(s.index_of(r[i]) == a && s.index_of(r[j]) == b);
    }
}

/// What is in the sorted order was in the order.
proof fn lemma_member_of_sorted(v: CatalogView, c: i32, s: Seq<int>, x: int)
    requires
        v.sorted(c, s).contains(x),
    ensures
        s.contains(x),
{
    broadcast use vstd::seq_lib::group_to_multiset_ensures;

    law_sorting_keeps_the_servers(v, c, s);
    assert(v.sorted(c, s).to_multiset().count(x) > 0);
}

/// Whatever was asked, the answer lists every server of the list once.
pub proof fn law_every_server_is_answered_once(v: CatalogView, payload: Seq<u8>)
    requires
        v.wf(),
    ensures
        ({
            let after = after_request(v, payload);
            &&& after.wf()
            &&& after.list == v.list
            &&& answer_list(v, payload).servers.len() == v.list.servers.len()
            &&& answer_list(v, payload).last_server_id == v.list.last_server_id
            &&& forall|i: int|
                0 <= i < v.list.servers.len() ==> #[trigger] answer_list(v, payload).servers[i]
                    == v.list.servers[after.order[i]]
        }),
{
    if payload.len() == 4 {
        lemma_requested_wf(v, i32_of(payload));
    }
}

/// A list that has not been shown yet, asked for without a criterion, comes as it
/// is.
pub proof fn law_fresh_list_comes_as_it_is(list: ServerListView, characters_count: Text, payload: Seq<u8>)
    requires
        payload.len() != 4,
    ensures
        answer_list(fresh(list, characters_count), payload) == list,
{
    assert(answer_list(fresh(list, characters_count), payload).servers =~= list.servers);
}

/// The answer has the criterion of the request.
pub proof fn law_criterion_is_echoed(v: CatalogView, payload: Seq<u8>)
    requires
        v.wf(),
        payload.len() == 4,
    ensures
        answer_list(v, payload).sort_criterion == payload[0] + 256 * payload[1] + 65536 * payload[2] + 16777216
            * payload[3],
{
}

/// Asking by the same criterion twice in a row turns the order round.
pub proof fn law_same_criterion_turns_round(v: CatalogView, c: i32)
    requires
        v.wf(),
        c != -1,
    ensures
        v.requested(c).requested(c).order == v.requested(c).order.reverse(),
{
}

/// Asking for no order brings back the list as it came, and the next criterion
/// sorts from there.
pub proof fn law_no_order_resets(v: CatalogView, c: i32)
    requires
        v.wf(),
        c != -1,
    ensures
        v.requested(-1i32).shown(0).servers == v.list.servers,
        v.requested(-1i32).requested(c).order == v.sorted(c, arrival(v.list.servers.len())),
{
    let reset = v.requested(-1i32);
    assert(reset.shown(0).servers =~= v.list.servers);
    lemma_sorted_of_same_list(reset, v, c, arrival(v.list.servers.len()));
}

/// Sorting looks at the list and the counts alone.
proof fn lemma_sorted_of_same_list(v: CatalogView, w: CatalogView, c: i32, s: Seq<int>)
    requires
        v.list == w.list,
        v.counts == w.counts,
    ensures
        v.sorted(c, s) == w.sorted(c, s),
    decreases s.len(),
{
    if s.len() > 0 {
        lemma_sorted_of_same_list(v, w, c, s.drop_last());
        lemma_placed_of_same_list(v, w, c, v.sorted(c, s.drop_last()), s.last());
    }
}

proof fn lemma_placed_of_same_list(v: CatalogView, w: CatalogView, c: i32, s: Seq<int>, x: int)
    requires
        v.list == w.list,
        v.counts == w.counts,
    ensures
        v.placed(c, s, x) == w.placed(c, s, x),
    decreases s.len(),
{
    if s.len() > 0 {
        lemma_placed_of_same_list(v, w, c, s.drop_last(), x);
    }
}

/// A request for the order by the number of characters, after one for another order,
/// puts the servers with fewer characters first, and leaves those with as many in the
/// order in which they were shown.
pub proof fn law_fewest_characters_come_first(v: CatalogView, i: int, j: int)
    requires
        v.wf(),
        v.last != Some(0i32),
        0 <= i < j < v.order.len(),
    ensures
        ({
            let order = v.requested(0i32).order;
            &&& order.len() == v.order.len()
            &&& v.requested(0i32).counts == v.counts
            &&& v.requested(0i32).list == v.list
            &&& v.counts[order[i]] <= v.counts[order[j]]
            &&& v.counts[order[i]] == v.counts[order[j]] ==> v.order.index_of(order[i]) < v.order.index_of(order[j])
            &&& v.order.contains(order[i]) && v.order.contains(order[j])
        }),
{
    lemma_requested_wf(v, 0i32);
    let order = v.requested(0i32).order;
    law_sorting_puts_in_order(v, 0i32, v.order);
    assert(!v.less(0i32, order[j], order[i]));
    lemma_member_of_sorted(v, 0i32, v.order, order[i]);
    lemma_member_of_sorted(v, 0i32, v.order, order[j]);
    if v.counts[order[i]] == v.counts[order[j]] {
        law_sorting_is_stable(v, 0i32, v.order, i, j);
    }
}

/// Of two texts that agree in the first `k` code units, one that does not come behind
/// the other ends there or has there no greater unit.
proof fn lemma_dictionary_order(a: Seq<u8>, b: Seq<u8>, k: int)
    requires
        !comes_before(unit_codes(b), unit_codes(a)),
        0 <= k,
        2 * k + 2 <= a.len(),
        2 * k <= b.len(),
        a.take(2 * k) == b.take(2 * k),
    ensures
        2 * k + 2 <= b.len(),
        a[2 * k] + 256 * a[2 * k + 1] <= b[2 * k] + 256 * b[2 * k + 1],
{
    let (x, y) = (unit_codes(a), unit_codes(b));
    assert forall|m: int| 0 <= m < k implies x[m] == y[m] by {
        assert(a[2 * m] == a.take(2 * k)[2 * m] && b[2 * m] == b.take(2 * k)[2 * m]);
        assert(a[2 * m + 1] == a.take(2 * k)[2 * m + 1] && b[2 * m + 1] == b.take(2 * k)[2 * m + 1]);
        assert(x[m] == le_units(a)[m] && y[m] == le_units(b)[m]);
    }
    assert(x[k] == a[2 * k] + 256 * a[2 * k + 1]) by {
        assert(x[k] == le_units(a)[k]);
    }
    if k >= y.len() || x[k] != y[k] {
        law_first_difference_decides(y, x, k);
    }
    assert(y[k] == b[2 * k] + 256 * b[2 * k + 1]) by {
        assert(y[k] == le_units(b)[k]);
    }
}

/// Two texts of the same bytes are equals in dictionary order.
proof fn lemma_same_text(a: Seq<u8>, b: Seq<u8>)
    ensures
        a == b ==> !comes_before(unit_codes(a), unit_codes(b)),
{
    lemma_before_total(unit_codes(a), unit_codes(b), 0);
}

/// A request for the order by category, after one for another order, puts the servers in
/// the dictionary order of their categories: where those of two servers agree in the
/// first `k` code units and that of the one in front goes on, that of the other goes on
/// too and with no smaller unit. Servers of one category stay in the order in which they
/// were shown.
pub proof fn law_sorted_by_category(v: CatalogView, payload: Seq<u8>, i: int, j: int, k: int)
    requires
        v.wf(),
        v.last != Some(1i32),
        payload == seq![1u8, 0u8, 0u8, 0u8],
        0 <= i < j < v.order.len(),
    ensures
        ({
            let order = after_request(v, payload).order;
            let shown = answer_list(v, payload).servers;
            let (a, b) = (shown[i].category, shown[j].category);
            &&& shown.len() == v.list.servers.len()
            &&& 0 <= k && 2 * k + 2 <= a.len() && 2 * k <= b.len() && a.take(2 * k) == b.take(2 * k) ==> {
                &&& 2 * k + 2 <= b.len()
                &&& a[2 * k] + 256 * a[2 * k + 1] <= b[2 * k] + 256 * b[2 * k + 1]
            }
            &&& a == b ==> v.order.index_of(order[i]) < v.order.index_of(order[j])
        }),
{
    lemma_requested_wf(v, 1i32);
    assert(i32_of(payload) == 1);
    let order = v.requested(1i32).order;
    law_sorting_puts_in_order(v, 1i32, v.order);
    assert(!v.less(1i32, order[j], order[i]));
    let (a, b) = (v.list.servers[order[i]].category, v.list.servers[order[j]].category);
    if 0 <= k && 2 * k + 2 <= a.len() && 2 * k <= b.len() && a.take(2 * k) == b.take(2 * k) {
        lemma_dictionary_order(a, b, k);
    }
    if a == b {
        lemma_same_text(a, b);
        law_sorting_is_stable(v, 1i32, v.order, i, j);
    }
}

/// A request for the order by name, after one for another order, puts the servers in the
/// dictionary order of their names. Servers of one name stay in the order in which they
/// were shown.
pub proof fn law_sorted_by_name(v: CatalogView, payload: Seq<u8>, i: int, j: int, k: int)
    requires
        v.wf(),
        v.last != Some(2i32),
        payload == seq![2u8, 0u8, 0u8, 0u8],
        0 <= i < j < v.order.len(),
    ensures
        ({
            let order = after_request(v, payload).order;
            let shown = answer_list(v, payload).servers;
            let (a, b) = (shown[i].name, shown[j].name);
            &&& shown.len() == v.list.servers.len()
            &&& 0 <= k && 2 * k + 2 <= a.len() && 2 * k <= b.len() && a.take(2 * k) == b.take(2 * k) ==> {
                &&& 2 * k + 2 <= b.len()
                &&& a[2 * k] + 256 * a[2 * k + 1] <= b[2 * k] + 256 * b[2 * k + 1]
            }
            &&& a == b ==> v.order.index_of(order[i]) < v.order.index_of(order[j])
        }),
{
    lemma_requested_wf(v, 2i32);
    assert(i32_of(payload) == 2);
    let order = v.requested(2i32).order;
    law_sorting_puts_in_order(v, 2i32, v.order);
    assert(!v.less(2i32, order[j], order[i]));
    let (a, b) = (v.list.servers[order[i]].name, v.list.servers[order[j]].name);
    if 0 <= k && 2 * k + 2 <= a.len() && 2 * k <= b.len() && a.take(2 * k) == b.take(2 * k) {
        lemma_dictionary_order(a, b, k);
    }
    if a == b {
        lemma_same_text(a, b);
        law_sorting_is_stable(v, 2i32, v.order, i, j);
    }
}

/// A request for the order by population, after one for another order, puts the servers
/// in the dictionary order of their populations. Servers of one population stay in the
/// order in which they were shown.
pub proof fn law_sorted_by_population(v: CatalogView, payload: Seq<u8>, i: int, j: int, k: int)
    requires
        v.wf(),
        v.last != Some(4i32),
        payload == seq![4u8, 0u8, 0u8, 0u8],
        0 <= i < j < v.order.len(),
    ensures
        ({
            let order = after_request(v, payload).order;
            let shown = answer_list(v, payload).servers;
            let (a, b) = (shown[i].population, shown[j].population);
            &&& shown.len() == v.list.servers.len()
            &&& 0 <= k && 2 * k + 2 <= a.len() && 2 * k <= b.len() && a.take(2 * k) == b.take(2 * k) ==> {
                &&& 2 * k + 2 <= b.len()
                &&& a[2 * k] + 256 * a[2 * k + 1] <= b[2 * k] + 256 * b[2 * k + 1]
            }
            &&& a == b ==> v.order.index_of(order[i]) < v.order.index_of(order[j])
        }),
{
    lemma_requested_wf(v, 4i32);
    assert(i32_of(payload) == 4);
    let order = v.requested(4i32).order;
    law_sorting_puts_in_order(v, 4i32, v.order);
    assert(!v.less(4i32, order[j], order[i]));
    let (a, b) = (v.list.servers[order[i]].population, v.list.servers[order[j]].population);
    if 0 <= k && 2 * k + 2 <= a.len() && 2 * k <= b.len() && a.take(2 * k) == b.take(2 * k) {
        lemma_dictionary_order(a, b, k);
    }
    if a == b {
        lemma_same_text(a, b);
        law_sorting_is_stable(v, 4i32, v.order, i, j);
    }
}

/// A request by a criterion that the servers have nothing for leaves the order as it was
/// shown, and one that holds no criterion leaves everything as it was.
pub proof fn law_other_requests_leave_the_order(v: CatalogView, payload: Seq<u8>)
    requires
        v.wf(),
        payload.len() == 4 ==> {
            &&& payload[0] == 3 || payload[0] > 4 || payload[1] > 0 || payload[2] > 0 || payload[3] > 0
            &&& payload != seq![255u8, 255u8, 255u8, 255u8]
            &&& v.last != Some(i32_of(payload))
        },
    ensures
        after_request(v, payload).order == v.order,
        payload.len() != 4 ==> after_request(v, payload) == v,
        payload.len() != 4 ==> answer_list(v, payload).sort_criterion == v.list.sort_criterion,
{
    if payload.len() == 4 {
        let c = i32_of(payload);
        if c == -1 {
            assert(payload =~= seq![255u8, 255u8, 255u8, 255u8]);
        }
        lemma_nothing_to_sort_by(v, c, v.order);
    }
}

/// Where no server stands before another, sorting changes nothing.
proof fn lemma_nothing_to_sort_by(v: CatalogView, c: i32, s: Seq<int>)
    requires
        c != 0,
        c != 1,
        c != 2,
        c != 4,
    ensures
        v.sorted(c, s) == s,
    decreases s.len(),
{
    if s.len() > 0 {
        lemma_nothing_to_sort_by(v, c, s.drop_last());
        assert(s.drop_last().push(s.last()) =~= s);
    }
}

/// The same request twice in a row is answered the second time with the servers the
/// other way round, unless it asks for no order.
pub proof fn law_repeated_request_turns_round(v: CatalogView, payload: Seq<u8>, i: int)
    requires
        v.wf(),
        payload.len() == 4,
        payload != seq![255u8, 255u8, 255u8, 255u8],
        0 <= i < v.list.servers.len(),
    ensures
        ({
            let first = answer_list(v, payload).servers;
            let second = answer_list(after_request(v, payload), payload).servers;
            &&& second.len() == first.len()
            &&& second[i] == first[first.len() - 1 - i]
        }),
{
    let c = i32_of(payload);
    if c == -1 {
        assert(payload =~= seq![255u8, 255u8, 255u8, 255u8]);
    }
    lemma_requested_wf(v, c);
    let w = v.requested(c);
    lemma_requested_wf(w, c);
    assert(w.last == Some(c));
    assert(w.requested(c).order == w.order.reverse());
}

/// A request for no order is answered with the list as it came, and what was asked
/// before no longer counts.
pub proof fn law_no_order_is_the_order_of_the_list(v: CatalogView, payload: Seq<u8>)
    requires
        v.wf(),
        payload == seq![255u8, 255u8, 255u8, 255u8],
    ensures
        answer_list(v, payload).servers == v.list.servers,
        after_request(v, payload).last is None,
{
    assert(i32_of(payload) == -1);
    assert(answer_list(v, payload).servers =~= v.list.servers);
}

/// A catalog that was not asked yet has the servers in the order of the list, each with
/// the number of characters that the account has on it.
pub proof fn law_catalog_counts_the_characters(list: ServerListView, characters_count: Text, i: int)
    requires
        0 <= i < list.servers.len(),
    ensures
        fresh(list, characters_count).wf(),
        fresh(list, characters_count).list == list,
        fresh(list, characters_count).order[i] == i,
        fresh(list, characters_count).last is None,
        fresh(list, characters_count).counts[i] == count_on(character_counts(characters_count), list.servers[i].id),
{
}

} // verus!
