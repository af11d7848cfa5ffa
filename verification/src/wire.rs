//! The server list as the game client reads it: a protocol-buffers message in
//! which every required field is present, whatever its value.
use vstd::prelude::*;

verus! {

/// A server as it stands in the message. Texts are UTF-16 little-endian bytes
/// without a terminator.
pub struct ServerInfo {
    pub id: u32,
    pub name: Vec<u8>,
    pub category: Vec<u8>,
    pub title: Vec<u8>,
    pub queue: Vec<u8>,
    pub population: Vec<u8>,
    /// The IPv4 address, its first octet in the highest byte; 0 where there is none.
    pub address: u32,
    pub port: u32,
    pub available: u32,
    pub unavailable_message: Vec<u8>,
    /// A host name, in place of an address.
    pub host: Option<Vec<u8>>,
}

/// The answer to a request for the server list.
pub struct ServerList {
    pub servers: Vec<ServerInfo>,
    pub last_server_id: u32,
    pub sort_criterion: u32,
}

/// [`ServerInfo`] in the model.
#[verifier::ext_equal]
pub struct ServerInfoView {
    pub id: u32,
    pub name: Seq<u8>,
    pub category: Seq<u8>,
    pub title: Seq<u8>,
    pub queue: Seq<u8>,
    pub population: Seq<u8>,
    pub address: u32,
    pub port: u32,
    pub available: u32,
    pub unavailable_message: Seq<u8>,
    pub host: Option<Seq<u8>>,
}

/// [`ServerList`] in the model.
#[verifier::ext_equal]
pub struct ServerListView {
    pub servers: Seq<ServerInfoView>,
    pub last_server_id: u32,
    pub sort_criterion: u32,
}

impl View for ServerInfo {
    type V = ServerInfoView;

    open spec fn view(&self) -> ServerInfoView {
        ServerInfoView {
            id: self.id,
            name: self.name@,
            category: self.category@,
            title: self.title@,
            queue: self.queue@,
            population: self.population@,
            address: self.address,
            port: self.port,
            available: self.available,
            unavailable_message: self.unavailable_message@,
            host: match self.host {
                Some(h) => Some(h@),
                None => None,
            },
        }
    }
}

impl ServerInfo {
    /// Gives the same once more.
    pub fn copy(&self) -> (r: ServerInfo)
        ensures
            r@ == self@,
    {
        ServerInfo {
            id: self.id,
            name: self.name.clone(),
            category: self.category.clone(),
            title: self.title.clone(),
            queue: self.queue.clone(),
            population: self.population.clone(),
            address: self.address,
            port: self.port,
            available: self.available,
            unavailable_message: self.unavailable_message.clone(),
            host: match &self.host {
                Some(h) => Some(h.clone()),
                None => None,
            },
        }
    }
}

impl ServerList {
    /// Gives the same once more.
    pub fn copy(&self) -> (r: ServerList)
        ensures
            r@ == self@,
    {
        let ghost view = |s: ServerInfo| s@;
        let ghost all = self.servers@.map_values(view);
        let mut servers: Vec<ServerInfo> = Vec::new();
        let n: usize = self.servers.len();
        assert(servers@.map_values(view) =~= all.take(0));
        for i in 0..n
            invariant
                n == self.servers@.len(),
                view == (|s: ServerInfo| s@),
                all == self.servers@.map_values(view),
                servers@.map_values(view) == all.take(i as int),
        {
            let ghost before = servers@;
            let server = self.servers[i].copy();
            servers.push(server);
            assert(servers@.map_values(view) =~= before.map_values(view).push(server@));
            assert(all.take(i + 1) =~= all.take(i as int).push(all[i as int]));
        }
        assert(all.take(n as int) =~= all);
        ServerList { servers, last_server_id: self.last_server_id, sort_criterion: self.sort_criterion }
    }
}

impl View for ServerList {
    type V = ServerListView;

    open spec fn view(&self) -> ServerListView {
        ServerListView {
            servers: self.servers@.map_values(|s: ServerInfo| s@),
            last_server_id: self.last_server_id,
            sort_criterion: self.sort_criterion,
        }
    }
}

/// A number in groups of seven bits, the lowest first, each but the last with its
/// highest bit set.
pub open spec fn varint(n: nat) -> Seq<u8>
    decreases n,
{
    if n < 128 {
        seq![n as u8]
    } else {
        seq![(n % 128 + 128) as u8] + varint(n / 128)
    }
}

/// The four bytes of a number, the lowest first.
pub open spec fn le32(n: u32) -> Seq<u8> {
    seq![
        (n % 256) as u8,
        (n / 256 % 256) as u8,
        (n / 65536 % 256) as u8,
        (n / 16777216) as u8,
    ]
}

/// A field of four bytes: its key, then the number.
pub open spec fn fixed32_field(tag: nat, n: u32) -> Seq<u8> {
    varint(tag * 8 + 5) + le32(n)
}

/// A field of any length: its key, the length, then the bytes.
pub open spec fn bytes_field(tag: nat, b: Seq<u8>) -> Seq<u8> {
    varint(tag * 8 + 2) + varint(b.len()) + b
}

/// `prost::encoding::fixed32::encode` appends the key of the field and the four
/// bytes of the number. The tag has to be one that a field can have.
#[verifier::external_body]
pub(crate) fn put_fixed32(tag: u32, n: u32, buf: &mut Vec<u8>)
    requires
        1 <= tag < 0x2000_0000,
    ensures
        final(buf)@ == old(buf)@ + fixed32_field(tag as nat, n),
{
    prost::encoding::fixed32::encode(tag, &n, buf)
}

/// `prost::encoding::bytes::encode` appends the key of the field, the number of
/// bytes and the bytes. The tag has to be one that a field can have.
#[verifier::external_body]
pub(crate) fn put_bytes(tag: u32, b: &Vec<u8>, buf: &mut Vec<u8>)
    requires
        1 <= tag < 0x2000_0000,
    ensures
        final(buf)@ == old(buf)@ + bytes_field(tag as nat, b@),
{
    prost::encoding::bytes::encode(tag, b, buf)
}

/// The value of a field.
pub enum Field {
    Fixed32(u32),
    Bytes(Seq<u8>),
}

/// A field with its tag, in bytes.
pub open spec fn field_bytes(f: (nat, Field)) -> Seq<u8> {
    match f.1 {
        Field::Fixed32(n) => fixed32_field(f.0, n),
        Field::Bytes(b) => bytes_field(f.0, b),
    }
}

/// Fields one after the other, in bytes.
pub open spec fn fields_bytes(fields: Seq<(nat, Field)>) -> Seq<u8>
    decreases fields.len(),
{
    if fields.len() == 0 {
        Seq::empty()
    } else {
        fields_bytes(fields.drop_last()) + field_bytes(fields.last())
    }
}

impl ServerInfoView {
    /// The fields of a server: the ten required ones, then the host name where
    /// there is one.
    pub open spec fn fields(&self) -> Seq<(nat, Field)> {
        let required = seq![
            (1nat, Field::Fixed32(self.id)),
            (2nat, Field::Bytes(self.name)),
            (3nat, Field::Bytes(self.category)),
            (4nat, Field::Bytes(self.title)),
            (5nat, Field::Bytes(self.queue)),
            (6nat, Field::Bytes(self.population)),
            (7nat, Field::Fixed32(self.address)),
            (8nat, Field::Fixed32(self.port)),
            (9nat, Field::Fixed32(self.available)),
            (10nat, Field::Bytes(self.unavailable_message)),
        ];
        match self.host {
            Some(h) => required.push((11nat, Field::Bytes(h))),
            None => required,
        }
    }
}

impl ServerListView {
    /// The fields of a list: a field for each server, then the two required ones.
    pub open spec fn fields(&self) -> Seq<(nat, Field)> {
        self.servers.map_values(|s: ServerInfoView| (1nat, Field::Bytes(fields_bytes(s.fields())))).push(
            (2nat, Field::Fixed32(self.last_server_id)),
        ).push((3nat, Field::Fixed32(self.sort_criterion)))
    }

    /// The message.
    pub open spec fn message(&self) -> Seq<u8> {
        fields_bytes(self.fields())
    }
}

pub(crate) proof fn lemma_fields_push(fields: Seq<(nat, Field)>, f: (nat, Field))
    ensures
        fields_bytes(fields.push(f)) == fields_bytes(fields) + field_bytes(f),
{
    assert(fields.push(f).drop_last() =~= fields);
}

impl ServerInfo {
    /// The fields of the server, in bytes.
    pub fn encode(&self) -> (b: Vec<u8>)
        ensures
            b@ == fields_bytes(self@.fields()),
    {
        let mut b: Vec<u8> = Vec::new();
        let ghost f = Seq::<(nat, Field)>::empty();
        proof {
            let f1 = f.push((1nat, Field::Fixed32(self.id)));
            let f2 = f1.push((2nat, Field::Bytes(self.name@)));
            let f3 = f2.push((3nat, Field::Bytes(self.category@)));
            let f4 = f3.push((4nat, Field::Bytes(self.title@)));
            let f5 = f4.push((5nat, Field::Bytes(self.queue@)));
            let f6 = f5.push((6nat, Field::Bytes(self.population@)));
            let f7 = f6.push((7nat, Field::Fixed32(self.address)));
            let f8 = f7.push((8nat, Field::Fixed32(self.port)));
            let f9 = f8.push((9nat, Field::Fixed32(self.available)));
            let f10 = f9.push((10nat, Field::Bytes(self.unavailable_message@)));
            lemma_fields_push(f, f1.last());
            lemma_fields_push(f1, f2.last());
            lemma_fields_push(f2, f3.last());
            lemma_fields_push(f3, f4.last());
            lemma_fields_push(f4, f5.last());
            lemma_fields_push(f5, f6.last());
            lemma_fields_push(f6, f7.last());
            lemma_fields_push(f7, f8.last());
            lemma_fields_push(f8, f9.last());
            lemma_fields_push(f9, f10.last());
            match &self.host {
                Some(h) => {
                    let f11 = f10.push((11nat, Field::Bytes(h@)));
                    lemma_fields_push(f10, f11.last());
                    assert(f11 =~= self@.fields());
                },
                None => {
                    assert(f10 =~= self@.fields());
                },
            }
        }
        put_fixed32(1, self.id, &mut b);
        put_bytes(2, &self.name, &mut b);
        put_bytes(3, &self.category, &mut b);
        put_bytes(4, &self.title, &mut b);
        put_bytes(5, &self.queue, &mut b);
        put_bytes(6, &self.population, &mut b);
        put_fixed32(7, self.address, &mut b);
        put_fixed32(8, self.port, &mut b);
        put_fixed32(9, self.available, &mut b);
        put_bytes(10, &self.unavailable_message, &mut b);
        match &self.host {
            Some(h) => put_bytes(11, h, &mut b),
            None => {},
        }
        b
    }
}

impl ServerListView {
    /// The list with its servers in another order, by their indices, and another
    /// criterion.
    pub open spec fn arranged(self, order: Seq<int>, sort_criterion: u32) -> ServerListView {
        ServerListView {
            servers: order.map_values(|i: int| self.servers[i]),
            last_server_id: self.last_server_id,
            sort_criterion,
        }
    }
}

/// Indices as numbers of the model.
pub open spec fn ints(v: Seq<usize>) -> Seq<int> {
    v.map_values(|i: usize| i as int)
}

/// The indices of a list in the order of the list.
pub open spec fn arrival(n: nat) -> Seq<int> {
    Seq::new(n, |i: int| i)
}

/// The indices under `n`.
pub fn indices(n: usize) -> (r: Vec<usize>)
    ensures
        ints(r@) == arrival(n as nat),
{
    let mut r: Vec<usize> = Vec::new();
    for i in 0..n
        invariant
            r@.len() == i,
            forall|k: int| 0 <= k < i ==> r@[k] == k,
    {
        r.push(i);
    }
    assert(ints(r@) =~= arrival(n as nat));
    r
}

impl ServerList {
    /// The message that answers a request for the server list.
    pub fn encode_to_vec(&self) -> (b: Vec<u8>)
        ensures
            b@ == self@.message(),
    {
        let order = indices(self.servers.len());
        proof {
            let n = self.servers@.len();
            assert forall|i: int| 0 <= i < order@.len() implies #[trigger] order@[i] < n by {
                assert(ints(order@).len() == n);
                assert(ints(order@)[i] == order@[i] && arrival(n)[i] == i);
            }
            assert(self@.arranged(arrival(n), self.sort_criterion) =~= self@);
        }
        self.encode_arranged(&order, self.sort_criterion)
    }

    /// The message of the list with its servers in the given order, by their indices, and
    /// the given criterion.
    pub fn encode_arranged(&self, order: &Vec<usize>, sort_criterion: u32) -> (b: Vec<u8>)
        requires
            forall|i: int| 0 <= i < order@.len() ==> #[trigger] order@[i] < self@.servers.len(),
        ensures
            b@ == self@.arranged(ints(order@), sort_criterion).message(),
    {
        let mut b: Vec<u8> = Vec::new();
        let n: usize = order.len();
        let ghost shown = self@.arranged(ints(order@), sort_criterion);
        let ghost all = shown.servers.map_values(
            |s: ServerInfoView| (1nat, Field::Bytes(fields_bytes(s.fields()))),
        );
        assert(all.take(0) =~= Seq::<(nat, Field)>::empty());
        for i in 0..n
            invariant
                n == order@.len(),
                forall|k: int| 0 <= k < order@.len() ==> #[trigger] order@[k] < self@.servers.len(),
                shown == self@.arranged(ints(order@), sort_criterion),
                all == shown.servers.map_values(
                    |s: ServerInfoView| (1nat, Field::Bytes(fields_bytes(s.fields()))),
                ),
                b@ == fields_bytes(all.take(i as int)),
        {
            let inner = self.servers[order[i]].encode();
            put_bytes(1, &inner, &mut b);
            proof {
                lemma_fields_push(all.take(i as int), all[i as int]);
                assert(all.take(i + 1) =~= all.take(i as int).push(all[i as int]));
            }
        }
        proof {
            assert(all.take(n as int) =~= all);
            let f1 = all.push((2nat, Field::Fixed32(self.last_server_id)));
            lemma_fields_push(all, f1.last());
            lemma_fields_push(f1, (3nat, Field::Fixed32(sort_criterion)));
        }
        put_fixed32(2, self.last_server_id, &mut b);
        put_fixed32(3, sort_criterion, &mut b);
        b
    }
}

/// The number at the start of `b` in groups of seven bits, and how many bytes it
/// takes.
pub open spec fn read_varint(b: Seq<u8>) -> Option<(nat, nat)>
    decreases b.len(),
{
    if b.len() == 0 {
        None
    } else if b[0] < 128 {
        Some((b[0] as nat, 1nat))
    } else {
        match read_varint(b.skip(1)) {
            Some((v, n)) => Some(((b[0] - 128 + 128 * v) as nat, n + 1)),
            None => None,
        }
    }
}

/// The field at the start of `b` with its tag, and how many bytes it takes.
pub open spec fn read_field(b: Seq<u8>) -> Option<((nat, Field), nat)> {
    match read_varint(b) {
        None => None,
        Some((key, n)) => if key % 8 == 5 {
            if b.len() < n + 4 {
                None
            } else {
                let i = n as int;
                let v = b[i] + 256 * b[i + 1] + 65536 * b[i + 2] + 16777216 * b[i + 3];
                Some(((key / 8, Field::Fixed32(v as u32)), n + 4))
            }
        } else if key % 8 == 2 {
            match read_varint(b.skip(n as int)) {
                None => None,
                Some((len, m)) => if b.len() < n + m + len {
                    None
                } else {
                    Some(
                        (
                            (key / 8, Field::Bytes(b.subrange((n + m) as int, (n + m + len) as int))),
                            n + m + len,
                        ),
                    )
                },
            }
        } else {
            None
        },
    }
}

/// The fields that a reader of protocol buffers finds in `b`.
pub open spec fn read_fields(b: Seq<u8>) -> Option<Seq<(nat, Field)>>
    decreases b.len(),
{
    if b.len() == 0 {
        Some(Seq::empty())
    } else {
        match read_field(b) {
            Some((f, n)) => if 0 < n <= b.len() {
                match read_fields(b.skip(n as int)) {
                    Some(rest) => Some(seq![f] + rest),
                    None => None,
                }
            } else {
                None
            },
            None => None,
        }
    }
}

/// A number is read back from the start of whatever follows it.
proof fn lemma_read_varint(n: nat, rest: Seq<u8>)
    ensures
        read_varint(varint(n) + rest) == Some((n, varint(n).len())),
        varint(n).len() >= 1,
    decreases n,
{
    let b = varint(n) + rest;
    if n >= 128 {
        lemma_read_varint(n / 128, rest);
        assert(b.skip(1) =~= varint(n / 128) + rest);
    }
}

/// A number is read back from its four bytes.
#[verifier::spinoff_prover]
#[verifier::rlimit(30)]
proof fn lemma_le32(v: u32)
    ensures
        le32(v)[0] + 256 * le32(v)[1] + 65536 * le32(v)[2] + 16777216 * le32(v)[3] == v,
{
}

proof fn lemma_read_fixed32(tag: nat, v: u32, rest: Seq<u8>)
    ensures
        read_field(fixed32_field(tag, v) + rest) == Some(
            ((tag, Field::Fixed32(v)), fixed32_field(tag, v).len()),
        ),
{
    let b = fixed32_field(tag, v) + rest;
    let key = varint(tag * 8 + 5);
    let i = key.len() as int;
    lemma_read_varint(tag * 8 + 5, le32(v) + rest);
    assert(b =~= key + (le32(v) + rest));
    assert(read_varint(b) == Some((tag * 8 + 5, key.len())));
    assert((tag * 8 + 5) % 8 == 5 && (tag * 8 + 5) / 8 == tag);
    lemma_le32(v);
    assert(b[i] == le32(v)[0] && b[i + 1] == le32(v)[1]);
    assert(b[i + 2] == le32(v)[2] && b[i + 3] == le32(v)[3]);
}

proof fn lemma_read_bytes(tag: nat, v: Seq<u8>, rest: Seq<u8>)
    ensures
        read_field(bytes_field(tag, v) + rest) == Some(
            ((tag, Field::Bytes(v)), bytes_field(tag, v).len()),
        ),
{
    let b = bytes_field(tag, v) + rest;
    let key = varint(tag * 8 + 2);
    let len = varint(v.len());
    lemma_read_varint(tag * 8 + 2, len + v + rest);
    assert(b =~= key + (len + v + rest));
    assert(read_varint(b) == Some((tag * 8 + 2, key.len())));
    assert((tag * 8 + 2) % 8 == 2 && (tag * 8 + 2) / 8 == tag);
    lemma_read_varint(v.len(), v + rest);
    assert(b.skip(key.len() as int) =~= len + (v + rest));
    let from = (key.len() + len.len()) as int;
    assert(b.subrange(from, from + v.len()) =~= v);
}

/// A field is read back from the start of whatever follows it.
proof fn lemma_read_field(f: (nat, Field), rest: Seq<u8>)
    ensures
        read_field(field_bytes(f) + rest) == Some((f, field_bytes(f).len())),
        field_bytes(f).len() >= 1,
{
    match f.1 {
        Field::Fixed32(v) => {
            lemma_read_fixed32(f.0, v, rest);
        },
        Field::Bytes(v) => {
            lemma_read_bytes(f.0, v, rest);
            lemma_read_varint(f.0 * 8 + 2, rest);
        },
    }
}

proof fn lemma_fields_front(fields: Seq<(nat, Field)>)
    requires
        fields.len() > 0,
    ensures
        fields_bytes(fields) == field_bytes(fields[0]) + fields_bytes(fields.skip(1)),
    decreases fields.len(),
{
    if fields.len() == 1 {
        assert(fields.drop_last() =~= Seq::<(nat, Field)>::empty());
        assert(fields.skip(1) =~= Seq::<(nat, Field)>::empty());
        assert(fields_bytes(fields) =~= field_bytes(fields[0]) + fields_bytes(fields.skip(1)));
    } else {
        lemma_fields_front(fields.drop_last());
        assert(fields.skip(1).drop_last() =~= fields.drop_last().skip(1));
        assert(fields_bytes(fields) =~= field_bytes(fields[0]) + fields_bytes(fields.skip(1)));
    }
}

/// Fields are read back as they were written.
#[verifier::spinoff_prover]
#[verifier::rlimit(30)]
pub proof fn law_fields_are_read_back(fields: Seq<(nat, Field)>)
    ensures
        read_fields(fields_bytes(fields)) == Some(fields),
    decreases fields.len(),
{
    let b = fields_bytes(fields);
    if fields.len() > 0 {
        lemma_fields_front(fields);
        lemma_read_field(fields[0], fields_bytes(fields.skip(1)));
        law_fields_are_read_back(fields.skip(1));
        assert(b.skip(field_bytes(fields[0]).len() as int) =~= fields_bytes(fields.skip(1)));
        assert(seq![fields[0]] + fields.skip(1) =~= fields);
    } else {
        assert(fields =~= Seq::<(nat, Field)>::empty());
    }
}

/// A reader of the message finds one field for each server, in their order, then
/// the last server's id and the sort criterion; and in each server's field the ten
/// required fields in the order of their tags, zero or empty as they may be, and
/// the host name exactly where there is one.
pub proof fn law_no_required_field_is_missing(list: ServerListView)
    ensures
        read_fields(list.message()) == Some(list.fields()),
        list.fields().len() == list.servers.len() + 2,
        forall|i: int|
            0 <= i < list.servers.len() ==> {
                &&& (#[trigger] list.fields()[i]).0 == 1
                &&& list.fields()[i].1 matches Field::Bytes(b)
                &&& read_fields(b) == Some(list.servers[i].fields())
            },
{
    law_fields_are_read_back(list.fields());
    assert forall|i: int| 0 <= i < list.servers.len() implies {
        &&& (#[trigger] list.fields()[i]).0 == 1
        &&& list.fields()[i].1 matches Field::Bytes(b)
        &&& read_fields(b) == Some(list.servers[i].fields())
    } by {
        law_fields_are_read_back(list.servers[i].fields());
    }
}

/// No two server lists have the same message.
pub proof fn law_message_tells_lists_apart(a: ServerListView, b: ServerListView)
    requires
        a.message() == b.message(),
    ensures
        a == b,
{
    law_no_required_field_is_missing(a);
    law_no_required_field_is_missing(b);
    let n = a.servers.len() as int;
    assert(a.fields() == b.fields());
    assert(n == b.servers.len());
    assert(a.fields()[n] == (2nat, Field::Fixed32(a.last_server_id)));
    assert(b.fields()[n] == (2nat, Field::Fixed32(b.last_server_id)));
    assert(a.fields()[n + 1] == (3nat, Field::Fixed32(a.sort_criterion)));
    assert(b.fields()[n + 1] == (3nat, Field::Fixed32(b.sort_criterion)));
    assert forall|i: int| 0 <= i < n implies a.servers[i] == b.servers[i] by {
        assert(a.fields()[i] == b.fields()[i]);
        let x = a.servers[i];
        let y = b.servers[i];
        let f = x.fields();
        let g = y.fields();
        assert(f == g);
        assert(f[0] == g[0] && f[1] == g[1] && f[2] == g[2] && f[3] == g[3] && f[4] == g[4]);
        assert(f[5] == g[5] && f[6] == g[6] && f[7] == g[7] && f[8] == g[8] && f[9] == g[9]);
        assert(x.host is Some <==> f.len() == 11);
        assert(y.host is Some <==> g.len() == 11);
        if x.host is Some {
            assert(f[10] == g[10]);
        }
        assert(x.host == y.host);
    }
    assert(a.servers =~= b.servers);
}

/// In its bytes a field has its tag and kind first, then a number of four bytes, the lowest
/// first, or the length and as many bytes. A length of up to 127 takes one byte, and a
/// longer one a byte with its lowest seven bits and the highest bit set, then the rest.
pub proof fn law_bytes_of_a_field(tag: nat, n: u32, b: Seq<u8>)
    requires
        tag < 16,
    ensures
        field_bytes((tag, Field::Fixed32(n))) == seq![
            (8 * tag + 5) as u8,
            (n % 0x100) as u8,
            (n / 0x100 % 0x100) as u8,
            (n / 0x1_0000 % 0x100) as u8,
            (n / 0x100_0000) as u8,
        ],
        b.len() < 128 ==> field_bytes((tag, Field::Bytes(b))) == seq![(8 * tag + 2) as u8, b.len() as u8] + b,
        b.len() >= 128 ==> field_bytes((tag, Field::Bytes(b))) == seq![
            (8 * tag + 2) as u8,
            (b.len() % 128 + 128) as u8,
        ] + varint(b.len() / 128) + b,
{
    assert(field_bytes((tag, Field::Fixed32(n))) =~= seq![
        (8 * tag + 5) as u8,
        (n % 0x100) as u8,
        (n / 0x100 % 0x100) as u8,
        (n / 0x1_0000 % 0x100) as u8,
        (n / 0x100_0000) as u8,
    ]);
    if b.len() < 128 {
        assert(field_bytes((tag, Field::Bytes(b))) =~= seq![(8 * tag + 2) as u8, b.len() as u8] + b);
    } else {
        assert(field_bytes((tag, Field::Bytes(b))) =~= seq![(8 * tag + 2) as u8, (b.len() % 128 + 128) as u8]
            + varint(b.len() / 128) + b);
    }
}

/// The message of a list has the servers in tag 1, each with its number in 1, its name in 2,
/// its category in 3, its title in 4, its queue in 5, its population in 6, its address in 7,
/// its port in 8, whether it is available in 9, its message in 10 and, where there is one,
/// its host name in 11; behind the servers the last one's number in 2 and the criterion in 3.
pub proof fn law_tags_of_the_message(list: ServerListView, i: int)
    requires
        0 <= i < list.servers.len(),
    ensures
        ({
            let s = list.servers[i];
            let all = read_fields(list.message())->0;
            let one = read_fields(all[i].1->Bytes_0)->0;
            let n = list.servers.len() as int;
            &&& read_fields(list.message()) is Some
            &&& all.len() == n + 2
            &&& all[i].0 == 1 && all[i].1 is Bytes && read_fields(all[i].1->Bytes_0) is Some
            &&& all[n] == (2nat, Field::Fixed32(list.last_server_id))
            &&& all[n + 1] == (3nat, Field::Fixed32(list.sort_criterion))
            &&& one[0] == (1nat, Field::Fixed32(s.id))
            &&& one[1] == (2nat, Field::Bytes(s.name))
            &&& one[2] == (3nat, Field::Bytes(s.category))
            &&& one[3] == (4nat, Field::Bytes(s.title))
            &&& one[4] == (5nat, Field::Bytes(s.queue))
            &&& one[5] == (6nat, Field::Bytes(s.population))
            &&& one[6] == (7nat, Field::Fixed32(s.address))
            &&& one[7] == (8nat, Field::Fixed32(s.port))
            &&& one[8] == (9nat, Field::Fixed32(s.available))
            &&& one[9] == (10nat, Field::Bytes(s.unavailable_message))
            &&& s.host is None ==> one.len() == 10
            &&& s.host matches Some(h) ==> one.len() == 11 && one[10] == (11nat, Field::Bytes(h))
        }),
{
    law_no_required_field_is_missing(list);
    let all = list.fields();
    assert(all[i].0 == 1);
}

} // verus!
