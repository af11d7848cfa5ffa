//! The server list, from the two forms in which the portal publishes it.
use std::collections::HashMap;

use vstd::prelude::*;

use crate::credentials::{
    character_counts, count_on, last_server, law_last_server_comes_first, lookup_count, parse_character_counts,
};
use crate::ipv4::{
    address_or_host, dotted, ipv4, ipv4_or_zero, is_place, law_address_or_name, law_dotted_numbers_are_an_address,
    law_only_dotted_numbers_are_an_address, parse_addr_or_host, says_where,
};
use crate::json;
use crate::json::{document, tree, Json};
use crate::number::{dec, decimal};
use crate::text::{chars_of, join, string_of, trim, trimmed, Text};
use crate::utf16::{decoded, le_units, lemma_text_of_utf16_le, utf16_le, utf16_to_bytes};
use crate::wire::{ServerInfo, ServerInfoView, ServerList, ServerListView};

verus! {

/// What a server's entry in a JSON list says. A member that is missing, or of
/// another kind than is read here, is `None`.
pub struct JsonServer {
    pub id: Option<u64>,
    pub name: Option<String>,
    pub title: Option<String>,
    pub category: Option<String>,
    pub queue: Option<String>,
    pub population: Option<String>,
    pub address: Option<String>,
    pub host: Option<String>,
    pub port: Option<u64>,
    pub available: Option<u64>,
    pub unavailable_message: Option<String>,
}

/// A server list in JSON.
pub struct JsonServerList {
    pub servers: Option<Vec<JsonServer>>,
    pub sort_criterion: Option<u64>,
}

/// [`JsonServer`] in the model.
pub struct JsonServerView {
    pub id: Option<u64>,
    pub name: Option<Text>,
    pub title: Option<Text>,
    pub category: Option<Text>,
    pub queue: Option<Text>,
    pub population: Option<Text>,
    pub address: Option<Text>,
    pub host: Option<Text>,
    pub port: Option<u64>,
    pub available: Option<u64>,
    pub unavailable_message: Option<Text>,
}

/// [`JsonServerList`] in the model.
pub struct JsonServerListView {
    pub servers: Option<Seq<JsonServerView>>,
    pub sort_criterion: Option<u64>,
}

/// The text of an optional string.
pub open spec fn text_of(s: Option<String>) -> Option<Text> {
    match s {
        Some(s) => Some(s@),
        None => None,
    }
}

impl View for JsonServer {
    type V = JsonServerView;

    open spec fn view(&self) -> JsonServerView {
        JsonServerView {
            id: self.id,
            name: text_of(self.name),
            title: text_of(self.title),
            category: text_of(self.category),
            queue: text_of(self.queue),
            population: text_of(self.population),
            address: text_of(self.address),
            host: text_of(self.host),
            port: self.port,
            available: self.available,
            unavailable_message: text_of(self.unavailable_message),
        }
    }
}

impl View for JsonServerList {
    type V = JsonServerListView;

    open spec fn view(&self) -> JsonServerListView {
        JsonServerListView {
            servers: match self.servers {
                Some(v) => Some(v@.map_values(|s: JsonServer| s@)),
                None => None,
            },
            sort_criterion: self.sort_criterion,
        }
    }
}

/// The low 32 bits of a number.
pub open spec fn low32(n: u64) -> u32 {
    (n % 0x1_0000_0000) as u32
}

/// The low 32 bits of a number.
fn to_u32(n: u64) -> (r: u32)
    ensures
        r == low32(n),
{
    (n % 0x1_0000_0000) as u32
}

/// Whether there is such a port.
pub open spec fn is_port(n: int) -> bool {
    0 <= n <= 0xFFFF
}

/// A title with the number of characters behind it.
pub open spec fn titled(title: Text, count: u32) -> Text {
    title + " ("@ + dec(count as nat) + ")"@
}

/// Puts the number of characters behind a title.
fn title_with_count(title: &str, count: u32) -> (r: String)
    ensures
        r@ == titled(title@, count),
{
    let mut s = join(title, " (");
    s.append(decimal(count as u64).as_str());
    s.append(")");
    s
}

impl JsonServerView {
    /// Whether the server takes players: 0 where it says nothing.
    pub open spec fn availability(self) -> u64 {
        match self.available {
            Some(n) => n,
            None => 0,
        }
    }

    /// The population to show: of a server that takes no players, that it is offline.
    pub open spec fn shown_population(self) -> Option<Text> {
        if self.availability() == 0 {
            Some("<b><font color=\"#FF0000\">Offline</font></b>"@)
        } else {
            self.population
        }
    }

    /// Where the server is: the address, or the host name where there is no address.
    pub open spec fn place(self) -> Option<Text> {
        match self.address {
            Some(a) if is_place(a) => Some(a),
            _ => match self.host {
                Some(h) if is_place(h) => Some(h),
                _ => None,
            },
        }
    }

    /// The number of the server, where it is one that a server can have.
    pub open spec fn valid_id(self) -> Option<u32> {
        match self.id {
            Some(n) if 1 <= n <= u32::MAX => Some(n as u32),
            _ => None,
        }
    }

    /// The port of the server, where it is one.
    pub open spec fn valid_port(self) -> Option<u32> {
        match self.port {
            Some(n) if is_port(n as int) => Some(n as u32),
            _ => None,
        }
    }

    /// The server in the message, or what is wrong with its entry.
    pub open spec fn info(self, counts: Map<u32, u32>) -> Result<ServerInfoView, Text> {
        if self.valid_id() is None {
            Err("Missing or invalid 'id' field"@)
        } else if self.name is None {
            Err("Missing or invalid 'name' field"@)
        } else if self.title is None {
            Err("Missing or invalid 'title' field"@)
        } else if self.shown_population() is None {
            Err("Missing or invalid 'population' field"@)
        } else if self.place() is None {
            Err("Either 'address' or 'host' must be set"@)
        } else if self.category is None {
            Err("Missing or invalid 'category' field"@)
        } else if self.queue is None {
            Err("Missing or invalid 'queue' field"@)
        } else if self.valid_port() is None {
            Err("Missing or invalid 'port' field"@)
        } else {
            let id = self.valid_id()->0;
            let (address, host) = address_or_host(self.place()->0);
            Ok(
                ServerInfoView {
                    id,
                    name: utf16_le(self.name->0),
                    category: utf16_le(self.category->0),
                    title: utf16_le(titled(self.title->0, count_on(counts, id))),
                    queue: utf16_le(self.queue->0),
                    population: utf16_le(self.shown_population()->0),
                    address,
                    port: self.valid_port()->0,
                    available: if self.availability() == 0 {
                        0
                    } else {
                        1
                    },
                    unavailable_message: match self.unavailable_message {
                        Some(s) => utf16_le(s),
                        None => utf16_le(""@),
                    },
                    host,
                },
            )
        }
    }
}

/// The model of a server's entry in the message.
pub type Entry = Result<ServerInfoView, Text>;

/// The first `n` servers in the message, or what is wrong with the first entry of
/// them that is not in order.
pub open spec fn collected(entries: Seq<Entry>, n: int) -> Result<Seq<ServerInfoView>, Text>
    decreases n,
{
    if n <= 0 {
        Ok(Seq::empty())
    } else {
        match collected(entries, n - 1) {
            Err(e) => Err(e),
            Ok(before) => match entries[n - 1] {
                Err(e) => Err(e),
                Ok(s) => Ok(before.push(s)),
            },
        }
    }
}

/// The entries of a JSON list in the message.
pub open spec fn json_entries(servers: Seq<JsonServerView>, counts: Map<u32, u32>) -> Seq<Entry> {
    servers.map_values(|s: JsonServerView| s.info(counts))
}

/// The server to preselect: the one last played on, else the first of the list.
pub open spec fn preselected(last: u32, servers: Seq<ServerInfoView>) -> u32 {
    if last != 0 {
        last
    } else if servers.len() > 0 {
        servers[0].id
    } else {
        0
    }
}

impl JsonServerListView {
    /// The list in the message, or what is wrong with it.
    pub open spec fn list(self, characters_count: Text) -> Result<ServerListView, Text> {
        match self.servers {
            None => Err("No servers found in JSON"@),
            Some(servers) => match collected(
                json_entries(servers, character_counts(characters_count)),
                servers.len() as int,
            ) {
                Err(e) => Err(e),
                Ok(infos) => Ok(
                    ServerListView {
                        servers: infos,
                        last_server_id: preselected(last_server(characters_count), infos),
                        sort_criterion: match self.sort_criterion {
                            Some(n) => low32(n),
                            None => 0,
                        },
                    },
                ),
            },
        }
    }
}

/// The model of a result.
pub open spec fn list_view(r: Result<ServerList, String>) -> Result<ServerListView, Text> {
    match r {
        Ok(l) => Ok(l@),
        Err(e) => Err(e@),
    }
}

/// Where the server is: the address, or the host name where there is no address.
fn place_of(server: &JsonServer) -> (r: Option<&String>)
    ensures
        (match r {
            Some(s) => Some(s@),
            None => None,
        }) == server@.place(),
{
    if let Some(a) = &server.address {
        if says_where(a) {
            return Some(a);
        }
    }
    if let Some(h) = &server.host {
        if says_where(h) {
            return Some(h);
        }
    }
    None
}

/// Makes a server of the message of its entry in a JSON list.
pub fn json_server_info(server: &JsonServer, counts: &HashMap<u32, u32>) -> (r: Result<ServerInfo, String>)
    ensures
        (match r {
            Ok(s) => Ok(s@),
            Err(e) => Err(e@),
        }) == server@.info(counts@),
{
    let id: u32 = match server.id {
        Some(n) if 1 <= n && n <= 0xFFFF_FFFF => n as u32,
        _ => {
            return Err("Missing or invalid 'id' field".to_owned());
        },
    };
    let count: u32 = lookup_count(counts, id);
    let available: u64 = match server.available {
        Some(n) => n,
        None => 0,
    };
    let name = match &server.name {
        Some(s) => s,
        None => {
            return Err("Missing or invalid 'name' field".to_owned());
        },
    };
    let title = match &server.title {
        Some(s) => title_with_count(s, count),
        None => {
            return Err("Missing or invalid 'title' field".to_owned());
        },
    };
    let population = if available == 0 {
        utf16_to_bytes("<b><font color=\"#FF0000\">Offline</font></b>")
    } else {
        match &server.population {
            Some(s) => utf16_to_bytes(s),
            None => {
                return Err("Missing or invalid 'population' field".to_owned());
            },
        }
    };
    let (address, host) = match place_of(server) {
        Some(s) => parse_addr_or_host(s),
        None => {
            return Err("Either 'address' or 'host' must be set".to_owned());
        },
    };
    let category = match &server.category {
        Some(s) => utf16_to_bytes(s),
        None => {
            return Err("Missing or invalid 'category' field".to_owned());
        },
    };
    let queue = match &server.queue {
        Some(s) => utf16_to_bytes(s),
        None => {
            return Err("Missing or invalid 'queue' field".to_owned());
        },
    };
    let port: u32 = match server.port {
        Some(n) if n <= 0xFFFF => n as u32,
        _ => {
            return Err("Missing or invalid 'port' field".to_owned());
        },
    };
    let unavailable_message = match &server.unavailable_message {
        Some(s) => utf16_to_bytes(s),
        None => utf16_to_bytes(""),
    };
    Ok(
        ServerInfo {
            id,
            name: utf16_to_bytes(name),
            category,
            title: utf16_to_bytes(&title),
            queue,
            population,
            address,
            port,
            available: if available == 0 {
                0
            } else {
                1
            },
            unavailable_message,
            host,
        },
    )
}

/// Picks the server to preselect.
fn preselect(last: u32, servers: &Vec<ServerInfo>) -> (r: u32)
    ensures
        r == preselected(last, servers@.map_values(|s: ServerInfo| s@)),
{
    if last != 0 {
        last
    } else if servers.len() > 0 {
        servers[0].id
    } else {
        0
    }
}

/// Makes the server list of a JSON list and the portal's word on the account's
/// characters.
pub fn parse_server_list_json(list: &JsonServerList, characters_count: &str) -> (r: Result<ServerList, String>)
    ensures
        list_view(r) == list@.list(characters_count@),
{
    let (last, counts) = parse_character_counts(characters_count);
    let servers = match &list.servers {
        Some(v) => v,
        None => {
            return Err("No servers found in JSON".to_owned());
        },
    };
    let ghost all = json_entries(list@.servers->0, counts@);
    let mut infos: Vec<ServerInfo> = Vec::new();
    let n: usize = servers.len();
    let ghost view = |s: ServerInfo| s@;
    assert(infos@.map_values(view) =~= Seq::empty());
    for i in 0..n
        invariant
            n == servers@.len(),
            all == json_entries(servers@.map_values(|s: JsonServer| s@), counts@),
            view == (|s: ServerInfo| s@),
            counts@ == character_counts(characters_count@),
            list@.servers == Some(servers@.map_values(|s: JsonServer| s@)),
            collected(all, i as int) == Ok::<Seq<ServerInfoView>, Text>(infos@.map_values(view)),
    {
        let ghost before = infos@;
        match json_server_info(&servers[i], &counts) {
            Ok(info) => {
                infos.push(info);
                assert(infos@.map_values(view) =~= before.map_values(view).push(info@));
            },
            Err(e) => {
                proof {
                    lemma_collected_error(all, i + 1, n as int);
                }
                return Err(e);
            },
        }
    }
    let last_server_id: u32 = preselect(last, &infos);
    let sort_criterion: u32 = match list.sort_criterion {
        Some(n) => to_u32(n),
        None => 0,
    };
    Ok(ServerList { servers: infos, last_server_id, sort_criterion })
}

/// What is wrong with an earlier entry is what is wrong with the list.
proof fn lemma_collected_error(entries: Seq<Entry>, i: int, n: int)
    requires
        i <= n,
        collected(entries, i) is Err,
    ensures
        collected(entries, n) == collected(entries, i),
    decreases n - i,
{
    if i < n {
        lemma_collected_error(entries, i, n - 1);
    }
}

/// A server's entry, of its JSON document.
pub open spec fn server_of(j: Json) -> JsonServerView {
    JsonServerView {
        id: j.member("id"@).number(),
        name: j.member("name"@).text(),
        title: j.member("title"@).text(),
        category: j.member("category"@).text(),
        queue: j.member("queue"@).text(),
        population: j.member("population"@).text(),
        address: j.member("address"@).text(),
        host: j.member("host"@).text(),
        port: j.member("port"@).number(),
        available: j.member("available"@).number(),
        unavailable_message: j.member("unavailable_message"@).text(),
    }
}

/// A server list, of its JSON document.
pub open spec fn server_list_of(j: Json) -> JsonServerListView {
    JsonServerListView {
        servers: match j.member("servers"@).items() {
            Some(items) => Some(items.map_values(|s: Json| server_of(s))),
            None => None,
        },
        sort_criterion: j.member("sort_criterion"@).number(),
    }
}

/// Reads a string member.
fn text_member(v: &serde_json::Value, key: &str) -> (r: Option<String>)
    ensures
        text_of(r) == tree(*v).member(key@).text(),
{
    match json::text(json::member(v, key)) {
        Some(s) => Some(s.to_owned()),
        None => None,
    }
}

/// Reads a server's entry.
fn read_server(v: &serde_json::Value) -> (r: JsonServer)
    ensures
        r@ == server_of(tree(*v)),
{
    JsonServer {
        id: json::number(json::member(v, "id")),
        name: text_member(v, "name"),
        title: text_member(v, "title"),
        category: text_member(v, "category"),
        queue: text_member(v, "queue"),
        population: text_member(v, "population"),
        address: text_member(v, "address"),
        host: text_member(v, "host"),
        port: json::number(json::member(v, "port")),
        available: json::number(json::member(v, "available")),
        unavailable_message: text_member(v, "unavailable_message"),
    }
}

/// Reads what a JSON document says of servers.
pub fn read_server_list(v: &serde_json::Value) -> (r: JsonServerList)
    ensures
        r@ == server_list_of(tree(*v)),
{
    let sort_criterion = json::number(json::member(v, "sort_criterion"));
    let items = match json::items(json::member(v, "servers")) {
        Some(items) => items,
        None => {
            return JsonServerList { servers: None, sort_criterion };
        },
    };
    let ghost all = items@.map_values(|x: serde_json::Value| tree(x)).map_values(|s: Json| server_of(s));
    let ghost view = |s: JsonServer| s@;
    let mut servers: Vec<JsonServer> = Vec::new();
    let n: usize = items.len();
    assert(servers@.map_values(view) =~= all.take(0));
    for i in 0..n
        invariant
            n == items@.len(),
            all == items@.map_values(|x: serde_json::Value| tree(x)).map_values(|s: Json| server_of(s)),
            view == (|s: JsonServer| s@),
            servers@.map_values(view) == all.take(i as int),
    {
        let ghost before = servers@;
        let server = read_server(&items[i]);
        servers.push(server);
        assert(servers@.map_values(view) =~= before.map_values(view).push(server@));
        assert(all.take(i + 1) =~= all.take(i as int).push(all[i as int]));
    }
    assert(all.take(n as int) =~= all);
    JsonServerList { servers: Some(servers), sort_criterion }
}

/// The server list of the text of a JSON document.
pub open spec fn list_of_json_text(body: Text, characters_count: Text) -> Result<ServerListView, Text> {
    match document(body) {
        Ok(j) => server_list_of(j).list(characters_count),
        Err(e) => Err(e),
    }
}

/// Makes the server list of the text of a JSON document.
pub fn server_list_of_json_text(body: &str, characters_count: &str) -> (r: Result<ServerList, String>)
    ensures
        list_view(r) == list_of_json_text(body@, characters_count@),
{
    match json::parse(body) {
        Ok(v) => parse_server_list_json(&read_server_list(&v), characters_count),
        Err(e) => Err(e),
    }
}

/// What a server's element in an XML list says. An element or attribute that is
/// left out is empty.
pub struct XmlServer {
    pub id: u32,
    pub ip: String,
    pub port: u32,
    pub category: String,
    /// The attribute `raw_name` of the name.
    pub raw_name: String,
    /// The text of the name.
    pub name: String,
    pub crowdness: String,
    pub open: String,
    pub popup: String,
}

/// [`XmlServer`] in the model.
pub struct XmlServerView {
    pub id: u32,
    pub ip: Text,
    pub port: u32,
    pub category: Text,
    pub raw_name: Text,
    pub name: Text,
    pub crowdness: Text,
    pub open: Text,
    pub popup: Text,
}

impl View for XmlServer {
    type V = XmlServerView;

    open spec fn view(&self) -> XmlServerView {
        XmlServerView {
            id: self.id,
            ip: self.ip@,
            port: self.port,
            category: self.category@,
            raw_name: self.raw_name@,
            name: self.name@,
            crowdness: self.crowdness@,
            open: self.open@,
            popup: self.popup@,
        }
    }
}

impl XmlServerView {
    /// The name: the raw one, or the text where that is blank.
    pub open spec fn base_name(self) -> Text {
        if trimmed(self.raw_name).len() == 0 {
            trimmed(self.name)
        } else {
            trimmed(self.raw_name)
        }
    }

    /// The server in the message, or what is wrong with its element. It is available
    /// where it is open and has an address. What is no address goes out as a host
    /// name.
    pub open spec fn info(self, counts: Map<u32, u32>) -> Entry {
        if self.id == 0 {
            Err("Missing or invalid 'id' field"@)
        } else if !is_port(self.port as int) {
            Err("Missing or invalid 'port' field"@)
        } else {
            let (address, host) = address_or_host(self.ip);
            Ok(
                ServerInfoView {
                    id: self.id,
                    name: utf16_le(self.base_name()),
                    category: utf16_le(trimmed(self.category)),
                    title: utf16_le(titled(self.base_name(), count_on(counts, self.id))),
                    queue: utf16_le(trimmed(self.crowdness)),
                    population: utf16_le(trimmed(self.open)),
                    address,
                    port: self.port,
                    available: if trimmed(self.open).len() == 0 || address == 0 {
                        0
                    } else {
                        1
                    },
                    unavailable_message: utf16_le(trimmed(self.popup)),
                    host,
                },
            )
        }
    }
}

/// The elements of an XML list in the message.
pub open spec fn xml_entries(servers: Seq<XmlServerView>, counts: Map<u32, u32>) -> Seq<Entry> {
    servers.map_values(|s: XmlServerView| s.info(counts))
}

/// The list in the message, or what is wrong with it.
pub open spec fn xml_list(servers: Seq<XmlServerView>, characters_count: Text) -> Result<ServerListView, Text> {
    if servers.len() == 0 {
        Err("No servers found in XML"@)
    } else {
        match collected(xml_entries(servers, character_counts(characters_count)), servers.len() as int) {
            Err(e) => Err(e),
            Ok(infos) => Ok(
                ServerListView {
                    servers: infos,
                    last_server_id: preselected(last_server(characters_count), infos),
                    sort_criterion: 0,
                },
            ),
        }
    }
}

/// Takes the white space off both ends of a string.
fn trim_string(s: &str) -> (r: String)
    ensures
        r@ == trimmed(s@),
{
    string_of(&trim(&chars_of(s)))
}

/// Makes a server of the message of its element in an XML list.
pub fn xml_server_info(server: &XmlServer, counts: &HashMap<u32, u32>) -> (r: Result<ServerInfo, String>)
    ensures
        (match r {
            Ok(s) => Ok(s@),
            Err(e) => Err(e@),
        }) == server@.info(counts@),
{
    if server.id == 0 {
        return Err("Missing or invalid 'id' field".to_owned());
    }
    if server.port > 0xFFFF {
        return Err("Missing or invalid 'port' field".to_owned());
    }
    let raw = trim_string(&server.raw_name);
    let base_name = if raw.as_str().is_empty() {
        trim_string(&server.name)
    } else {
        raw
    };
    let title = title_with_count(&base_name, lookup_count(counts, server.id));
    let (address, host) = parse_addr_or_host(&server.ip);
    let open = trim_string(&server.open);
    let available: u32 = if open.as_str().is_empty() || address == 0 {
        0
    } else {
        1
    };
    Ok(
        ServerInfo {
            id: server.id,
            name: utf16_to_bytes(&base_name),
            category: utf16_to_bytes(&trim_string(&server.category)),
            title: utf16_to_bytes(&title),
            queue: utf16_to_bytes(&trim_string(&server.crowdness)),
            population: utf16_to_bytes(&open),
            address,
            port: server.port,
            available,
            unavailable_message: utf16_to_bytes(&trim_string(&server.popup)),
            host,
        },
    )
}

/// Makes the server list of an XML list and the portal's word on the account's
/// characters.
pub fn parse_server_list_xml(servers: &Vec<XmlServer>, characters_count: &str) -> (r: Result<ServerList, String>)
    ensures
        list_view(r) == xml_list(servers@.map_values(|s: XmlServer| s@), characters_count@),
{
    if servers.len() == 0 {
        return Err("No servers found in XML".to_owned());
    }
    let (last, counts) = parse_character_counts(characters_count);
    let ghost all = xml_entries(servers@.map_values(|s: XmlServer| s@), counts@);
    let ghost view = |s: ServerInfo| s@;
    let mut infos: Vec<ServerInfo> = Vec::new();
    let n: usize = servers.len();
    assert(infos@.map_values(view) =~= Seq::empty());
    for i in 0..n
        invariant
            n == servers@.len(),
            n > 0,
            all == xml_entries(servers@.map_values(|s: XmlServer| s@), counts@),
            view == (|s: ServerInfo| s@),
            counts@ == character_counts(characters_count@),
            collected(all, i as int) == Ok::<Seq<ServerInfoView>, Text>(infos@.map_values(view)),
    {
        let ghost before = infos@;
        match xml_server_info(&servers[i], &counts) {
            Ok(info) => {
                infos.push(info);
                assert(infos@.map_values(view) =~= before.map_values(view).push(info@));
            },
            Err(e) => {
                proof {
                    lemma_collected_error(all, i + 1, n as int);
                }
                return Err(e);
            },
        }
    }
    let last_server_id: u32 = preselect(last, &infos);
    Ok(ServerList { servers: infos, last_server_id, sort_criterion: 0 })
}

/// A list in the message has the servers of the list that it was made of, each in its
/// place.
pub proof fn law_servers_keep_their_places(entries: Seq<Entry>, n: int, infos: Seq<ServerInfoView>)
    requires
        0 <= n <= entries.len(),
        collected(entries, n) == Ok::<Seq<ServerInfoView>, Text>(infos),
    ensures
        infos.len() == n,
        forall|i: int| 0 <= i < n ==> entries[i] == Entry::Ok(#[trigger] infos[i]),
    decreases n,
{
    if n > 0 {
        let before = collected(entries, n - 1)->Ok_0;
        law_servers_keep_their_places(entries, n - 1, before);
        assert forall|i: int| 0 <= i < n implies entries[i] == Entry::Ok(#[trigger] infos[i]) by {
            if i < n - 1 {
                assert(infos[i] == before[i]);
            }
        }
    }
}

/// Whether the numbers of a server are in their ranges: a number of at least 1, a port
/// and a yes or no.
pub open spec fn in_range(s: ServerInfoView) -> bool {
    &&& s.id >= 1
    &&& is_port(s.port as int)
    &&& s.available == 0 || s.available == 1
}

/// Whether exactly one of the address and the host name of a server is set. An
/// address of 0 is not set.
pub open spec fn one_place(s: ServerInfoView) -> bool {
    s.address != 0 <==> s.host is None
}

/// Each server of a JSON list has its numbers in their ranges, and exactly one of an
/// address and a host name.
pub proof fn law_json_list_keeps_the_rules(list: JsonServerListView, characters_count: Text, i: int)
    requires
        list.list(characters_count) is Ok,
        0 <= i < list.list(characters_count)->Ok_0.servers.len(),
    ensures
        in_range(list.list(characters_count)->Ok_0.servers[i]),
        one_place(list.list(characters_count)->Ok_0.servers[i]),
{
    let servers = list.servers->0;
    let counts = character_counts(characters_count);
    let infos = list.list(characters_count)->Ok_0.servers;
    law_servers_keep_their_places(json_entries(servers, counts), servers.len() as int, infos);
    assert(servers[i].info(counts) == Entry::Ok(infos[i]));
}

/// Each server of an XML list has its numbers in their ranges, and never both an
/// address and a host name.
pub proof fn law_xml_list_keeps_the_rules(servers: Seq<XmlServerView>, characters_count: Text, i: int)
    requires
        xml_list(servers, characters_count) is Ok,
        0 <= i < servers.len(),
    ensures
        ({
            let info = xml_list(servers, characters_count)->Ok_0.servers[i];
            &&& in_range(info)
            &&& info.address == 0 || info.host is None
            &&& is_place(servers[i].ip) ==> one_place(info)
        }),
{
    let counts = character_counts(characters_count);
    let infos = xml_list(servers, characters_count)->Ok_0.servers;
    law_servers_keep_their_places(xml_entries(servers, counts), servers.len() as int, infos);
    assert(servers[i].info(counts) == Entry::Ok(infos[i]));
}

/// A list comes out exactly where there is nothing wrong with any of its entries.
pub proof fn law_one_wrong_entry_refuses_the_list(entries: Seq<Entry>, n: int)
    requires
        0 <= n <= entries.len(),
    ensures
        collected(entries, n) is Ok <==> forall|i: int| 0 <= i < n ==> (#[trigger] entries[i]) is Ok,
    decreases n,
{
    if n > 0 {
        law_one_wrong_entry_refuses_the_list(entries, n - 1);
        if collected(entries, n) is Ok {
            assert(entries[n - 1] is Ok);
        }
    }
}

/// A server of a JSON list has an address or a host name, and never both. What is
/// no IPv4 address goes out as a host name.
pub proof fn law_address_or_host(server: JsonServerView, counts: Map<u32, u32>)
    requires
        server.info(counts) is Ok,
    ensures
        ({
            let info = server.info(counts)->Ok_0;
            &&& one_place(info)
            &&& ipv4(server.place()->0) is None ==> info.host == Some(utf16_le(server.place()->0))
            &&& ipv4(server.place()->0) matches Some(a) ==> info.address == a
        }),
{
}

/// The number and the port of a JSON list's server go out as they are.
pub proof fn law_json_numbers_are_kept(server: JsonServerView, counts: Map<u32, u32>)
    requires
        server.info(counts) is Ok,
    ensures
        ({
            let info = server.info(counts)->Ok_0;
            &&& Some(info.id as u64) == server.id
            &&& Some(info.port as u64) == server.port
            &&& info.available == 0 <==> server.availability() == 0
        }),
{
}

/// A server of an XML list is available, 1, or not, 0: the former exactly where its
/// `open` is not blank and its `ip` is an IPv4 address other than 0.0.0.0. An `ip`
/// that is no IPv4 address goes out as a host name.
pub proof fn law_xml_availability(server: XmlServerView, counts: Map<u32, u32>)
    requires
        server.info(counts) is Ok,
    ensures
        ({
            let info = server.info(counts)->Ok_0;
            &&& info.available == 0 || info.available == 1
            &&& info.available == 1 <==> trimmed(server.open).len() > 0 && info.address != 0
            &&& info.address == ipv4_or_zero(server.ip)
            &&& ipv4(server.ip) is Some ==> info.host is None
            &&& ipv4(server.ip) is None && server.ip.len() > 0 ==> info.host == Some(utf16_le(server.ip))
        }),
{
}

/// The game reads back the texts of an XML list's server: the name, the name with
/// the number of characters, and the rest without the white space around it.
pub proof fn law_xml_texts_are_read_back(server: XmlServerView, counts: Map<u32, u32>)
    requires
        server.info(counts) is Ok,
    ensures
        ({
            let info = server.info(counts)->Ok_0;
            &&& read_text(info.name) == Some(server.base_name())
            &&& read_text(info.title) == Some(titled(server.base_name(), count_on(counts, server.id)))
            &&& read_text(info.category) == Some(trimmed(server.category))
            &&& read_text(info.queue) == Some(trimmed(server.crowdness))
            &&& read_text(info.population) == Some(trimmed(server.open))
            &&& read_text(info.unavailable_message) == Some(trimmed(server.popup))
        }),
{
    lemma_text_of_utf16_le(server.base_name());
    lemma_text_of_utf16_le(titled(server.base_name(), count_on(counts, server.id)));
    lemma_text_of_utf16_le(trimmed(server.category));
    lemma_text_of_utf16_le(trimmed(server.crowdness));
    lemma_text_of_utf16_le(trimmed(server.open));
    lemma_text_of_utf16_le(trimmed(server.popup));
}

/// The text that the game reads in a field.
pub open spec fn read_text(b: Seq<u8>) -> Option<Text> {
    decoded(le_units(b))
}

/// The game reads back the texts of a JSON list's server. A server that takes no
/// players has its population told as offline.
pub proof fn law_json_texts_are_read_back(server: JsonServerView, counts: Map<u32, u32>)
    requires
        server.info(counts) is Ok,
    ensures
        ({
            let info = server.info(counts)->Ok_0;
            &&& read_text(info.name) == server.name
            &&& read_text(info.title) == Some(titled(server.title->0, count_on(counts, info.id)))
            &&& read_text(info.category) == server.category
            &&& read_text(info.queue) == server.queue
            &&& read_text(info.population) == server.shown_population()
        }),
{
    lemma_text_of_utf16_le(server.name->0);
    lemma_text_of_utf16_le(titled(server.title->0, count_on(counts, server.valid_id()->0)));
    lemma_text_of_utf16_le(server.category->0);
    lemma_text_of_utf16_le(server.queue->0);
    lemma_text_of_utf16_le(server.shown_population()->0);
}

/// The number before the first bar of the characters' text, where it is one of a server,
/// is the server that a list preselects, in JSON and in XML, whatever the servers are.
pub proof fn law_last_server_is_preselected(
    list: JsonServerListView,
    servers: Seq<XmlServerView>,
    n: nat,
    rest: Text,
    characters_count: Text,
)
    requires
        0 < n <= u32::MAX,
        characters_count == dec(n) || characters_count == dec(n) + seq!['|'] + rest,
    ensures
        list.list(characters_count) matches Ok(l) ==> l.last_server_id == n,
        xml_list(servers, characters_count) matches Ok(l) ==> l.last_server_id == n,
{
    law_last_server_comes_first(n, Seq::empty(), rest);
}

/// Where no number stands before the first bar of the characters' text, or one that no
/// server has, a list preselects its first server, in JSON and in XML.
pub proof fn law_first_server_is_preselected_otherwise(
    list: JsonServerListView,
    servers: Seq<XmlServerView>,
    n: nat,
    first: Text,
    rest: Text,
    characters_count: Text,
)
    requires
        !first.contains('|'),
        characters_count == first || characters_count == first + seq!['|'] + rest,
        ({
            ||| first == dec(n) && (n == 0 || n > u32::MAX)
            ||| first.len() == 0
            ||| exists|i: int| 0 <= i < first.len() && !('0' <= #[trigger] first[i] <= '9') && (i > 0 || first[i] != '+')
        }),
    ensures
        list.list(characters_count) matches Ok(l) ==> l.last_server_id == (if l.servers.len() > 0 {
            l.servers[0].id
        } else {
            0
        }),
        xml_list(servers, characters_count) matches Ok(l) ==> l.servers.len() > 0 && l.last_server_id
            == l.servers[0].id,
{
    law_last_server_comes_first(n, first, rest);
    if xml_list(servers, characters_count) is Ok {
        law_servers_keep_their_places(
            xml_entries(servers, character_counts(characters_count)),
            servers.len() as int,
            xml_list(servers, characters_count)->Ok_0.servers,
        );
    }
}

/// A JSON list comes out exactly where it has servers and each of them is in order. It has
/// each of them in its place, and the criterion in the low 32 bits of the number that it
/// gives, or 0.
pub proof fn law_json_list_in_order(list: JsonServerListView, characters_count: Text, i: int)
    ensures
        list.list(characters_count) is Ok <==> list.servers is Some && forall|j: int|
            0 <= j < list.servers->0.len() ==> (#[trigger] list.servers->0[j].info(
                character_counts(characters_count),
            )) is Ok,
        list.list(characters_count) matches Ok(l) ==> {
            &&& list.servers matches Some(servers)
            &&& l.servers.len() == servers.len()
            &&& 0 <= i < servers.len() ==> servers[i].info(character_counts(characters_count)) == Entry::Ok(l.servers[i])
            &&& list.sort_criterion is None ==> l.sort_criterion == 0
            &&& list.sort_criterion matches Some(n) ==> l.sort_criterion == n % 0x1_0000_0000
        },
        list.servers is None ==> list.list(characters_count) == Err::<ServerListView, Text>(
            "No servers found in JSON"@,
        ),
{
    if list.servers is Some {
        let counts = character_counts(characters_count);
        let servers = list.servers->0;
        let entries = json_entries(servers, counts);
        let n = servers.len() as int;
        law_one_wrong_entry_refuses_the_list(entries, n);
        if collected(entries, n) is Ok {
            law_servers_keep_their_places(entries, n, collected(entries, n)->Ok_0);
            assert forall|j: int| 0 <= j < servers.len() implies (#[trigger] servers[j].info(counts)) is Ok by {
                assert(entries[j] == servers[j].info(counts));
            }
            if 0 <= i < servers.len() {
                assert(entries[i] == servers[i].info(counts));
            }
        } else {
            let j = choose|j: int| 0 <= j < n && !((#[trigger] entries[j]) is Ok);
            assert(entries[j] == servers[j].info(counts));
        }
    }
}

/// An XML list comes out exactly where it has servers and each of them has a number and a
/// port. It has each of them in its place, and the criterion 0.
pub proof fn law_xml_list_in_order(servers: Seq<XmlServerView>, characters_count: Text, i: int)
    ensures
        xml_list(servers, characters_count) is Ok <==> servers.len() > 0 && forall|j: int|
            0 <= j < servers.len() ==> (#[trigger] servers[j]).id > 0 && servers[j].port <= 65535,
        xml_list(servers, characters_count) matches Ok(l) ==> {
            &&& l.servers.len() == servers.len()
            &&& 0 <= i < servers.len() ==> servers[i].info(character_counts(characters_count)) == Entry::Ok(l.servers[i])
            &&& l.sort_criterion == 0
        },
        servers.len() == 0 ==> xml_list(servers, characters_count) == Err::<ServerListView, Text>(
            "No servers found in XML"@,
        ),
{
    let counts = character_counts(characters_count);
    let entries = xml_entries(servers, counts);
    let n = servers.len() as int;
    law_one_wrong_entry_refuses_the_list(entries, n);
    if n > 0 {
        if collected(entries, n) is Ok {
            law_servers_keep_their_places(entries, n, collected(entries, n)->Ok_0);
            assert forall|j: int| 0 <= j < servers.len() implies (#[trigger] servers[j]).id > 0 && servers[j].port
                <= 65535 by {
                assert(entries[j] == servers[j].info(counts));
            }
            if 0 <= i < servers.len() {
                assert(entries[i] == servers[i].info(counts));
            }
        } else {
            let j = choose|j: int| 0 <= j < n && !((#[trigger] entries[j]) is Ok);
            assert(entries[j] == servers[j].info(counts));
        }
    }
}

/// A server's entry in a JSON list is in order exactly where it has a number of 1 to
/// 4294967295, a name, a title, a category, a queue, a port of at most 65535, a population
/// unless the server takes no players, and an address or a host name that says where it
/// is: 0.0.0.0 does not.
pub proof fn law_json_entry_in_order(server: JsonServerView, counts: Map<u32, u32>)
    ensures
        server.info(counts) is Ok <==> {
            &&& server.id matches Some(n) && 1 <= n <= 4294967295
            &&& server.name is Some
            &&& server.title is Some
            &&& server.category is Some
            &&& server.queue is Some
            &&& server.port matches Some(p) && p <= 65535
            &&& server.population is Some || server.available is None || server.available == Some(0u64)
            &&& {
                ||| server.address matches Some(a) && a.len() > 0 && a != dotted(0, 0, 0, 0)
                ||| server.host matches Some(h) && h.len() > 0 && h != dotted(0, 0, 0, 0)
            }
        },
{
    if server.address is Some {
        law_address_or_name(server.address->0);
    }
    if server.host is Some {
        law_address_or_name(server.host->0);
    }
}

/// Each text of a server has whole code units and no more.
pub open spec fn whole_texts(s: ServerInfoView) -> bool {
    &&& s.name.len() % 2 == 0
    &&& s.category.len() % 2 == 0
    &&& s.title.len() % 2 == 0
    &&& s.queue.len() % 2 == 0
    &&& s.population.len() % 2 == 0
    &&& s.unavailable_message.len() % 2 == 0
    &&& s.host matches Some(h) ==> h.len() % 2 == 0
}

/// What a server's entry in a JSON list says goes out as it is: the number, the port, the
/// name, the category, the queue and the message; the title with the number of characters
/// behind it; that the server is available, 1, or is not, 0, and then instead of its
/// population that it is offline.
pub proof fn law_json_entry_goes_out(server: JsonServerView, counts: Map<u32, u32>)
    requires
        server.info(counts) is Ok,
    ensures
        ({
            let info = server.info(counts)->Ok_0;
            let count = if counts.dom().contains(info.id) { counts[info.id] } else { 0 };
            let takes_players = server.available matches Some(n) && n > 0;
            &&& server.id == Some(info.id as u64)
            &&& server.port == Some(info.port as u64)
            &&& read_text(info.name) == server.name
            &&& read_text(info.category) == server.category
            &&& read_text(info.queue) == server.queue
            &&& read_text(info.title) == Some(server.title->0 + " ("@ + dec(count as nat) + ")"@)
            &&& takes_players ==> info.available == 1 && read_text(info.population) == server.population
            &&& !takes_players ==> info.available == 0 && read_text(info.population) == Some(
                "<b><font color=\"#FF0000\">Offline</font></b>"@,
            )
            &&& server.unavailable_message is Some ==> read_text(info.unavailable_message)
                == server.unavailable_message
            &&& server.unavailable_message is None ==> info.unavailable_message.len() == 0
            &&& whole_texts(info)
        }),
{
    law_json_texts_are_read_back(server, counts);
    if server.unavailable_message is Some {
        lemma_text_of_utf16_le(server.unavailable_message->0);
    } else {
        reveal_strlit("");
        assert(utf16_le(""@).len() == 0);
    }
}

/// A server of a JSON list is where its address says, or its host name where the address
/// is left out, empty or 0.0.0.0. Four numbers with dots between them go out as a number
/// and without a host name; anything else goes out as the host name, with the number 0.
pub proof fn law_json_server_is_where_it_says(
    server: JsonServerView,
    counts: Map<u32, u32>,
    at: Text,
    a: u8,
    b: u8,
    c: u8,
    d: u8,
)
    requires
        server.info(counts) is Ok,
        ({
            ||| server.address == Some(at) && at.len() > 0 && at != dotted(0, 0, 0, 0)
            ||| {
                &&& server.host == Some(at)
                &&& server.address matches Some(x) ==> x.len() == 0 || x == dotted(0, 0, 0, 0)
            }
        }),
    ensures
        ({
            let info = server.info(counts)->Ok_0;
            &&& at == dotted(a, b, c, d) ==> info.host is None && info.address == a * 0x100_0000 + b * 0x1_0000 + c
                * 0x100 + d
            &&& (forall|p: u8, q: u8, r: u8, s: u8| at != #[trigger] dotted(p, q, r, s)) ==> info.address == 0
                && (info.host matches Some(h) && read_text(h) == Some(at))
        }),
{
    law_address_or_name(at);
    law_only_dotted_numbers_are_an_address(at);
    law_dotted_numbers_are_an_address(a, b, c, d);
    if server.address is Some {
        law_address_or_name(server.address->0);
    }
    lemma_text_of_utf16_le(at);
}

/// What a server's element in an XML list says goes out as it is, but for the white space
/// around the texts: the name is the raw one, unless that is blank, and the title is the
/// name with the number of characters behind it. It is available, 1, where `open` is not
/// blank and `ip` is an address other than 0.0.0.0, and else not, 0.
pub proof fn law_xml_element_goes_out(server: XmlServerView, counts: Map<u32, u32>, a: u8, b: u8, c: u8, d: u8)
    requires
        server.info(counts) is Ok,
    ensures
        ({
            let info = server.info(counts)->Ok_0;
            let count = if counts.dom().contains(server.id) { counts[server.id] } else { 0 };
            let name = if trimmed(server.raw_name).len() > 0 { trimmed(server.raw_name) } else { trimmed(server.name) };
            &&& info.id == server.id && info.port == server.port
            &&& read_text(info.name) == Some(name)
            &&& read_text(info.title) == Some(name + " ("@ + dec(count as nat) + ")"@)
            &&& read_text(info.category) == Some(trimmed(server.category))
            &&& read_text(info.queue) == Some(trimmed(server.crowdness))
            &&& read_text(info.population) == Some(trimmed(server.open))
            &&& read_text(info.unavailable_message) == Some(trimmed(server.popup))
            &&& whole_texts(info)
            &&& server.ip == dotted(a, b, c, d) ==> {
                &&& info.host is None
                &&& info.address == a * 0x100_0000 + b * 0x1_0000 + c * 0x100 + d
                &&& info.available == (if trimmed(server.open).len() > 0 && (a > 0 || b > 0 || c > 0 || d > 0) {
                    1int
                } else {
                    0
                })
            }
            &&& (forall|p: u8, q: u8, r: u8, s: u8| server.ip != #[trigger] dotted(p, q, r, s)) ==> {
                &&& info.address == 0
                &&& info.available == 0
                &&& server.ip.len() > 0 ==> (info.host matches Some(h) && read_text(h) == Some(server.ip))
                &&& server.ip.len() == 0 ==> info.host is None
            }
        }),
{
    law_xml_texts_are_read_back(server, counts);
    law_only_dotted_numbers_are_an_address(server.ip);
    law_dotted_numbers_are_an_address(a, b, c, d);
    lemma_text_of_utf16_le(server.ip);
}

/// What a JSON document says of a server and of a list of them is what its members of
/// those names say.
pub proof fn law_members_of_a_json_list(j: Json, i: int)
    ensures
        server_of(j).id == j.member("id"@).number(),
        server_of(j).name == j.member("name"@).text(),
        server_of(j).title == j.member("title"@).text(),
        server_of(j).category == j.member("category"@).text(),
        server_of(j).queue == j.member("queue"@).text(),
        server_of(j).population == j.member("population"@).text(),
        server_of(j).address == j.member("address"@).text(),
        server_of(j).host == j.member("host"@).text(),
        server_of(j).port == j.member("port"@).number(),
        server_of(j).available == j.member("available"@).number(),
        server_of(j).unavailable_message == j.member("unavailable_message"@).text(),
        server_list_of(j).sort_criterion == j.member("sort_criterion"@).number(),
        j.member("servers"@) matches Json::Array(items) ==> server_list_of(j).servers matches Some(servers)
            && servers.len() == items.len() && (0 <= i < items.len() ==> servers[i] == server_of(items[i])),
        !(j.member("servers"@) is Array) ==> server_list_of(j).servers is None,
{
}

/// The server list of a text is that of the JSON document in it; where there is none, it is
/// told why.
pub proof fn law_list_of_a_text(body: Text, characters_count: Text, j: Json, e: Text)
    ensures
        document(body) == Ok::<Json, Text>(j) ==> list_of_json_text(body, characters_count) == server_list_of(j).list(
            characters_count,
        ),
        document(body) == Err::<Json, Text>(e) ==> list_of_json_text(body, characters_count) == Err::<
            ServerListView,
            Text,
        >(e),
{
}

/// Of a list with entries that are not in order, what is wrong with the first of them is
/// told.
pub proof fn law_first_fault_is_told(entries: Seq<Entry>, n: int, i: int)
    requires
        0 <= i < n <= entries.len(),
        forall|j: int| 0 <= j < i ==> (#[trigger] entries[j]) is Ok,
        entries[i] is Err,
    ensures
        collected(entries, n) == Err::<Seq<ServerInfoView>, Text>(entries[i]->Err_0),
{
    law_one_wrong_entry_refuses_the_list(entries, i);
    lemma_collected_error(entries, i + 1, n);
}

/// What is wrong with a server's entry in a JSON list is told, the first of these: its
/// number, its name, its title, its population, where it is, its category, its queue, its
/// port.
pub proof fn law_faults_of_a_json_entry(server: JsonServerView, counts: Map<u32, u32>)
    ensures
        ({
            let says = |s: Option<Text>| s is Some && s->0.len() > 0 && s->0 != dotted(0, 0, 0, 0);
            let id = server.id is Some && 1 <= server.id->0 <= 4294967295;
            let population = server.population is Some || server.available is None || server.available == Some(0u64);
            let place = says(server.address) || says(server.host);
            let named = id && server.name is Some && server.title is Some;
            let shown = named && population && place;
            let filed = shown && server.category is Some && server.queue is Some;
            let r = server.info(counts);
            &&& !id ==> r == Entry::Err("Missing or invalid 'id' field"@)
            &&& id && server.name is None ==> r == Entry::Err("Missing or invalid 'name' field"@)
            &&& id && server.name is Some && server.title is None ==> r == Entry::Err(
                "Missing or invalid 'title' field"@,
            )
            &&& named && !population ==> r == Entry::Err("Missing or invalid 'population' field"@)
            &&& named && population && !place ==> r == Entry::Err("Either 'address' or 'host' must be set"@)
            &&& shown && server.category is None ==> r == Entry::Err("Missing or invalid 'category' field"@)
            &&& shown && server.category is Some && server.queue is None ==> r == Entry::Err(
                "Missing or invalid 'queue' field"@,
            )
            &&& filed && (server.port is None || server.port->0 > 65535) ==> r == Entry::Err(
                "Missing or invalid 'port' field"@,
            )
        }),
{
    if server.address is Some {
        law_address_or_name(server.address->0);
    }
    if server.host is Some {
        law_address_or_name(server.host->0);
    }
}

/// What is wrong with a server's element in an XML list is told: its number, then its port.
pub proof fn law_faults_of_an_xml_element(server: XmlServerView, counts: Map<u32, u32>)
    ensures
        server.id == 0 ==> server.info(counts) == Entry::Err("Missing or invalid 'id' field"@),
        server.id > 0 && server.port > 65535 ==> server.info(counts) == Entry::Err("Missing or invalid 'port' field"@),
        server.id > 0 && server.port <= 65535 ==> server.info(counts) is Ok,
{
}

} // verus!
