//! The server list: from the portal to the game.
use teralaunch::catalog::ServerCatalog;
use teralaunch::credentials::Credentials;
use teralaunch::protocol::{
    answer_fetched_list, describe_payload, is_leftover, message_result, wnd_proc, Answer, Notice, Reaction,
    WM_COPYDATA, WM_GAME_EXITED,
};
use teralaunch::server_list::{
    parse_server_list_json, parse_server_list_xml, server_list_of_json_text, JsonServer, JsonServerList, XmlServer,
};
use teralaunch::utf16::{decode, to_wstring, units_of, utf16_to_bytes};
use teralaunch::wire::{ServerInfo, ServerList};

/// What the client of one server was seen to get.
fn dump() -> Vec<u8> {
    let hex = "
        0A D6 01 0D 0A 00 00 00 12 18 54 00 65 00 72 00
        61 00 20 00 50 00 72 00 69 00 76 00 61 00 74 00
        65 00 1A 06 50 00 76 00 50 00 22 20 54 00 65 00
        72 00 61 00 20 00 50 00 72 00 69 00 76 00 61 00
        74 00 65 00 20 00 28 00 31 00 29 00 2A 04 4E 00
        6F 00 32 40 3C 00 66 00 6F 00 6E 00 74 00 20 00
        63 00 6F 00 6C 00 6F 00 72 00 3D 00 22 00 23 00
        30 00 30 00 66 00 66 00 30 00 30 00 22 00 3E 00
        4C 00 6F 00 77 00 3C 00 2F 00 66 00 6F 00 6E 00
        74 00 3E 00 3D C2 75 2B B3 45 79 1E 00 00 4D 01
        00 00 00 52 34 57 00 65 00 6C 00 63 00 6F 00 6D
        00 65 00 20 00 74 00 6F 00 20 00 54 00 45 00 52
        00 41 00 20 00 44 00 69 00 6D 00 65 00 6E 00 73
        00 69 00 6F 00 6E 00 21 00 15 0A 00 00 00 1D 00
        00 00 00";
    hex.split_whitespace().map(|b| u8::from_str_radix(b, 16).unwrap()).collect()
}

fn xml_server() -> XmlServer {
    XmlServer {
        id: 10,
        ip: "179.43.117.194".to_string(),
        port: 7801,
        category: "PvP".to_string(),
        raw_name: "Tera Private".to_string(),
        name: "Tera Private".to_string(),
        crowdness: "No".to_string(),
        open: "<font color=\"#00ff00\">Low</font>".to_string(),
        popup: "Welcome to TERA Dimension!".to_string(),
    }
}

fn read(b: &[u8]) -> String {
    decode(&units_of(b, 0)).unwrap().iter().collect()
}

fn credentials() -> Credentials {
    Credentials {
        account_name: "Ñandú".to_string(),
        characters_count: "10|10,1|".to_string(),
        ticket: "123e4567-é".to_string(),
        game_lang: "EUR".to_string(),
        game_path: "C:\\TERA\\Binaries\\TERA.exe".to_string(),
    }
}

fn json_server(id: u64) -> JsonServer {
    JsonServer {
        id: Some(id),
        name: Some("name".to_string()),
        title: Some("title".to_string()),
        category: Some("PvE".to_string()),
        queue: Some("No".to_string()),
        population: Some("High".to_string()),
        address: Some("10.0.0.1".to_string()),
        host: None,
        port: Some(7801),
        available: Some(1),
        unavailable_message: None,
    }
}

fn json_error(change: impl Fn(&mut JsonServer)) -> String {
    let mut server = json_server(1);
    change(&mut server);
    let list = JsonServerList { servers: Some(vec![json_server(2), server]), sort_criterion: None };
    match parse_server_list_json(&list, "") {
        Ok(_) => panic!("no error"),
        Err(e) => e,
    }
}

fn named(id: u32, name: &str, category: &str, population: &str) -> ServerInfo {
    ServerInfo {
        id,
        name: utf16_to_bytes(name),
        category: utf16_to_bytes(category),
        title: vec![],
        queue: vec![],
        population: utf16_to_bytes(population),
        address: 1,
        port: 1,
        available: 1,
        unavailable_message: vec![],
        host: None,
    }
}

/// The ids in a message, by the field that each server begins with.
fn ids(message: &[u8]) -> Vec<u32> {
    let mut out = Vec::new();
    let mut at = 0;
    while message[at] == 0x0A {
        let mut len = 0usize;
        let mut shift = 0;
        at += 1;
        loop {
            len |= ((message[at] & 0x7F) as usize) << shift;
            shift += 7;
            at += 1;
            if message[at - 1] < 0x80 {
                break;
            }
        }
        assert_eq!(message[at], 0x0D);
        out.push(u32::from_le_bytes([message[at + 1], message[at + 2], message[at + 3], message[at + 4]]));
        at += len;
    }
    out
}

fn criterion(message: &[u8]) -> i32 {
    let n = message.len();
    assert_eq!(message[n - 5], 0x1D);
    i32::from_le_bytes([message[n - 4], message[n - 3], message[n - 2], message[n - 1]])
}

#[test]
fn message_of_one_server_is_the_one_seen_on_the_wire() {
    let list = parse_server_list_xml(&vec![xml_server()], "10|10,1|").unwrap();
    assert_eq!(list.encode_to_vec(), dump());
    let mut catalog = ServerCatalog::new(list, "10|10,1|");
    assert_eq!(catalog.answer(&[]), dump());
    assert_eq!(catalog.answer(&0i32.to_le_bytes()), dump());
}

#[test]
fn required_fields_are_sent_though_they_are_zero() {
    let info = ServerInfo {
        id: 0,
        name: vec![],
        category: vec![],
        title: vec![],
        queue: vec![],
        population: vec![],
        address: 0,
        port: 0,
        available: 0,
        unavailable_message: vec![],
        host: None,
    };
    assert_eq!(
        info.encode(),
        vec![
            0x0D, 0, 0, 0, 0, 0x12, 0, 0x1A, 0, 0x22, 0, 0x2A, 0, 0x32, 0, 0x3D, 0, 0, 0, 0, 0x45, 0, 0, 0, 0, 0x4D,
            0, 0, 0, 0, 0x52, 0
        ]
    );
    let with_host = ServerInfo { host: Some(vec![1, 2]), ..info };
    assert!(with_host.encode().ends_with(&[0x52, 0, 0x5A, 2, 1, 2]));
    let empty = ServerList { servers: vec![], last_server_id: 7, sort_criterion: 0 };
    assert_eq!(empty.encode_to_vec(), vec![0x15, 7, 0, 0, 0, 0x1D, 0, 0, 0, 0]);
}

#[test]
fn long_fields_have_long_lengths() {
    let list = ServerList {
        servers: vec![named(1, &"x".repeat(20_000), "", "")],
        last_server_id: 0,
        sort_criterion: 0,
    };
    let message = list.encode_to_vec();
    assert_eq!(ids(&message), vec![1]);
    assert_eq!(&message[..4], &[0x0A, 0xE2, 0xB8, 0x02]);
}

#[test]
fn xml_names_and_availability() {
    let blank = XmlServer {
        raw_name: "  ".to_string(),
        name: " Velika \n".to_string(),
        open: " ".to_string(),
        ..xml_server()
    };
    let nowhere = XmlServer { id: 11, ip: "tera.example".to_string(), ..xml_server() };
    let list = parse_server_list_xml(&vec![blank, nowhere], "|11,4|").unwrap();
    assert_eq!(read(&list.servers[0].name), "Velika");
    assert_eq!(read(&list.servers[0].title), "Velika (0)");
    assert_eq!(list.servers[0].available, 0);
    assert_eq!(list.servers[1].available, 0);
    assert_eq!(list.servers[1].address, 0);
    assert_eq!(list.servers[1].host, Some(utf16_to_bytes("tera.example")));
    assert_eq!(read(&list.servers[1].title), "Tera Private (4)");
    assert_eq!(list.last_server_id, 10);
    assert_eq!(list.sort_criterion, 0);
}

#[test]
fn xml_numbers_have_their_ranges() {
    let error = |server: XmlServer| match parse_server_list_xml(&vec![xml_server(), server], "") {
        Ok(_) => panic!("no error"),
        Err(e) => e,
    };
    assert_eq!(error(XmlServer { id: 0, ..xml_server() }), "Missing or invalid 'id' field");
    assert_eq!(error(XmlServer { port: 65_536, ..xml_server() }), "Missing or invalid 'port' field");
    let list = parse_server_list_xml(&vec![XmlServer { id: u32::MAX, port: 65_535, ..xml_server() }], "").unwrap();
    assert_eq!((list.servers[0].id, list.servers[0].port), (u32::MAX, 65_535));
    let nowhere = XmlServer { ip: String::new(), ..xml_server() };
    let list = parse_server_list_xml(&vec![nowhere], "").unwrap();
    assert_eq!((list.servers[0].address, list.servers[0].available), (0, 0));
    assert_eq!(list.servers[0].host, None);
}

#[test]
fn xml_without_servers_is_an_error() {
    match parse_server_list_xml(&vec![], "") {
        Ok(_) => panic!("no error"),
        Err(e) => assert_eq!(e, "No servers found in XML"),
    }
}

#[test]
fn json_text_becomes_a_list() {
    let body = r#"{
        "servers": [
            {"id": 3, "name": "A", "title": "Alpha", "category": "PvE", "queue": "No", "population": "High",
             "address": "10.1.2.3", "host": "ignored", "port": 7801, "available": 1},
            {"id": 4, "name": "B", "title": "Beta", "category": "PvP", "queue": "Yes", "population": 5,
             "host": "tera.example", "port": 7802, "unavailable_message": "later"},
            {"id": 5, "name": "C", "title": "Gamma", "category": "PvP", "queue": "No", "population": "Low",
             "host": "10.0.0.1", "port": 7803, "available": 2}
        ],
        "sort_criterion": 2
    }"#;
    let list = server_list_of_json_text(body, "x|3,2|4,7|").unwrap();
    assert_eq!(list.servers.len(), 3);
    assert_eq!(list.servers[0].id, 3);
    assert_eq!(read(&list.servers[0].name), "A");
    assert_eq!(read(&list.servers[0].title), "Alpha (2)");
    assert_eq!(read(&list.servers[0].population), "High");
    assert_eq!(list.servers[0].address, 0x0A010203);
    assert_eq!(list.servers[0].host, None);
    assert_eq!(list.servers[0].unavailable_message, Vec::<u8>::new());
    assert_eq!(list.servers[1].id, 4);
    assert_eq!(read(&list.servers[1].title), "Beta (7)");
    assert_eq!(read(&list.servers[1].population), "<b><font color=\"#FF0000\">Offline</font></b>");
    assert_eq!(list.servers[1].available, 0);
    assert_eq!(list.servers[1].address, 0);
    assert_eq!(list.servers[1].host, Some(utf16_to_bytes("tera.example")));
    assert_eq!(read(&list.servers[1].unavailable_message), "later");
    assert_eq!(list.servers[2].address, 0x0A000001);
    assert_eq!(list.servers[2].host, None);
    assert_eq!(list.servers[2].available, 1);
    assert_eq!(list.last_server_id, 3);
    assert_eq!(list.sort_criterion, 2);
}

#[test]
fn json_lists_that_are_none() {
    match server_list_of_json_text("{\"servers\": 1}", "") {
        Ok(_) => panic!("no error"),
        Err(e) => assert_eq!(e, "No servers found in JSON"),
    }
    match server_list_of_json_text("{\"servers\": [", "") {
        Ok(_) => panic!("no error"),
        Err(e) => assert_eq!(e, "EOF while parsing a list at line 1 column 13"),
    }
    match server_list_of_json_text("{\"servers\": [{\"id\": -1}]}", "") {
        Ok(_) => panic!("no error"),
        Err(e) => assert_eq!(e, "Missing or invalid 'id' field"),
    }
    let list = server_list_of_json_text("{\"servers\": []}", "").unwrap();
    assert_eq!((list.servers.len(), list.last_server_id, list.sort_criterion), (0, 0, 0));
}

#[test]
fn each_missing_member_is_told() {
    assert_eq!(json_error(|s| s.id = None), "Missing or invalid 'id' field");
    assert_eq!(json_error(|s| s.name = None), "Missing or invalid 'name' field");
    assert_eq!(json_error(|s| s.title = None), "Missing or invalid 'title' field");
    assert_eq!(json_error(|s| s.population = None), "Missing or invalid 'population' field");
    assert_eq!(json_error(|s| s.address = None), "Either 'address' or 'host' must be set");
    assert_eq!(json_error(|s| s.category = None), "Missing or invalid 'category' field");
    assert_eq!(json_error(|s| s.queue = None), "Missing or invalid 'queue' field");
    assert_eq!(json_error(|s| s.port = None), "Missing or invalid 'port' field");
    assert_eq!(json_error(|s| s.id = Some(0)), "Missing or invalid 'id' field");
    assert_eq!(json_error(|s| s.id = Some(4_294_967_300)), "Missing or invalid 'id' field");
    assert_eq!(json_error(|s| s.port = Some(70_000)), "Missing or invalid 'port' field");
    assert_eq!(json_error(|s| s.address = Some(String::new())), "Either 'address' or 'host' must be set");
    assert_eq!(
        json_error(|s| {
            s.address = Some("0.0.0.0".to_string());
            s.host = Some(String::new());
        }),
        "Either 'address' or 'host' must be set"
    );
    assert_eq!(
        json_error(|s| {
            s.name = None;
            s.category = None;
        }),
        "Missing or invalid 'name' field"
    );
}

#[test]
fn a_host_stands_in_for_an_address_that_is_none() {
    for address in ["", "0.0.0.0"] {
        let mut server = json_server(u32::MAX as u64);
        server.address = Some(address.to_string());
        server.host = Some("tera.example".to_string());
        server.port = Some(65_535);
        let list = JsonServerList { servers: Some(vec![server]), sort_criterion: None };
        let list = parse_server_list_json(&list, "").unwrap();
        assert_eq!(list.servers[0].address, 0);
        assert_eq!(list.servers[0].host, Some(utf16_to_bytes("tera.example")));
        assert_eq!((list.servers[0].id, list.servers[0].port), (u32::MAX, 65_535));
    }
}

#[test]
fn offline_servers_need_no_population() {
    let mut server = json_server(1);
    server.available = None;
    server.population = None;
    let list = JsonServerList { servers: Some(vec![server]), sort_criterion: None };
    let list = parse_server_list_json(&list, "").unwrap();
    assert_eq!(list.servers[0].available, 0);
    assert!(read(&list.servers[0].population).contains("Offline"));
}

#[test]
fn sorting_is_stable_refines_and_turns_round() {
    let list = ServerList {
        servers: vec![
            named(1, "b", "PvP", "Low"),
            named(2, "a", "PvE", "High"),
            named(3, "c", "PvP", "High"),
            named(4, "a", "PvP", "Low"),
        ],
        last_server_id: 0,
        sort_criterion: 0,
    };
    let mut catalog = ServerCatalog::new(list, "|1,1|2,5|3,5|");
    let ask = |catalog: &mut ServerCatalog, c: i32| {
        let message = catalog.answer(&c.to_le_bytes());
        assert_eq!(criterion(&message), c);
        ids(&message)
    };
    assert_eq!(ask(&mut catalog, -1), vec![1, 2, 3, 4]);
    let by_name = ask(&mut catalog, 2);
    assert_eq!(by_name, vec![2, 4, 1, 3]);
    let by_category = ask(&mut catalog, 1);
    assert_eq!(by_category, vec![2, 4, 1, 3]);
    assert_eq!(ask(&mut catalog, 1), vec![3, 1, 4, 2]);
    assert_eq!(ask(&mut catalog, 4), vec![3, 2, 1, 4]);
    assert_eq!(ask(&mut catalog, -1), vec![1, 2, 3, 4]);
    assert_eq!(ask(&mut catalog, 2), vec![2, 4, 1, 3]);
    let mut before = ask(&mut catalog, 0);
    let mut after = ask(&mut catalog, 0);
    after.reverse();
    assert_eq!(before, after);
    before.sort();
    assert_eq!(before, vec![1, 2, 3, 4]);
}

#[test]
fn a_request_without_criterion_changes_nothing() {
    let list = ServerList {
        servers: vec![named(1, "b", "", ""), named(2, "a", "", "")],
        last_server_id: 0,
        sort_criterion: 9,
    };
    let mut catalog = ServerCatalog::new(list, "");
    assert_eq!(ids(&catalog.answer(&2i32.to_le_bytes())), vec![2, 1]);
    let message = catalog.answer(&[1, 2]);
    assert_eq!((ids(&message), criterion(&message)), (vec![2, 1], 9));
    assert_eq!(ids(&catalog.answer(&2i32.to_le_bytes())), vec![1, 2]);
}

#[test]
fn the_game_gets_its_answers_in_lockstep() {
    let who = credentials();
    let list = parse_server_list_xml(&vec![xml_server()], &who.characters_count).unwrap();
    let mut cache = Some(ServerCatalog::new(list, &who.characters_count));
    let (game, window) = (77usize, 5usize);
    let mut send = |event: usize, payload: &[u8]| wnd_proc(window, WM_COPYDATA, game, event, payload, &who, &mut cache);
    assert!(matches!(send(1000, &[0; 520]), Reaction::Answered(Answer::Nothing(Notice::Started))));
    for (event, payload, answer) in [
        (1usize, vec![], utf16_to_bytes("Ñandú")),
        (3, vec![], "123e4567-é".as_bytes().to_vec()),
        (5, 0i32.to_le_bytes().to_vec(), dump()),
        (7, vec![], vec![]),
        (7, vec![1, 2, 3], vec![1, 2, 3]),
    ] {
        match send(event, &payload) {
            Reaction::Answered(Answer::Send(r)) => {
                assert_eq!((r.recipient, r.sender, r.event), (game, window, event + 1));
                assert_eq!(r.payload, answer);
            }
            _ => panic!("no answer"),
        }
    }
    assert!(matches!(send(1001, &[]), Reaction::Answered(Answer::Nothing(Notice::Event(1001)))));
    assert!(matches!(send(1016, &[]), Reaction::Answered(Answer::Nothing(Notice::Event(1016)))));
    assert!(matches!(send(1017, &[]), Reaction::Answered(Answer::Nothing(Notice::Unknown(1017)))));
    assert!(matches!(send(1020, &[]), Reaction::Answered(Answer::Nothing(Notice::Exited))));
    assert!(matches!(send(1021, &[]), Reaction::Answered(Answer::Nothing(Notice::Crashed))));
    assert!(matches!(send(24, &[]), Reaction::Answered(Answer::Nothing(Notice::Unknown(24)))));
}

#[test]
fn other_window_messages() {
    let who = credentials();
    let mut cache = None;
    let quit = wnd_proc(5, WM_GAME_EXITED, 0, 1, &[], &who, &mut cache);
    assert!(matches!(quit, Reaction::Quit));
    assert_eq!(message_result(&quit), Some(0));
    let other = wnd_proc(5, 0x0010, 0, 1, &[], &who, &mut cache);
    assert!(matches!(other, Reaction::Default));
    assert_eq!(message_result(&other), None);
    let told = wnd_proc(5, WM_COPYDATA, 0, 1, &[], &who, &mut cache);
    assert_eq!(message_result(&told), Some(1));
    assert_eq!((WM_COPYDATA, WM_GAME_EXITED), (0x4A, 0x401));
}

#[test]
fn a_list_that_is_missing_is_fetched_and_kept() {
    let who = credentials();
    let mut cache = None;
    let ask = 0i32.to_le_bytes();
    assert!(matches!(
        wnd_proc(5, WM_COPYDATA, 77, 5, &ask, &who, &mut cache),
        Reaction::Answered(Answer::FetchServerList)
    ));
    let failed = answer_fetched_list(77, 5, &ask, None, &mut cache);
    assert_eq!((failed.event, failed.recipient, failed.sender), (6, 77, 5));
    assert!(failed.payload.is_empty());
    assert!(cache.is_none());
    let list = parse_server_list_xml(&vec![xml_server()], &who.characters_count).unwrap();
    let fetched = Some(ServerCatalog::new(list, &who.characters_count));
    let answer = answer_fetched_list(77, 5, &ask, fetched, &mut cache);
    assert_eq!((answer.event, answer.payload), (6, dump()));
    match wnd_proc(5, WM_COPYDATA, 78, 5, &ask, &who, &mut cache) {
        Reaction::Answered(Answer::Send(r)) => {
            assert_eq!((r.recipient, r.event), (78, 6));
            assert_eq!(r.payload, dump());
        }
        _ => panic!("not kept"),
    }
}

#[test]
fn payloads_are_put_down_while_they_are_short() {
    assert_eq!(describe_payload(&[]), "payload (hex): ");
    assert_eq!(describe_payload(&[0x0A]), "payload (hex): 0A");
    assert_eq!(describe_payload(&[0x0A, 0xFF, 0x00]), "payload (hex): 0A FF 00");
    assert!(describe_payload(&[1; 64]).starts_with("payload (hex): 01 01"));
    assert_eq!(describe_payload(&[1; 65]), "payload: 65 bytes (truncated)");
}

#[test]
fn leftover_windows_are_told_by_their_class() {
    let wanted = to_wstring("LAUNCHER_CLASS");
    let class = |s: &str| s.encode_utf16().collect::<Vec<u16>>();
    assert!(is_leftover(&class("LAUNCHER_CLASS"), &wanted));
    assert!(!is_leftover(&class("LAUNCHER_CLASS2"), &wanted));
    assert!(!is_leftover(&class("LAUNCHER_CLAS"), &wanted));
    assert!(!is_leftover(&class("Shell_TrayWnd"), &wanted));
    assert!(!is_leftover(&class("any"), &[0, 65]));
    assert!(is_leftover(&[], &[0, 65]));
    assert!(is_leftover(&class("ab"), &class("ab")));
    assert!(!is_leftover(&class("a"), &class("ab")));
}
