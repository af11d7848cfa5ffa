//! Texts, numbers, dates and addresses.
use teralaunch::calendar::{format_timestamp, local_offset_minutes, seconds_to_ymdhms, TimeZone};
use teralaunch::credentials::{lookup_count, parse_character_counts};
use teralaunch::ini::{read_text, write_text};
use teralaunch::ipv4::{ipv4_to_u32, parse_addr_or_host, parse_ipv4, says_where};
use teralaunch::number::{decimal, hex_of, parse_number, parse_u32, push_hex_word, push_padded};
use teralaunch::text::{
    begins, chars_of, find, has, is_before, replace, split_at_each, string_of, to_lower, trim, trim_end_of,
};
use teralaunch::utf16::{decode, encode, to_wstring, units_of, utf16_to_bytes};

fn text(v: &[char]) -> String {
    v.iter().collect()
}

#[test]
fn strings_and_characters() {
    assert_eq!(chars_of("añ😀"), vec!['a', 'ñ', '😀']);
    assert_eq!(string_of(&['a', 'ñ', '😀']), "añ😀");
    assert_eq!(chars_of(""), Vec::<char>::new());
}

#[test]
fn replaces_each_occurrence_once() {
    let r = replace(&chars_of("aaa b aa"), &chars_of("aa"), &chars_of("c"));
    assert_eq!(text(&r), "ca b c");
    let r = replace(&chars_of("MotionBlur=True"), &chars_of("=True"), &chars_of("=False"));
    assert_eq!(text(&r), "MotionBlur=False");
    let r = replace(&chars_of("x"), &chars_of("y"), &chars_of("z"));
    assert_eq!(text(&r), "x");
}

#[test]
fn finds_what_stands_in_a_text() {
    let s = chars_of("http://host/path");
    assert!(has(&s, &chars_of("://")));
    assert!(!has(&s, &chars_of("https")));
    assert!(has(&s, &[]));
    assert_eq!(find(&s, &chars_of("/"), 0), Some(5));
    assert_eq!(find(&s, &chars_of("/"), 7), Some(11));
    assert_eq!(find(&s, &chars_of("/"), 12), None);
    assert_eq!(find(&s, &chars_of("/"), 100), None);
    assert!(begins(&s, &chars_of("http")));
    assert!(!begins(&s, &chars_of("host")));
}

#[test]
fn splits_and_trims_like_the_standard_library() {
    for s in ["", "|", "a|b", "|a||b|", "10|10,1|"] {
        let ours: Vec<String> = split_at_each(&chars_of(s), '|').iter().map(|p| text(p)).collect();
        let theirs: Vec<String> = s.split('|').map(|p| p.to_string()).collect();
        assert_eq!(ours, theirs);
    }
    for s in ["", "  ", " a b ", "\u{a0}x\u{3000}", "\t\r\nx", "\u{200b}x"] {
        assert_eq!(text(&trim(&chars_of(s))), s.trim());
    }
    assert_eq!(text(&trim_end_of(&chars_of("a//"), '/')), "a");
    assert_eq!(text(&trim_end_of(&chars_of("//"), '/')), "");
    assert_eq!(text(&to_lower(&chars_of("Text/JSON É"))), "text/json É");
}

#[test]
fn dictionary_order() {
    for (a, b) in [("", "a"), ("a", "b"), ("a", "ab"), ("B", "a"), ("rc1", "rc2")] {
        assert!(is_before(&chars_of(a), &chars_of(b)));
        assert!(!is_before(&chars_of(b), &chars_of(a)));
    }
    assert!(!is_before(&chars_of("a"), &chars_of("a")));
}

#[test]
fn numbers_as_text() {
    assert_eq!(decimal(0), "0");
    assert_eq!(decimal(18_446_744_073_709_551_615), "18446744073709551615");
    for (n, width) in [(7i64, 2usize), (-7, 4), (1234, 2), (0, 3), (-12345, 4)] {
        let mut out: Vec<char> = Vec::new();
        push_padded(n, width, &mut out);
        assert_eq!(text(&out), format!("{:0width$}", n, width = width));
    }
    let mut out: Vec<char> = Vec::new();
    push_hex_word(0x0102, &mut out);
    assert_eq!(text(&out), "0102");
    assert_eq!(text(&hex_of(&[0x00, 0xAB, 0x7F], false)), "00ab7f");
    assert_eq!(text(&hex_of(&[0x00, 0xAB, 0x7F], true)), "00AB7F");
}

#[test]
fn numbers_from_text() {
    for s in ["0", "42", "+7", "007", "4294967295", "4294967296", "", "+", "-1", " 1", "1a", "99999999999999999999"] {
        assert_eq!(parse_u32(&chars_of(s)), s.parse::<u32>().ok());
    }
    assert_eq!(parse_number(&chars_of("255"), 255), Some(255));
    assert_eq!(parse_number(&chars_of("256"), 255), None);
}

#[test]
fn utf16_goes_there_and_back() {
    for s in ["", "Tera", "ñandú", "😀 a"] {
        assert_eq!(encode(&chars_of(s)), s.encode_utf16().collect::<Vec<u16>>());
        let bytes = utf16_to_bytes(s);
        assert_eq!(bytes.len(), 2 * s.encode_utf16().count());
        assert_eq!(decode(&units_of(&bytes, 0)).map(|v| text(&v)), Some(s.to_string()));
    }
    assert_eq!(utf16_to_bytes("PvP"), vec![0x50, 0, 0x76, 0, 0x50, 0]);
    assert_eq!(to_wstring("ab"), vec![0x61, 0x62, 0]);
    assert_eq!(decode(&[0xD83D, 0xDE00]), Some(vec!['😀']));
    assert_eq!(decode(&[0xD83D]), None);
    assert_eq!(decode(&[0xDE00, 0x61]), None);
    assert_eq!(units_of(&[0x61, 0x00, 0x62], 0), vec![0x61]);
}

#[test]
fn text_files_keep_their_encoding() {
    let (s, utf16) = read_text(b"a=\xC3\xB1").unwrap();
    assert_eq!((text(&s).as_str(), utf16), ("a=ñ", false));
    assert_eq!(write_text(&s, utf16), b"a=\xC3\xB1".to_vec());
    let file = vec![0xFF, 0xFE, 0x61, 0x00, 0x3D, 0xD8, 0x00, 0xDE];
    let (s, utf16) = read_text(&file).unwrap();
    assert_eq!((text(&s).as_str(), utf16), ("a😀", true));
    assert_eq!(write_text(&s, utf16), file);
    let (s, utf16) = read_text(b"a\xFFb").unwrap();
    assert_eq!((text(&s).as_str(), utf16), ("a\u{FFFD}b", false));
}

#[test]
fn lone_surrogates_are_no_text() {
    assert_eq!(
        read_text(&[0xFF, 0xFE, 0x00, 0xD8]).unwrap_err(),
        "utf16 decode: invalid utf-16: lone surrogate found"
    );
}

#[test]
fn ipv4_addresses() {
    assert_eq!(ipv4_to_u32("179.43.117.194"), 0xB32B75C2);
    for (s, expected) in [
        ("0.0.0.0", Some(0u32)),
        ("255.255.255.255", Some(0xFFFFFFFF)),
        ("127.0.0.1", Some(0x7F000001)),
        ("1.2.3", None),
        ("1.2.3.4.5", None),
        ("01.2.3.4", None),
        ("256.1.1.1", None),
        ("", None),
        ("a.b.c.d", None),
        ("1.2.3.4 ", None),
        ("+1.2.3.4", None),
        ("1..2.3", None),
        ("1.2.3.0004", None),
        ("10.0.00.1", None),
    ] {
        assert_eq!(parse_ipv4(s), expected);
        assert_eq!(ipv4_to_u32(s), expected.unwrap_or(0));
    }
    assert_eq!(parse_addr_or_host("10.0.0.1"), (0x0A000001, None));
    assert_eq!(parse_addr_or_host(""), (0, None));
    assert!(says_where("10.0.0.1") && says_where("tera") && !says_where("") && !says_where("0.0.0.0"));
    assert_eq!(parse_addr_or_host("tera"), (0, Some(utf16_to_bytes("tera"))));
}

#[test]
fn characters_on_servers() {
    let (last, counts) = parse_character_counts("10|10,1|20, 3 |x,2|30|40,5,6||10,2|");
    assert_eq!(last, 10);
    assert_eq!(lookup_count(&counts, 10), 2);
    assert_eq!(lookup_count(&counts, 20), 3);
    assert_eq!(lookup_count(&counts, 30), 0);
    assert_eq!(lookup_count(&counts, 40), 5);
    assert_eq!(counts.len(), 3);
    let (last, counts) = parse_character_counts("");
    assert_eq!((last, counts.len()), (0, 0));
    let (last, _) = parse_character_counts(" 7|");
    assert_eq!(last, 0);
}

#[test]
fn dates_and_times() {
    assert_eq!(seconds_to_ymdhms(0), (1970, 1, 1, 0, 0, 0));
    assert_eq!(seconds_to_ymdhms(951_782_399), (2000, 2, 28, 23, 59, 59));
    assert_eq!(seconds_to_ymdhms(951_782_400), (2000, 2, 29, 0, 0, 0));
    assert_eq!(seconds_to_ymdhms(1_778_630_400), (2026, 5, 13, 0, 0, 0));
    assert_eq!(seconds_to_ymdhms(-1), (1969, 12, 31, 23, 59, 59));
    assert_eq!(seconds_to_ymdhms(-86_400 * 719_468), (0, 3, 1, 0, 0, 0));
    assert_eq!(format_timestamp(951_782_399, 7, None), "2000-02-28 23:59:59.007");
    assert_eq!(format_timestamp(951_782_399, 7, Some(-180)), "2000-02-28 20:59:59.007");
    assert_eq!(format_timestamp(951_782_399, 999, Some(60)), "2000-02-29 00:59:59.999");
}

#[test]
fn days_follow_each_other() {
    let mut day: i64 = -800_000;
    while day < 800_000 {
        let (y1, m1, d1, _, _, _) = seconds_to_ymdhms(day * 86_400);
        let (y2, m2, d2, _, _, _) = seconds_to_ymdhms((day + 1) * 86_400);
        assert!((y2, m2, d2) > (y1, m1, d1));
        assert!(d2 == d1 + 1 || d2 == 1);
        day += 977;
    }
}

#[test]
fn time_zones() {
    let zone = |state: u32| TimeZone { state, bias: 180, standard_bias: 5, daylight_bias: -60 };
    assert_eq!(local_offset_minutes(Some(zone(2))), Some(-120));
    assert_eq!(local_offset_minutes(Some(zone(1))), Some(-185));
    assert_eq!(local_offset_minutes(Some(zone(0))), Some(-180));
    assert_eq!(local_offset_minutes(None), None);
}
