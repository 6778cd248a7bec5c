use sandbox_job::grammar::{
    check_group, check_host, check_octet, check_quad, check_scoped_v6, check_v6, count_groups,
    find_double_colon, parse_numeral, parse_socket_port,
};
use sandbox_job::inventory::{
    check_space, chars_of, find_column, read_line, replace_wildcard, used_ports, InventoryError,
};
use sandbox_job::scan::{find_byte, find_char, split_bytes, split_chars};

fn chars(s: &str) -> Vec<char> {
    s.chars().collect()
}

fn text(v: &[char]) -> String {
    v.iter().collect()
}

fn port_of(s: &str) -> Option<u16> {
    parse_socket_port(&chars(s))
}

#[test]
fn reads_a_typical_table() {
    let table = b"LISTEN 0      128          0.0.0.0:22        0.0.0.0:*          \n\
LISTEN 0      4096       127.0.0.1:631       0.0.0.0:*          \n\
LISTEN 0      128             [::]:22           [::]:*          \n\
LISTEN 0      511                *:80              *:*          \n\
LISTEN 0      4096           [::1]:30001        [::]:*          \n";
    assert_eq!(used_ports(table), Ok(vec![22, 631, 22, 80, 30001]));
}

#[test]
fn empty_table_has_no_ports() {
    assert_eq!(used_ports(b""), Ok(vec![]));
}

#[test]
fn last_line_needs_no_line_feed() {
    assert_eq!(used_ports(b"a b c 1.2.3.4:5\nd e f 0.0.0.0:6"), Ok(vec![5, 6]));
    assert_eq!(used_ports(b"a b c 1.2.3.4:5\r\nd e f 0.0.0.0:6\r\n"), Ok(vec![5, 6]));
}

#[test]
fn blank_line_lacks_the_column() {
    assert_eq!(used_ports(b"\n"), Err(InventoryError::MissingColumn));
    assert_eq!(used_ports(b"a b c 1.2.3.4:5\n\n"), Err(InventoryError::MissingColumn));
    assert_eq!(used_ports(b"LISTEN 0 128\n"), Err(InventoryError::MissingColumn));
    assert_eq!(used_ports(b"   \t \n"), Err(InventoryError::MissingColumn));
}

#[test]
fn bad_address_fails_the_reading() {
    assert_eq!(
        used_ports(b"LISTEN 0 128 127.0.0.53%lo:53 0.0.0.0:*\n"),
        Err(InventoryError::BadAddress)
    );
    assert_eq!(used_ports(b"a b c 1.2.3.4:5\na b c nonsense x\n"), Err(InventoryError::BadAddress));
    assert_eq!(used_ports(b"a b c 1.2.3.4:65536\n"), Err(InventoryError::BadAddress));
}

#[test]
fn text_that_is_not_utf8_fails_the_reading() {
    assert_eq!(used_ports(b"a b c \xff.2.3.4:5\n"), Err(InventoryError::InvalidText));
    assert_eq!(used_ports(b"\xc3\x28 b c 1.2.3.4:5\n"), Err(InventoryError::InvalidText));
    assert_eq!(read_line(b"\x80"), Err(InventoryError::InvalidText));
}

#[test]
fn first_failing_line_decides_the_error() {
    assert_eq!(
        used_ports(b"a b c 1.2.3.4:5\nx\na b c bad\n\xff\n"),
        Err(InventoryError::MissingColumn)
    );
    assert_eq!(used_ports(b"a b c bad\nx\n"), Err(InventoryError::BadAddress));
    assert_eq!(used_ports(b"\xff\na b c bad\n"), Err(InventoryError::InvalidText));
}

#[test]
fn columns_are_split_at_unicode_white_space() {
    let line = "a\u{00a0}b\u{2003}c\u{3000}1.2.3.4:9\u{0085}rest";
    assert_eq!(read_line(line.as_bytes()), Ok(9));
    assert_eq!(read_line("\u{00e9}t\u{00e9} 0 0 *:8080 *:*".as_bytes()), Ok(8080));
}

#[test]
fn white_space_matches_the_standard_definition() {
    for u in 0..=0x10ffffu32 {
        if let Some(c) = char::from_u32(u) {
            assert_eq!(check_space(c), c.is_whitespace(), "U+{:04X}", u);
        }
    }
}

#[test]
fn chars_of_keeps_every_character() {
    assert_eq!(chars_of(""), Vec::<char>::new());
    assert_eq!(chars_of("a\u{00e9}\u{4e2d}\u{1f600}z"), chars("a\u{00e9}\u{4e2d}\u{1f600}z"));
}

#[test]
fn finds_columns() {
    let line = chars("  LISTEN\t0   128 [::]:22   [::]:*");
    assert_eq!(find_column(&line, 0).map(|c| text(&c)), Some("LISTEN".to_string()));
    assert_eq!(find_column(&line, 3).map(|c| text(&c)), Some("[::]:22".to_string()));
    assert_eq!(find_column(&line, 4).map(|c| text(&c)), Some("[::]:*".to_string()));
    assert_eq!(find_column(&line, 5), None);
    assert_eq!(find_column(&chars(""), 0), None);
    assert_eq!(find_column(&chars("   "), 0), None);
}

#[test]
fn wildcard_becomes_the_unspecified_address() {
    assert_eq!(text(&replace_wildcard(&chars("*:80"))), "0.0.0.0:80");
    assert_eq!(text(&replace_wildcard(&chars("[::]:22"))), "[::]:22");
    assert_eq!(text(&replace_wildcard(&chars("**"))), "0.0.0.00.0.0.0");
    assert_eq!(text(&replace_wildcard(&chars(""))), "");
    for s in ["*:*", "a*b", "1.2.3.4:5", "*"] {
        assert_eq!(text(&replace_wildcard(&chars(s))), s.replace('*', "0.0.0.0"));
    }
}

#[test]
fn splits_at_separators() {
    let parts = split_chars(&chars("a.b..c."), '.');
    let parts: Vec<String> = parts.iter().map(|p| text(p)).collect();
    assert_eq!(parts, vec!["a", "b", "", "c", ""]);
    assert_eq!(split_chars(&chars(""), '.'), vec![Vec::<char>::new()]);
    assert_eq!(split_bytes(b"x\ny\n", b'\n'), vec![b"x".to_vec(), b"y".to_vec(), vec![]]);
    assert_eq!(split_bytes(b"", b'\n'), vec![Vec::<u8>::new()]);
    assert_eq!(find_char(&chars("ab:cd:"), 0, ':'), 2);
    assert_eq!(find_char(&chars("ab:cd:"), 3, ':'), 5);
    assert_eq!(find_char(&chars("ab:cd"), 3, ':'), 5);
    assert_eq!(find_byte(b"ab\ncd", 0, b'\n'), 2);
    assert_eq!(find_byte(b"ab\ncd", 3, b'\n'), 5);
}

#[test]
fn numerals() {
    assert_eq!(parse_numeral(&chars("0"), 65535), Some(0));
    assert_eq!(parse_numeral(&chars("65535"), 65535), Some(65535));
    assert_eq!(parse_numeral(&chars("65536"), 65535), None);
    assert_eq!(parse_numeral(&chars("00080"), 65535), Some(80));
    assert_eq!(parse_numeral(&chars("0000000000000000000000080"), 65535), Some(80));
    assert_eq!(parse_numeral(&chars(""), 65535), None);
    assert_eq!(parse_numeral(&chars("+1"), 65535), None);
    assert_eq!(parse_numeral(&chars("1a"), 65535), None);
    assert_eq!(parse_numeral(&chars("4294967295"), u32::MAX), Some(u32::MAX));
    assert_eq!(parse_numeral(&chars("4294967296"), u32::MAX), None);
    assert_eq!(parse_numeral(&chars("99999999999999999999"), u32::MAX), None);
    assert_eq!(parse_numeral(&chars("7"), 5), None);
    assert_eq!(parse_numeral(&chars("\u{0661}"), 5), None);
}

#[test]
fn octets_and_quads() {
    assert!(check_octet(&chars("0")));
    assert!(check_octet(&chars("255")));
    assert!(!check_octet(&chars("256")));
    assert!(!check_octet(&chars("01")));
    assert!(!check_octet(&chars("")));
    assert!(!check_octet(&chars("1000")));
    assert!(check_quad(&chars("0.0.0.0")));
    assert!(check_quad(&chars("255.255.255.255")));
    assert!(!check_quad(&chars("1.2.3")));
    assert!(!check_quad(&chars("1.2.3.4.5")));
    assert!(!check_quad(&chars("1.2.3.")));
    assert!(!check_quad(&chars("1..3.4")));
    assert!(!check_quad(&chars("1.2.3.04")));
    assert!(!check_quad(&chars("")));
}

#[test]
fn groups_and_v6() {
    assert!(check_group(&chars("0")));
    assert!(check_group(&chars("fFfF")));
    assert!(!check_group(&chars("")));
    assert!(!check_group(&chars("12345")));
    assert!(!check_group(&chars("g")));
    assert_eq!(count_groups(&chars(""), true), Some(0));
    assert_eq!(count_groups(&chars("1:2:3"), false), Some(3));
    assert_eq!(count_groups(&chars("1:2:1.2.3.4"), true), Some(4));
    assert_eq!(count_groups(&chars("1:2:1.2.3.4"), false), None);
    assert_eq!(count_groups(&chars("1.2.3.4:1"), true), None);
    assert_eq!(count_groups(&chars("1:2:"), true), None);
    assert_eq!(count_groups(&chars("1:2:3:4:5:6:7:8:9"), true), None);
    assert_eq!(find_double_colon(&chars("1::2")), 1);
    assert_eq!(find_double_colon(&chars("::")), 0);
    assert_eq!(find_double_colon(&chars("1:2:3")), 5);
    assert_eq!(find_double_colon(&chars(":")), 1);
    assert_eq!(find_double_colon(&chars("")), 0);
    assert!(check_v6(&chars("::")));
    assert!(check_v6(&chars("::1")));
    assert!(check_v6(&chars("1:2:3:4:5:6:7:8")));
    assert!(check_v6(&chars("1:2:3:4:5:6:7::")));
    assert!(!check_v6(&chars("1:2:3:4:5:6:7:8::")));
    assert!(!check_v6(&chars("1:2:3:4:5:6:7")));
    assert!(check_v6(&chars("::ffff:1.2.3.4")));
    assert!(check_v6(&chars("1:2:3:4:5:6:1.2.3.4")));
    assert!(!check_v6(&chars("1.2.3.4::")));
    assert!(!check_v6(&chars(":::")));
    assert!(!check_v6(&chars("")));
    assert!(check_scoped_v6(&chars("fe80::1%3")));
    assert!(!check_scoped_v6(&chars("fe80::1%")));
    assert!(!check_scoped_v6(&chars("fe80::1%eth0")));
    assert!(check_host(&chars("[::1]")));
    assert!(check_host(&chars("10.0.0.1")));
    assert!(!check_host(&chars("::1")));
    assert!(!check_host(&chars("[10.0.0.1]")));
    assert!(!check_host(&chars("[")));
}

#[test]
fn socket_ports() {
    assert_eq!(port_of("0.0.0.0:22"), Some(22));
    assert_eq!(port_of("127.0.0.1:65535"), Some(65535));
    assert_eq!(port_of("[::]:22"), Some(22));
    assert_eq!(port_of("[::1]:080"), Some(80));
    assert_eq!(port_of("[fe80::1%7]:443"), Some(443));
    assert_eq!(port_of("[::ffff:10.1.2.3]:1"), Some(1));
    assert_eq!(port_of("1.2.3.4"), None);
    assert_eq!(port_of("1.2.3.4:"), None);
    assert_eq!(port_of(":80"), None);
    assert_eq!(port_of("[::1]"), None);
    assert_eq!(port_of("::1:80"), None);
    assert_eq!(port_of("localhost:80"), None);
    assert_eq!(port_of(""), None);
}

#[test]
fn every_address_combines_with_every_port() {
    let good_hosts = [
        "0.0.0.0", "1.2.3.4", "255.255.255.255", "[::]", "[::1]", "[1::]", "[1:2:3:4:5:6:7:8]",
        "[1:2:3:4:5:6:7::]", "[::2:3:4:5:6:7:8]", "[1::3:4:5:6:7:8]", "[::ffff:1.2.3.4]",
        "[1:2:3:4:5:6:1.2.3.4]", "[1:2:3:4:5::1.2.3.4]", "[::abcd]", "[::ABCD]", "[fe80::1%1]",
        "[fe80::1%0]", "[fe80::1%01]", "[fe80::1%4294967295]", "[::%1]", "[0:0:0:0:0:0:0:0]",
        "[0000:0000:0000:0000:0000:0000:0000:0001]", "[::0.0.0.0]", "[1:2:3:4:5:6:7:8%9]",
        "[1::8%9]", "[::ffff:1.2.3.4%5]", "[1:2::3:4:5:6:7]", "[::1:2:3:4:5:6:7]",
        "[1:2:3:4:5:6::7]", "[a:b:c:d:e:f:0:1]", "[1::2:1.2.3.4]", "[::1:1.2.3.4]",
    ];
    let bad_hosts = [
        "256.1.1.1", "01.2.3.4", "1.2.3", "1.2.3.4.5", "1.2.3.4 ", " 1.2.3.4", "1..2.3", ".1.2.3",
        "1.2.3.", "1.2.3.1234", "a.b.c.d", "", "[1:2:3:4:5:6:7:8:9]", "[1:2:3:4:5:6:7]",
        "[1:2:3:4:5:6:7:8::]", "[::1:2:3:4:5:6:7:8]", "[1::2::3]", "[:::]", "[:1]", "[1:]",
        "[1:2:3:4:5:1.2.3.4]", "[1:2:3:4:5:6:7:1.2.3.4]", "[1.2.3.4::]", "[1.2.3.4::1]",
        "[::1.2.3.4:5]", "[::1.2.3]", "[::1.2.3.256]", "[::01.2.3.4]",
        "[1:2:3:4:5:6:7::1.2.3.4]", "[1:2:3:4:5:6::1.2.3.4]", "[12345::]", "[::12345]", "[::g]",
        "[fe80::1%4294967296]", "[fe80::1%]", "[fe80::1%eth0]", "[fe80::1%1%2]", "[%1]", "[::1",
        "::1]", "::1", "[[::1]]", "[::1]]", "[]", "[", "]", "[ ::1]", "[::1 ]", "[00000::]",
        "[1:2::3:4:5:6:7:8]", "[::1.2.3.4.5]",
    ];
    let good_ports: [(&str, u16); 5] =
        [(":0", 0), (":80", 80), (":65535", 65535), (":080", 80), (":0000000000080", 80)];
    let bad_ports = [
        ":65536", ":", "", ":-1", ":+1", ":8 0", ":80 ", ": 80", ":8a", "::80",
        ":99999999999999999999",
    ];
    for host in good_hosts {
        assert!(check_host(&chars(host)), "{:?}", host);
        for (port, value) in good_ports {
            let candidate = format!("{}{}", host, port);
            assert_eq!(port_of(&candidate), Some(value), "{:?}", candidate);
        }
        for port in bad_ports {
            let candidate = format!("{}{}", host, port);
            assert_eq!(port_of(&candidate), None, "{:?}", candidate);
        }
    }
    for host in bad_hosts {
        assert!(!check_host(&chars(host)), "{:?}", host);
        for (port, _) in good_ports {
            let candidate = format!("{}{}", host, port);
            assert_eq!(port_of(&candidate), None, "{:?}", candidate);
        }
        for port in bad_ports {
            let candidate = format!("{}{}", host, port);
            assert_eq!(port_of(&candidate), None, "{:?}", candidate);
        }
    }
}
