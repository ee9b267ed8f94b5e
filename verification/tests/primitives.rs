//! Text, addresses, ids and the clock.
use tunnel_server::clock::{
    now_rfc3339, now_secs, reading, rfc3339_at, session_now, signed_reading, FIRST_STAMPED,
    LAST_STAMPED,
};
use tunnel_server::ids::Id;
use tunnel_server::ip::{parse_ip, IpAddr, SocketAddr};
use tunnel_server::text::{decimal, eq_ignore_ascii_case, to_ascii_lowercase, trim};

#[test]
fn ipv4_addresses_are_read_as_std_reads_them() {
    assert_eq!(parse_ip("127.0.0.1"), Some(IpAddr::V4(0x7f00_0001)));
    assert_eq!(parse_ip("255.255.255.255"), Some(IpAddr::V4(u32::MAX)));
    for bad in ["", "1.2.3", "1.2.3.4.5", "256.0.0.1", "01.2.3.4", "1.2.3.4 ", "1..2.3", "a.b.c.d"] {
        assert_eq!(parse_ip(bad), None, "{bad:?}");
    }
}

#[test]
fn ipv6_addresses_are_read_as_std_reads_them() {
    assert_eq!(parse_ip("::"), Some(IpAddr::V6(0)));
    assert_eq!(parse_ip("::1"), Some(IpAddr::V6(1)));
    assert_eq!(parse_ip("1::"), Some(IpAddr::V6(1 << 112)));
    assert_eq!(parse_ip("fe80::1:2"), Some(IpAddr::V6((0xfe80 << 112) + (1 << 16) + 2)));
    assert_eq!(parse_ip("::ffff:1.2.3.4"), Some(IpAddr::V6(0xffff_0102_0304)));
    assert_eq!(parse_ip("0:0:0:0:0:0:0:1"), Some(IpAddr::V6(1)));
    for bad in [":", ":::", "1:2:3:4:5:6:7", "1:2:3:4:5:6:7:8:9", "12345::", "::1::", "g::", "1.2.3.4::"] {
        assert_eq!(parse_ip(bad), None, "{bad:?}");
    }
}

#[test]
fn addresses_are_written_as_std_writes_them() {
    let written = |s: &str| parse_ip(s).unwrap().to_text();
    for s in ["127.0.0.1", "::", "::1", "1::", "fe80::1:2", "1:2:3:4:5:6:7:8", "1:0:2::3"] {
        assert_eq!(written(s), s);
    }
    assert_eq!(written("0:0:1:0:0:0:1:0"), "0:0:1::1:0");
    assert_eq!(written("::ffff:1.2.3.4"), "::ffff:1.2.3.4");
    assert_eq!(SocketAddr::new(IpAddr::V6(1), 80).to_text(), "[::1]:80");
    assert_eq!(SocketAddr::new(IpAddr::V4(1), 65535).to_text(), "0.0.0.1:65535");
    let scoped = |flowinfo: u32, scope_id: u32| {
        (SocketAddr::V6 { ip: 1, port: 80, flowinfo, scope_id }).to_text()
    };
    assert_eq!((scoped(0, 3), scoped(7, 0)), ("[::1%3]:80".to_string(), "[::1]:80".to_string()));
    assert_eq!(scoped(7, u32::MAX), "[::1%4294967295]:80");
}

#[test]
fn ids_are_read_and_written() {
    let text = "11111111-2222-3333-4444-555555555555";
    let id = Id::parse_str(text).unwrap();
    assert_eq!(id, Id::from_u128(0x11111111_2222_3333_4444_555555555555));
    assert_eq!(id.to_text(), text);
    assert_eq!(Id::parse_str("11111111222233334444555555555555"), Some(id));
    assert_eq!(Id::parse_str("ABCDEF00-0000-0000-0000-00000000000a").unwrap().to_text(),
        "abcdef00-0000-0000-0000-00000000000a");
    for bad in ["", "1", "11111111-2222-3333-4444-55555555555", "11111111-2222-3333-4444-55555555555g"] {
        assert_eq!(Id::parse_str(bad), None, "{bad:?}");
    }
}

#[test]
fn ids_in_braces_and_urns_are_read() {
    let id = Id::from_u128(0x11111111_2222_3333_4444_555555555555);
    assert_eq!(Id::parse_str("{11111111-2222-3333-4444-555555555555}"), Some(id));
    assert_eq!(Id::parse_str("urn:uuid:11111111-2222-3333-4444-555555555555"), Some(id));
}

#[test]
fn text_is_trimmed_of_all_white_space() {
    assert_eq!(trim(" \t\r\n a b \u{2003}\u{a0}"), "a b");
    assert_eq!(trim("\u{200b}x"), "\u{200b}x");
    assert_eq!(trim("  "), "");
}

#[test]
fn case_is_folded_in_ascii_only() {
    assert_eq!(to_ascii_lowercase("AbZ-\u{c4}9"), "abz-\u{c4}9");
    assert!(eq_ignore_ascii_case("Host", "hOST"));
    assert!(!eq_ignore_ascii_case("Host", "hosts"));
    assert!(!eq_ignore_ascii_case("\u{e4}", "\u{c4}"));
}

#[test]
fn numbers_are_written_in_decimal() {
    assert_eq!(decimal(0), "0");
    assert_eq!(decimal(u64::MAX), "18446744073709551615");
    assert_eq!(decimal(10), "10");
}

#[test]
fn clock_is_past_the_year_2023() {
    assert!(now_secs() > 1_672_531_200);
    assert!(session_now() > 1_672_531_200);
    let text = now_rfc3339();
    assert_eq!(&text[4..5], "-");
    assert_eq!(&text[10..11], "T");
    assert!(text.ends_with('Z'));
}

#[test]
fn timestamps_are_for_the_years_to_9999() {
    assert_eq!(rfc3339_at(0), "1970-01-01T00:00:00Z");
    assert_eq!(rfc3339_at(-1), "1969-12-31T23:59:59.999999999Z");
    assert_eq!(rfc3339_at(1_893_553_445_120_000_000), "2030-01-02T03:04:05.12Z");
    assert_eq!(rfc3339_at(FIRST_STAMPED), "0000-01-01T00:00:00Z");
    assert_eq!(rfc3339_at(LAST_STAMPED), "9999-12-31T23:59:59.999999999Z");
    for early in [FIRST_STAMPED - 1, i128::MIN] {
        assert_eq!(rfc3339_at(early), "0000-01-01T00:00:00Z");
    }
    for late in [LAST_STAMPED + 1, i128::MAX] {
        assert_eq!(rfc3339_at(late), "9999-12-31T23:59:59.999999999Z");
    }
    let format = &time::format_description::well_known::Rfc3339;
    for nanos in [0, -1, 1_893_553_445_120_000_000, FIRST_STAMPED, LAST_STAMPED] {
        let read = time::OffsetDateTime::parse(&rfc3339_at(nanos), format).unwrap();
        assert_eq!(read.unix_timestamp_nanos(), nanos);
    }
}

#[test]
fn clock_before_the_epoch_has_a_reading() {
    assert_eq!(reading(None), 0);
    assert_eq!(reading(Some(7)), 7);
    assert_eq!(signed_reading(None), i64::MAX);
    assert_eq!(signed_reading(Some(7)), 7);
}
