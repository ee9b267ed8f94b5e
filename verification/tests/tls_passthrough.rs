//! Server names of TLS connections.
use tunnel_server::tls_passthrough::{
    extract_sni, Peek, Prefixed, Sni, SniPeek, Source, MAX_PEEK_BYTES,
};

/// A minimal client hello with the given server name: one record, one extension.
fn client_hello_with_sni(sni: &str) -> Vec<u8> {
    let sni_bytes = sni.as_bytes();
    let mut ext = Vec::new();
    ext.extend_from_slice(&(3 + sni_bytes.len() as u16).to_be_bytes());
    ext.push(0);
    ext.extend_from_slice(&(sni_bytes.len() as u16).to_be_bytes());
    ext.extend_from_slice(sni_bytes);
    client_hello(0, &ext)
}

/// A client hello with one extension.
fn client_hello(ext_type: u16, ext: &[u8]) -> Vec<u8> {
    let mut hello = Vec::new();
    hello.extend_from_slice(&0x0303u16.to_be_bytes());
    hello.extend_from_slice(&[0u8; 32]);
    hello.push(0);
    hello.extend_from_slice(&2u16.to_be_bytes());
    hello.extend_from_slice(&0x1301u16.to_be_bytes());
    hello.push(1);
    hello.push(0);
    hello.extend_from_slice(&(4 + ext.len() as u16).to_be_bytes());
    hello.extend_from_slice(&ext_type.to_be_bytes());
    hello.extend_from_slice(&(ext.len() as u16).to_be_bytes());
    hello.extend_from_slice(ext);

    let mut record = Vec::new();
    record.push(0x16);
    record.extend_from_slice(&0x0303u16.to_be_bytes());
    record.extend_from_slice(&(4 + hello.len() as u16).to_be_bytes());
    record.push(0x01);
    record.extend_from_slice(&(hello.len() as u32).to_be_bytes()[1..]);
    record.extend_from_slice(&hello);
    record
}

#[test]
fn extracts_sni_from_client_hello() {
    let hello = client_hello_with_sni("app.example.com");
    match extract_sni(&hello) {
        Sni::Found(s) => assert_eq!(s, "app.example.com"),
        other => panic!("expected Found, got {other:?}"),
    }
}

#[test]
fn partial_buffer_returns_need_more() {
    let hello = client_hello_with_sni("app.example.com");
    assert!(matches!(extract_sni(&hello[..8]), Sni::NeedMore));
}

#[test]
fn non_tls_returns_not_tls() {
    let mut buf = vec![0u8; 16];
    buf[0] = 0x17;
    assert!(matches!(extract_sni(&buf), Sni::NotTls));
}

#[test]
fn prefixed_stream_reads_prefix_then_inner() {
    let mut prefixed = Prefixed::new(vec![1u8, 2u8, 3u8]);
    match prefixed.read(16) {
        Source::Prefix(bytes) => assert_eq!(bytes, [1, 2, 3]),
        Source::Inner => panic!("the prefix comes first"),
    }
    assert!(matches!(prefixed.read(16), Source::Inner));
}

#[test]
fn small_reads_split_the_prefix() {
    let mut prefixed = Prefixed::new(vec![1u8, 2u8, 3u8]);
    let mut got = Vec::new();
    while let Source::Prefix(bytes) = prefixed.read(2) {
        got.push(bytes);
    }
    assert_eq!(got, vec![vec![1, 2], vec![3]]);
    assert!(matches!(Prefixed::new(vec![]).read(4), Source::Inner));
}

#[test]
fn every_proper_prefix_needs_more() {
    let hello = client_hello_with_sni("app.example.com");
    for n in 1..hello.len() {
        assert!(matches!(extract_sni(&hello[..n]), Sni::NeedMore), "{n} bytes");
    }
}

#[test]
fn bytes_after_the_record_change_nothing() {
    let mut hello = client_hello_with_sni("app.example.com");
    hello.extend_from_slice(&[0x17, 3, 3, 0, 1, 0]);
    assert!(matches!(extract_sni(&hello), Sni::Found(s) if s == "app.example.com"));
}

#[test]
fn hello_without_a_name_has_none() {
    assert!(matches!(extract_sni(&client_hello(10, &[0, 2, 0, 23])), Sni::Absent));
}

#[test]
fn peeking_reads_until_the_name_is_there() {
    let hello = client_hello_with_sni("app.example.com");
    let mut peek = SniPeek::new();
    assert!(matches!(peek.next(), Peek::Read));
    assert!(matches!(peek.feed(&hello[..20]), Peek::Read));
    match peek.feed(&hello[20..]) {
        Peek::Done(Some(name)) => assert_eq!(name, "app.example.com"),
        _ => panic!("the name is there"),
    }
    assert_eq!(peek.prefix, hello);
}

#[test]
fn peeking_gives_up() {
    let mut ended = SniPeek::new();
    assert!(matches!(ended.feed(&[]), Peek::Done(None)));
    let mut plain = SniPeek::new();
    assert!(matches!(plain.feed(b"GET / HTTP/1.1\r\n"), Peek::Done(None)));
    // A record that announces more than is ever looked at.
    let mut long = SniPeek::new();
    assert!(matches!(long.feed(&[0x16, 3, 3, 0xff, 0xff]), Peek::Read));
    assert!(matches!(long.feed(&vec![0u8; MAX_PEEK_BYTES]), Peek::Done(None)));
}
