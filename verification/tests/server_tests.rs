use trojan_rust::protocol::{Address, Command, Header, PEEK_SIZE};
use trojan_rust::server::{compute_header_end, next_peek_action, peek_action_at_eof, PeekAction};

const SECRET_HASH: &str = "95c7fbca92ac5083afda62a564a3d014fc3b72c9140e3cb99ea6bf12";

fn header_bytes() -> Vec<u8> {
    let mut raw = Vec::new();
    raw.extend_from_slice(SECRET_HASH.as_bytes());
    raw.extend_from_slice(&Header::CRLF);
    raw.push(Command::Connect.as_u8());
    raw.push(Address::TYPE_DOMAIN);
    raw.push(11);
    raw.extend_from_slice(b"example.com");
    raw.extend_from_slice(&443u16.to_be_bytes());
    raw.extend_from_slice(&Header::CRLF);
    raw
}

#[test]
fn authenticated_header_is_proxied_with_payload_offset() {
    let mut raw = header_bytes();
    let end = raw.len();
    raw.extend_from_slice(b"GET / HTTP/1.1\r\n");
    match next_peek_action(&raw, &[SECRET_HASH.to_string()]) {
        PeekAction::Proxy(h, header_end) => {
            assert_eq!(header_end, end);
            assert_eq!(h.address, Address::Domain("example.com".to_string(), 443));
            assert_eq!(compute_header_end(&h, &raw), end);
        }
        other => panic!("expected proxy, got {:?}", other),
    }
}

#[test]
fn wrong_password_falls_back() {
    let raw = header_bytes();
    assert!(matches!(
        next_peek_action(&raw, &["0".repeat(56)]),
        PeekAction::Fallback
    ));
}

#[test]
fn http_probe_falls_back() {
    let probe = b"GET / HTTP/1.1\r\nHost: example.com\r\n\r\nxxxxxxxxxxxxxxxxxxxxxxxxxxxxxx".to_vec();
    assert!(matches!(next_peek_action(&probe, &[SECRET_HASH.to_string()]), PeekAction::Fallback));
}

#[test]
fn partial_header_reads_up_to_peek_limit() {
    let raw = header_bytes();
    assert!(matches!(next_peek_action(&[], &[]), PeekAction::ReadMore(n) if n == PEEK_SIZE));
    assert!(matches!(
        next_peek_action(&raw[..20], &[SECRET_HASH.to_string()]),
        PeekAction::ReadMore(n) if n == PEEK_SIZE - 20
    ));
}

#[test]
fn long_domain_without_final_crlf_falls_back() {
    let mut raw = vec![b'a'; PEEK_SIZE];
    raw[..56].copy_from_slice(SECRET_HASH.as_bytes());
    raw[56] = 0x0d;
    raw[57] = 0x0a;
    raw[58] = 1;
    raw[59] = Address::TYPE_DOMAIN;
    raw[60] = 255;
    // The address ends at 59 + 255 + 4 = 318; until then more bytes are read.
    assert!(matches!(next_peek_action(&raw[..300], &[]), PeekAction::ReadMore(n) if n == PEEK_SIZE - 300));
    // Then 'a' stands where the final CRLF belongs: not a header.
    assert!(matches!(next_peek_action(&raw, &[]), PeekAction::Fallback));
}

#[test]
fn eof_while_peeking() {
    assert!(matches!(peek_action_at_eof(&[]), PeekAction::Drop));
    assert!(matches!(peek_action_at_eof(b"x"), PeekAction::Fallback));
}

#[test]
fn header_end_defensive_cases() {
    let raw = header_bytes();
    let h = Header::try_parse_from_buf(&raw).unwrap().unwrap();
    assert_eq!(compute_header_end(&h, &raw[..40]), 40);
    let mut bad = raw.clone();
    bad[59] = 0x09;
    assert_eq!(compute_header_end(&h, &bad), bad.len());
}

#[test]
fn header_arriving_in_pieces_is_never_sent_to_fallback() {
    let raw = header_bytes();
    for cut in 0..raw.len() {
        match next_peek_action(&raw[..cut], &[SECRET_HASH.to_string()]) {
            PeekAction::ReadMore(n) => assert_eq!(n, PEEK_SIZE - cut),
            other => panic!("prefix of {} bytes gave {:?}", cut, other),
        }
    }
    assert!(matches!(
        next_peek_action(&raw, &[SECRET_HASH.to_string()]),
        PeekAction::Proxy(_, end) if end == raw.len()
    ));
}
