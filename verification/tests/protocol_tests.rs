use trojan_rust::protocol::codec::Progress;
use trojan_rust::protocol::{Address, Command, Header, SocketAddress};
use trojan_rust::TrojanError;

const SECRET_HASH: &str = "95c7fbca92ac5083afda62a564a3d014fc3b72c9140e3cb99ea6bf12";

fn domain_header_bytes(hash: &str) -> Vec<u8> {
    let mut raw = Vec::new();
    raw.extend_from_slice(hash.as_bytes());
    raw.extend_from_slice(&Header::CRLF);
    raw.push(Command::Connect.as_u8());
    raw.push(Address::TYPE_DOMAIN);
    raw.push(11);
    raw.extend_from_slice(b"example.com");
    raw.extend_from_slice(&443u16.to_be_bytes());
    raw.extend_from_slice(&Header::CRLF);
    raw
}

fn read_header(raw: &[u8]) -> Result<Header, TrojanError> {
    // Feed the bytes the way a stream reader would: only as many as asked for.
    let mut taken = 0;
    loop {
        match Header::read_step(&raw[..taken])? {
            Progress::Done(h, n) => {
                assert_eq!(n, taken);
                return Ok(h);
            }
            Progress::NeedMore(k) => {
                assert!(taken + k <= raw.len(), "reader would hit end of stream");
                taken += k;
            }
        }
    }
}

#[test]
fn test_command_from_u8() {
    assert_eq!(Command::from_u8(0x01).unwrap(), Command::Connect);
    assert_eq!(Command::from_u8(0x03).unwrap(), Command::UdpAssociate);
    assert!(Command::from_u8(0x02).is_err());
}

#[test]
fn test_command_as_u8() {
    assert_eq!(Command::Connect.as_u8(), 0x01);
    assert_eq!(Command::UdpAssociate.as_u8(), 0x03);
}

#[test]
fn command_roundtrip_and_invalid_byte() {
    for c in [Command::Connect, Command::UdpAssociate] {
        assert_eq!(Command::from_u8(c.as_u8()).unwrap(), c);
    }
    assert!(matches!(Command::from_u8(0x7f), Err(TrojanError::InvalidCommand(0x7f))));
}

#[test]
fn test_address_ipv4() {
    let addr = Address::IPv4(SocketAddress::V4([127, 0, 0, 1], 8080));
    assert_eq!(addr.port(), 8080);
    assert_eq!(addr.host(), "127.0.0.1");
}

#[test]
fn test_address_domain() {
    let addr = Address::Domain("example.com".to_string(), 443);
    assert_eq!(addr.port(), 443);
    assert_eq!(addr.host(), "example.com");
}

#[test]
fn address_text_forms() {
    assert_eq!(Address::IPv4(SocketAddress::V4([10, 0, 0, 255], 53)).to_string(), "10.0.0.255:53");
    assert_eq!(Address::Domain("example.com".to_string(), 443).to_string(), "example.com:443");
    let mut loopback = [0u8; 16];
    loopback[15] = 1;
    assert_eq!(Address::IPv6(SocketAddress::V6(loopback, 5353)).to_string(), "[::1]:5353");
    assert_eq!(SocketAddress::V6(loopback, 5353).host(), "::1");
}

#[test]
fn ipv6_text_forms() {
    let cases: [([u8; 16], &str); 6] = [
        ([0; 16], "::"),
        ([0x20, 0x01, 0x0d, 0xb8, 0, 0, 0, 0, 0, 0, 0, 0, 0, 0, 0, 1], "2001:db8::1"),
        ([0x20, 0x01, 0x0d, 0xb8, 0, 1, 0, 0, 0, 1, 0, 0, 0, 0, 0, 1], "2001:db8:1:0:1::1"),
        ([0, 0, 0, 0, 0, 0, 0, 0, 0, 0, 0xff, 0xff, 192, 168, 1, 1], "::ffff:192.168.1.1"),
        (
            [0xfe, 0x80, 0, 0, 0, 0, 0, 0, 0x12, 0x34, 0x56, 0x78, 0x9a, 0xbc, 0xde, 0xf0],
            "fe80::1234:5678:9abc:def0",
        ),
        ([0, 1, 0, 0, 0, 0, 0, 1, 0, 0, 0, 0, 0, 1, 0, 1], "1::1:0:0:1:1"),
    ];
    for (octets, expected) in cases {
        assert_eq!(SocketAddress::V6(octets, 1).host(), expected);
    }
}

#[test]
fn address_encode_parse_roundtrip() {
    let addrs = vec![
        Address::IPv4(SocketAddress::V4([8, 8, 4, 4], 53)),
        Address::IPv6(SocketAddress::V6([1; 16], 443)),
        Address::Domain("example.com".to_string(), 8443),
    ];
    for a in addrs {
        let mut bytes = a.encode().expect("encodable");
        let len = bytes.len();
        bytes.extend_from_slice(b"trailing");
        let (parsed, used) = Address::parse_from_buf(&bytes).expect("parses");
        assert_eq!(parsed, a);
        assert_eq!(used, Some(len));
    }
}

#[test]
fn address_encode_exact_bytes() {
    let a = Address::Domain("ab".to_string(), 0x0102);
    assert_eq!(a.encode().unwrap(), vec![0x03, 2, b'a', b'b', 0x01, 0x02]);
    let v4 = Address::IPv4(SocketAddress::V4([1, 2, 3, 4], 80));
    assert_eq!(v4.encode().unwrap(), vec![0x01, 1, 2, 3, 4, 0, 80]);
}

#[test]
fn address_encode_errors() {
    assert!(matches!(
        Address::IPv4(SocketAddress::V6([0; 16], 1)).encode(),
        Err(TrojanError::Protocol(m)) if m == "Address::IPv4 variant contains non-IPv4 socket address"
    ));
    assert!(matches!(
        Address::IPv6(SocketAddress::V4([0; 4], 1)).encode(),
        Err(TrojanError::Protocol(m)) if m == "Address::IPv6 variant contains non-IPv6 socket address"
    ));
    assert!(matches!(
        Address::Domain(String::new(), 1).encode(),
        Err(TrojanError::Protocol(m)) if m == "Domain length must be between 1 and 255 bytes"
    ));
    assert!(Address::Domain("x".repeat(256), 1).encode().is_err());
    assert!(Address::Domain("x".repeat(255), 1).encode().is_ok());
}

#[test]
fn address_parse_incomplete_and_invalid() {
    let (placeholder, used) = Address::parse_from_buf(&[]).unwrap();
    assert_eq!(used, None);
    assert_eq!(placeholder, Address::Domain(String::new(), 0));
    assert_eq!(Address::parse_from_buf(&[0x01, 1, 2, 3]).unwrap().1, None);
    assert_eq!(Address::parse_from_buf(&[0x03, 5, b'a']).unwrap().1, None);
    assert!(matches!(Address::parse_from_buf(&[0x05]), Err(TrojanError::InvalidAddressType(5))));
    assert!(matches!(
        Address::parse_from_buf(&[0x03, 1, 0xff, 0, 1]),
        Err(TrojanError::InvalidUtf8)
    ));
}

#[test]
fn address_read_step_asks_field_by_field() {
    assert!(matches!(Address::read_step(&[]), Ok(Progress::NeedMore(1))));
    assert!(matches!(Address::read_step(&[0x03]), Ok(Progress::NeedMore(1))));
    assert!(matches!(Address::read_step(&[0x03, 3]), Ok(Progress::NeedMore(3))));
    // Bad UTF-8 is reported before the port is read.
    assert!(matches!(Address::read_step(&[0x03, 1, 0xff]), Err(TrojanError::InvalidUtf8)));
    assert!(matches!(Address::read_step(&[0x03, 1, b'a']), Ok(Progress::NeedMore(2))));
    assert!(matches!(Address::read_step(&[0x04, 0]), Ok(Progress::NeedMore(17))));
}

#[test]
fn test_password_hash() {
    let password = "test_password";
    let hash = Header::hash_password(password);
    assert_eq!(hash.len(), Header::PASSWORD_HEX_LEN);
}

#[test]
fn password_hash_known_value() {
    assert_eq!(Header::hash_password("secret"), SECRET_HASH);
    assert_eq!(
        Header::hash_password(""),
        "d14a028c2a3a2bc9476102bb288234c415a2b01f828ea62ac5b3e42f"
    );
}

#[test]
fn test_parse_valid_header() {
    let password_hash = Header::hash_password("secret");
    let raw = domain_header_bytes(&password_hash);

    let header = read_header(&raw).expect("header should parse");

    assert_eq!(header.command, Command::Connect);
    assert_eq!(header.address, Address::Domain("example.com".to_string(), 443));
    assert!(header.verify_password(&[password_hash]));
}

#[test]
fn test_invalid_password_hash_format() {
    let raw = vec![b'z'; Header::PASSWORD_HEX_LEN];

    let err = read_header(&raw).expect_err("invalid hash should fail");

    assert!(matches!(
        err,
        TrojanError::Protocol(message)
        if message.contains("Invalid password hash format")
    ));
}

#[test]
fn read_step_reports_bad_crlf() {
    let mut raw = domain_header_bytes(SECRET_HASH);
    raw[56] = b'x';
    assert!(matches!(
        Header::read_step(&raw),
        Err(TrojanError::Protocol(m)) if m == "Invalid CRLF after password hash"
    ));
    let mut raw = domain_header_bytes(SECRET_HASH);
    let last = raw.len() - 1;
    raw[last] = b'x';
    assert!(matches!(
        Header::read_step(&raw),
        Err(TrojanError::Protocol(m)) if m == "Invalid CRLF after target address"
    ));
}

#[test]
fn test_try_parse_from_buf_valid() {
    let password_hash = Header::hash_password("secret");
    let mut raw = domain_header_bytes(&password_hash);
    raw.extend_from_slice(b"GET / HTTP/1.1\r\n");

    let header = Header::try_parse_from_buf(&raw)
        .expect("should not error")
        .expect("should parse successfully");

    assert_eq!(header.command, Command::Connect);
    assert!(header.verify_password(&[password_hash]));
}

#[test]
fn test_try_parse_from_buf_bad_hash() {
    let mut raw = vec![b'z'; Header::PASSWORD_HEX_LEN];
    raw.extend_from_slice(&Header::CRLF);
    raw.push(Command::Connect.as_u8());

    let result = Header::try_parse_from_buf(&raw);
    assert!(result.is_err(), "bad hex should return Err");
}

#[test]
fn test_try_parse_from_buf_too_short() {
    let raw = vec![b'a'; 10];
    let result = Header::try_parse_from_buf(&raw).expect("should not error on short buf");
    assert!(result.is_none(), "short buf should return None");
}

#[test]
fn try_parse_needs_the_whole_header() {
    let raw = domain_header_bytes(SECRET_HASH);
    for cut in 0..raw.len() {
        assert!(Header::try_parse_from_buf(&raw[..cut]).unwrap().is_none(), "cut at {}", cut);
    }
    assert!(Header::try_parse_from_buf(&raw).unwrap().is_some());
}

#[test]
fn try_parse_error_messages() {
    let mut raw = domain_header_bytes(SECRET_HASH);
    raw[57] = 0;
    assert!(matches!(
        Header::try_parse_from_buf(&raw),
        Err(TrojanError::Protocol(m)) if m == "Missing CRLF after password hash"
    ));
    let mut raw = domain_header_bytes(SECRET_HASH);
    raw[58] = 9;
    assert!(matches!(Header::try_parse_from_buf(&raw), Err(TrojanError::InvalidCommand(9))));
    let mut raw = domain_header_bytes(SECRET_HASH);
    let last = raw.len() - 2;
    raw[last] = 0;
    assert!(matches!(
        Header::try_parse_from_buf(&raw),
        Err(TrojanError::Protocol(m)) if m == "Missing CRLF after target address"
    ));
}

#[test]
fn verify_password_ignores_case_and_needs_full_length() {
    let raw = domain_header_bytes(SECRET_HASH);
    let header = Header::try_parse_from_buf(&raw).unwrap().unwrap();
    assert!(header.verify_password(&[SECRET_HASH.to_uppercase()]));
    assert!(!header.verify_password(&[SECRET_HASH[..55].to_string()]));
    assert!(!header.verify_password(&[]));
    assert!(header.verify_password(&["0".repeat(56), SECRET_HASH.to_string()]));
}

#[test]
fn header_stream_read_leaves_following_data() {
    let header = domain_header_bytes(SECRET_HASH);
    let mut raw = header.clone();
    raw.extend_from_slice(b"GET / HTTP/1.1\r\n\r\n");
    let mut taken = 0;
    loop {
        match Header::read_step(&raw[..taken]).unwrap() {
            Progress::Done(h, n) => {
                assert_eq!(n, header.len());
                assert_eq!(h.address, Address::Domain("example.com".to_string(), 443));
                break;
            }
            Progress::NeedMore(k) => {
                assert!(k > 0);
                assert!(taken + k <= header.len(), "reader asked for bytes past the header");
                taken += k;
            }
        }
    }
    assert_eq!(&raw[taken..], b"GET / HTTP/1.1\r\n\r\n");
}

fn stream_read_address(b: &[u8]) -> Result<Option<(Address, usize)>, TrojanError> {
    let mut taken = 0;
    loop {
        match Address::read_step(&b[..taken])? {
            Progress::Done(a, n) => return Ok(Some((a, n))),
            Progress::NeedMore(k) => {
                if taken + k > b.len() {
                    return Ok(None);
                }
                taken += k;
            }
        }
    }
}

#[test]
fn address_stream_reader_agrees_with_parser() {
    let mut domain = vec![Address::TYPE_DOMAIN, 4];
    domain.extend_from_slice(b"host");
    domain.extend_from_slice(&[0x1f, 0x90, 0xaa, 0xbb]);
    let cases: Vec<Vec<u8>> = vec![
        vec![Address::TYPE_IPV4, 10, 0, 0, 1, 0, 80, 0xff],
        domain,
        vec![0x07, 1, 2, 3],
        vec![Address::TYPE_DOMAIN, 2, 0xff, 0xfe, 0, 1],
    ];
    for b in cases {
        match (Address::parse_from_buf(&b), stream_read_address(&b)) {
            (Ok((a, Some(n))), Ok(Some((r, m)))) => {
                assert_eq!(a, r);
                assert_eq!(n, m);
            }
            (Err(TrojanError::InvalidAddressType(t)), Err(TrojanError::InvalidAddressType(u))) => {
                assert_eq!(t, u)
            }
            (Err(TrojanError::InvalidUtf8), Err(TrojanError::InvalidUtf8)) => {}
            (p, s) => panic!("parser gave {:?}, reader gave {:?}", p, s),
        }
    }
}
