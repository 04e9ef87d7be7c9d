use sha2::{Digest, Sha224};
use trojan_rust::protocol::codec::Progress;
use trojan_rust::protocol::{Address, Command, Header};
use trojan_rust::reality::vision::{
    current_unix_timestamp, parse_password_hash, VisionAuthRequest, VISION_MAGIC_HEADER,
    VISION_VERSION,
};
use trojan_rust::{TrojanError, VisionProtocol};

fn read_request(raw: &[u8]) -> Result<VisionAuthRequest, TrojanError> {
    let mut taken = 0;
    let request = loop {
        match VisionAuthRequest::read_step(&raw[..taken])? {
            Progress::Done(r, n) => {
                assert_eq!(n, taken);
                break r;
            }
            Progress::NeedMore(k) => {
                assert!(taken + k <= raw.len(), "reader would hit end of stream");
                taken += k;
            }
        }
    };
    request.check_received_now()?;
    Ok(request)
}

fn authenticate(raw: &[u8], passwords: &[String]) -> Result<(Command, Address), TrojanError> {
    let request = read_request(raw)?;
    let vision = VisionProtocol::new(std::time::Duration::from_secs(1));
    vision.authorize(&request, passwords)
}

#[test]
fn test_vision_encode_decode() {
    let addr = Address::Domain("example.com".to_string(), 443);
    let password_hash = hex::encode(Sha224::digest(b"secret"));
    let request = VisionAuthRequest::new(Command::Connect, addr.clone(), &password_hash)
        .expect("vision request should be created");

    let encoded = request.encode().expect("vision request should encode");
    assert_eq!(encoded[0], VISION_MAGIC_HEADER);
    assert_eq!(encoded[1], VISION_VERSION);
}

#[test]
fn test_vision_authenticate_valid_password() {
    let addr = Address::Domain("example.com".to_string(), 443);
    let password_hash = hex::encode(Sha224::digest(b"secret"));
    let request = VisionAuthRequest::new(Command::Connect, addr.clone(), &password_hash)
        .expect("request should build");

    let encoded = request.encode().expect("request should encode");
    let result = authenticate(&encoded, &[password_hash]).expect("authentication should succeed");

    assert_eq!(result.0, Command::Connect);
    assert_eq!(result.1, addr);
}

#[test]
fn test_vision_authenticate_wrong_password() {
    let addr = Address::Domain("example.com".to_string(), 443);
    let password_hash = hex::encode(Sha224::digest(b"secret"));
    let request = VisionAuthRequest::new(Command::Connect, addr, &password_hash)
        .expect("request should build");

    let encoded = request.encode().expect("request should encode");
    let err = authenticate(
        &encoded,
        &["aaaaaaaaaaaaaaaaaaaaaaaaaaaaaaaaaaaaaaaaaaaaaaaaaaaaaaaa".to_string()],
    )
    .expect_err("authentication should fail");

    assert!(matches!(err, TrojanError::AuthenticationFailed));
}

#[test]
fn test_vision_authenticate_tampered_integrity() {
    let addr = Address::Domain("example.com".to_string(), 443);
    let password_hash = hex::encode(Sha224::digest(b"secret"));
    let request = VisionAuthRequest::new(Command::Connect, addr, &password_hash)
        .expect("request should build");

    let mut encoded = request.encode().expect("request should encode");
    let last = encoded
        .len()
        .checked_sub(1)
        .expect("encoded payload should be non-empty");
    encoded[last] ^= 0x01;

    let err = authenticate(&encoded, &[password_hash]).expect_err("tampered request should fail");

    assert!(matches!(
        err,
        TrojanError::Protocol(message) if message.contains("integrity")
    ));
}

#[test]
fn vision_encoding_layout_at_fixed_time() {
    let hash = Header::hash_password("secret");
    let request = VisionAuthRequest::new_at(
        Command::UdpAssociate,
        Address::Domain("ab".to_string(), 80),
        &hash,
        0x0102030405060708,
    )
    .unwrap();
    let encoded = request.encode().unwrap();
    let mut body = vec![0xFE, 0x01, 0x03, 0x03, 2, b'a', b'b', 0, 80, 1, 2, 3, 4, 5, 6, 7, 8];
    body.extend_from_slice(hash.as_bytes());
    let digest = Sha224::digest(&body);
    assert_eq!(&encoded[..body.len()], &body[..]);
    assert_eq!(&encoded[body.len()..], &digest[..]);
    assert_eq!(request.integrity_hash[..], digest[..]);
}

#[test]
fn vision_clock_window() {
    let hash = Header::hash_password("secret");
    let request =
        VisionAuthRequest::new_at(Command::Connect, Address::Domain("a".to_string(), 1), &hash, 1000)
            .unwrap();
    assert!(request.check_received(1300).is_ok());
    assert!(request.check_received(700).is_ok());
    assert!(matches!(
        request.check_received(1301),
        Err(TrojanError::Protocol(m)) if m == "Timestamp expired"
    ));
    assert!(request.check_received(699).is_err());
    // A timestamp far in the future, read as a negative signed value, is refused.
    let far = VisionAuthRequest::new_at(
        Command::Connect,
        Address::Domain("a".to_string(), 1),
        &hash,
        u64::MAX,
    )
    .unwrap();
    assert!(far.check_received(current_unix_timestamp().unwrap()).is_err());
}

#[test]
fn vision_read_errors() {
    assert!(matches!(
        VisionAuthRequest::read_step(&[0xAB]),
        Err(TrojanError::Protocol(m)) if m == "Invalid Vision magic header: ab"
    ));
    assert!(matches!(
        VisionAuthRequest::read_step(&[0x0A]),
        Err(TrojanError::Protocol(m)) if m == "Invalid Vision magic header: a"
    ));
    assert!(matches!(
        VisionAuthRequest::read_step(&[0xFE, 0x02]),
        Err(TrojanError::Protocol(m)) if m == "Unsupported Vision version: 2"
    ));
    assert!(matches!(
        VisionAuthRequest::read_step(&[0xFE, 0x01, 0x07]),
        Err(TrojanError::InvalidCommand(7))
    ));
    let mut raw = vec![0xFE, 0x01, 0x01, 0x01, 1, 2, 3, 4, 0, 80];
    raw.extend_from_slice(&[0u8; 8]);
    raw.extend_from_slice(&[b'q'; 56]);
    assert!(matches!(
        VisionAuthRequest::read_step(&raw),
        Err(TrojanError::Protocol(m)) if m == "Invalid Vision password hash format"
    ));
}

#[test]
fn vision_password_hash_rules() {
    assert!(parse_password_hash(&"A".repeat(56)).is_ok());
    assert!(matches!(
        parse_password_hash("abc"),
        Err(TrojanError::Protocol(m)) if m == "Vision password hash must be 56 hex characters"
    ));
    assert!(parse_password_hash(&"z".repeat(56)).is_err());
    assert!(VisionAuthRequest::new(Command::Connect, Address::Domain("a".to_string(), 1), "nope").is_err());
}

#[test]
fn vision_packet_detection() {
    assert!(VisionProtocol::is_vision_packet(&[0xFE, 0x01, 0x00]));
    assert!(!VisionProtocol::is_vision_packet(&[0xFE]));
    assert!(!VisionProtocol::is_vision_packet(&[0x16, 0x03]));
}

#[test]
fn vision_timeout_is_kept() {
    let vision = VisionProtocol::new(std::time::Duration::from_millis(250));
    assert_eq!(vision.timeout(), std::time::Duration::from_millis(250));
}

#[test]
fn vision_stream_read_leaves_following_data() {
    let hash = Header::hash_password("secret");
    let request = VisionAuthRequest::new_at(
        Command::Connect,
        Address::Domain("example.org".to_string(), 8443),
        &hash,
        1_700_000_000,
    )
    .unwrap();
    let encoded = request.encode().unwrap();
    let mut raw = encoded.to_vec();
    raw.extend_from_slice(b"first payload bytes");
    let mut taken = 0;
    loop {
        match VisionAuthRequest::read_step(&raw[..taken]).unwrap() {
            Progress::Done(r, n) => {
                assert_eq!(n, encoded.len());
                assert_eq!(r.timestamp, 1_700_000_000);
                assert!(r.check_received(1_700_000_100).is_ok());
                break;
            }
            Progress::NeedMore(k) => {
                assert!(k > 0);
                assert!(taken + k <= encoded.len(), "reader asked for bytes past the request");
                taken += k;
            }
        }
    }
    assert_eq!(&raw[taken..], b"first payload bytes");
}

#[test]
fn vision_tampered_request_refused_at_any_time() {
    let hash = Header::hash_password("secret");
    let mut request = VisionAuthRequest::new_at(
        Command::Connect,
        Address::Domain("example.org".to_string(), 8443),
        &hash,
        1_700_000_000,
    )
    .unwrap();
    request.integrity_hash[0] ^= 0x80;
    for now in [1_700_000_000u64, 1_700_000_299, 1_699_999_701] {
        assert!(matches!(
            request.check_received(now),
            Err(TrojanError::Protocol(m)) if m == "Vision integrity check failed"
        ));
    }
}

#[test]
fn vision_clock_window_is_the_exact_difference() {
    let hash = Header::hash_password("secret");
    let stamp: u64 = (1u64 << 63) + 10;
    let request = VisionAuthRequest::new_at(
        Command::Connect,
        Address::Domain("example.org".to_string(), 443),
        &hash,
        stamp,
    )
    .unwrap();
    assert!(request.check_received(stamp - 20).is_ok());
    assert!(request.check_received(stamp + 300).is_ok());
    assert!(matches!(
        request.check_received(stamp - 301),
        Err(TrojanError::Protocol(m)) if m == "Timestamp expired"
    ));
    assert!(matches!(
        request.check_received(0),
        Err(TrojanError::Protocol(m)) if m == "Timestamp expired"
    ));
}
