use trojan_rust::protocol::codec::Progress;
use trojan_rust::protocol::{Address, SocketAddress};
use trojan_rust::proxy::udp::{
    build_udp_frame, read_udp_frame, udp_associate_step, UdpAction, UdpEvent, UdpFrame,
};
use trojan_rust::TrojanError;

const CRLF: [u8; 2] = [0x0d, 0x0a];

/// Feeds bytes only as the decoder asks for them; `None` when the stream ends
/// before the first byte, as a reader at end of stream reports it.
fn read_frame(raw: &[u8]) -> Result<Option<UdpFrame>, TrojanError> {
    let mut taken = 0;
    loop {
        match read_udp_frame(&raw[..taken])? {
            Progress::Done(frame, n) => {
                assert_eq!(n, taken);
                return Ok(Some(frame));
            }
            Progress::NeedMore(k) => {
                if taken + k > raw.len() {
                    if taken == 0 {
                        return Ok(None);
                    }
                    panic!("stream ended inside a frame");
                }
                taken += k;
            }
        }
    }
}

#[test]
fn test_read_udp_frame_ipv4() {
    let mut raw = Vec::new();
    raw.push(Address::TYPE_IPV4);
    raw.extend_from_slice(&[8, 8, 8, 8]);
    raw.extend_from_slice(&53u16.to_be_bytes());
    raw.extend_from_slice(&4u16.to_be_bytes());
    raw.extend_from_slice(&CRLF);
    raw.extend_from_slice(b"ping");

    let frame = read_frame(&raw)
        .expect("frame parse should succeed")
        .expect("frame should not be eof");

    assert_eq!(frame.address, Address::IPv4(SocketAddress::V4([8, 8, 8, 8], 53)));
    assert_eq!(frame.payload, b"ping");
}

#[test]
fn test_read_udp_frame_eof() {
    let frame = read_frame(&[]).expect("eof without data should not error");
    assert!(frame.is_none());
}

#[test]
fn test_read_udp_frame_invalid_crlf() {
    let mut raw = Vec::new();
    raw.push(Address::TYPE_IPV4);
    raw.extend_from_slice(&[1, 1, 1, 1]);
    raw.extend_from_slice(&53u16.to_be_bytes());
    raw.extend_from_slice(&1u16.to_be_bytes());
    raw.extend_from_slice(&[0x00, 0x00]);

    let err = read_frame(&raw).expect_err("invalid CRLF should fail");

    assert!(matches!(
        err,
        TrojanError::Protocol(message) if message.contains("Invalid UDP CRLF")
    ));
}

#[test]
fn test_build_udp_frame_ipv6() {
    let mut localhost = [0u8; 16];
    localhost[15] = 1;
    let source = SocketAddress::V6(localhost, 5353);
    let frame = build_udp_frame(&source, b"pong").expect("frame build should succeed");

    assert_eq!(frame[0], Address::TYPE_IPV6);

    let len_offset = 1 + 16 + 2;
    assert_eq!(&frame[len_offset..len_offset + 2], &4u16.to_be_bytes());
    assert_eq!(&frame[len_offset + 2..len_offset + 4], &CRLF);
    assert_eq!(&frame[len_offset + 4..], b"pong");
}

#[test]
fn udp_frame_roundtrip() {
    let source = SocketAddress::V4([192, 168, 0, 7], 4000);
    let mut bytes = build_udp_frame(&source, b"hello").unwrap();
    assert_eq!(bytes, vec![1, 192, 168, 0, 7, 0x0f, 0xa0, 0, 5, 0x0d, 0x0a, b'h', b'e', b'l', b'l', b'o']);
    let len = bytes.len();
    bytes.extend_from_slice(&[0xde, 0xad]);
    match read_udp_frame(&bytes).unwrap() {
        Progress::Done(frame, n) => {
            assert_eq!(n, len);
            assert_eq!(frame.address, Address::IPv4(source));
            assert_eq!(frame.payload, b"hello");
        }
        Progress::NeedMore(_) => panic!("frame is complete"),
    }
}

#[test]
fn udp_frame_domain_rules() {
    // An empty domain is refused in UDP frames.
    assert!(matches!(
        read_udp_frame(&[0x03, 0]),
        Err(TrojanError::Protocol(m)) if m == "Invalid domain length in UDP frame"
    ));
    let mut raw = vec![0x03, 3];
    raw.extend_from_slice(b"dns");
    raw.extend_from_slice(&53u16.to_be_bytes());
    raw.extend_from_slice(&0u16.to_be_bytes());
    raw.extend_from_slice(&CRLF);
    let frame = read_frame(&raw).unwrap().unwrap();
    assert_eq!(frame.address, Address::Domain("dns".to_string(), 53));
    assert!(frame.payload.is_empty());
    assert!(matches!(read_udp_frame(&[0x09]), Err(TrojanError::InvalidAddressType(9))));
}

#[test]
fn udp_payload_limit() {
    let source = SocketAddress::V4([1, 2, 3, 4], 5);
    assert!(build_udp_frame(&source, &vec![0u8; 65_535]).is_ok());
    assert!(matches!(
        build_udp_frame(&source, &vec![0u8; 65_536]),
        Err(TrojanError::Protocol(m)) if m == "UDP payload exceeds protocol limit"
    ));
}

#[test]
fn udp_frames_read_one_at_a_time_from_a_stream() {
    let mut raw = vec![Address::TYPE_DOMAIN, 3];
    raw.extend_from_slice(b"dns");
    raw.extend_from_slice(&53u16.to_be_bytes());
    raw.extend_from_slice(&[0, 2, 0x0d, 0x0a, 0xab, 0xcd]);
    let first_len = raw.len();
    raw.extend_from_slice(&build_udp_frame(&SocketAddress::V4([1, 1, 1, 1], 53), b"xyz").unwrap());
    let mut taken = 0;
    loop {
        match read_udp_frame(&raw[..taken]).unwrap() {
            Progress::Done(frame, n) => {
                assert_eq!(n, first_len);
                assert_eq!(frame.address, Address::Domain("dns".to_string(), 53));
                assert_eq!(frame.payload, vec![0xab, 0xcd]);
                break;
            }
            Progress::NeedMore(k) => {
                assert!(k > 0);
                assert!(taken + k <= first_len, "reader asked for bytes of the next frame");
                taken += k;
            }
        }
    }
    let second = read_frame(&raw[taken..]).unwrap().unwrap();
    assert_eq!(second.address, Address::IPv4(SocketAddress::V4([1, 1, 1, 1], 53)));
    assert_eq!(second.payload, b"xyz");
}

#[test]
fn udp_associate_decisions() {
    let frame = UdpFrame {
        address: Address::Domain("dns.example".to_string(), 53),
        payload: vec![1, 2, 3],
    };
    match udp_associate_step(UdpEvent::ClientFrame(frame)).unwrap() {
        UdpAction::Send(a, p) => {
            assert_eq!(a, Address::Domain("dns.example".to_string(), 53));
            assert_eq!(p, vec![1, 2, 3]);
        }
        other => panic!("expected a send, got {:?}", other),
    }
    let source = SocketAddress::V4([9, 9, 9, 9], 53);
    match udp_associate_step(UdpEvent::Datagram(source, b"ok".to_vec())).unwrap() {
        UdpAction::Reply(f, n) => {
            assert_eq!(f, build_udp_frame(&source, b"ok").unwrap());
            assert_eq!(n, 2);
        }
        other => panic!("expected a reply, got {:?}", other),
    }
    assert!(matches!(
        udp_associate_step(UdpEvent::Datagram(source, vec![0; 65_536])),
        Err(TrojanError::Protocol(m)) if m == "UDP payload exceeds protocol limit"
    ));
    assert!(matches!(udp_associate_step(UdpEvent::ClientClosed), Ok(UdpAction::Finish)));
    assert!(matches!(udp_associate_step(UdpEvent::IdleTimeout), Ok(UdpAction::Finish)));
    assert!(matches!(
        udp_associate_step(UdpEvent::ClientFailed(TrojanError::InvalidUtf8)),
        Err(TrojanError::InvalidUtf8)
    ));
    let io = std::io::Error::new(std::io::ErrorKind::Other, "recv failed");
    assert!(matches!(udp_associate_step(UdpEvent::RemoteFailed(io)), Err(TrojanError::Io(_))));
}
