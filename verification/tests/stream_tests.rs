use trojan_rust::protocol::{Address, Command};
use trojan_rust::proxy::PrefixedStream;
use trojan_rust::reality::splice::{splice_step, ReadOutcome, SpliceStep};
use trojan_rust::reality::state_machine::check_direct_command;
use trojan_rust::reality::{ConnectionState, UnwrapStream};
use trojan_rust::{ConnectionStateMachine, DirectSplice, TrojanError};

/// Reads a prefixed stream whose inner stream is a byte slice to the end.
fn read_all(stream: &mut PrefixedStream<&[u8]>, chunk: usize) -> Vec<u8> {
    let mut out = Vec::new();
    while stream.prefix_remaining() > 0 {
        out.extend_from_slice(&stream.read_prefix(chunk));
    }
    let inner: &mut &[u8] = stream.inner_mut();
    out.extend_from_slice(inner);
    *inner = &[];
    out
}

#[test]
fn test_prefixed_stream_reads_prefix_then_inner() {
    let prefix = b"PREFIX".to_vec();
    let inner_data = b"INNER".as_ref();

    let mut stream = PrefixedStream::new(prefix, inner_data);
    let out = read_all(&mut stream, 4);

    assert_eq!(out, b"PREFIXINNER");
}

#[test]
fn test_prefixed_stream_empty_prefix() {
    let inner_data = b"INNER".as_ref();
    let mut stream = PrefixedStream::new(vec![], inner_data);
    let out = read_all(&mut stream, 4);
    assert_eq!(out, b"INNER");
}

#[test]
fn prefixed_stream_reads_in_chunks() {
    let mut stream = PrefixedStream::new(b"abcdef".to_vec(), &b""[..]);
    assert_eq!(stream.read_prefix(4), b"abcd");
    assert_eq!(stream.prefix_remaining(), 2);
    assert_eq!(stream.read_prefix(4), b"ef");
    assert!(stream.read_prefix(4).is_empty());
}

#[test]
fn state_machine_successful_authentication() {
    let mut m = ConnectionStateMachine::new(7u32);
    assert_eq!(m.state(), ConnectionState::Handshake);
    let s = m.begin_authentication().unwrap();
    let target = Address::Domain("example.com".to_string(), 443);
    m.finish_authentication(s, Ok((Command::Connect, target.clone()))).unwrap();
    assert_eq!(m.state(), ConnectionState::Authenticated);
    assert_eq!(m.get_auth_result(), Some((Command::Connect, target)));
    assert!(matches!(m.begin_authentication(), Err(TrojanError::Protocol(msg)) if msg == "Invalid state transition"));
    assert_eq!(m.begin_forwarding().unwrap(), 7);
}

#[test]
fn state_machine_failed_authentication() {
    let mut m = ConnectionStateMachine::new(1u8);
    let s = m.begin_authentication().unwrap();
    assert!(m.finish_authentication(s, Err(TrojanError::AuthenticationFailed)).is_err());
    assert_eq!(m.state(), ConnectionState::Closed);
    assert!(matches!(
        m.begin_forwarding(),
        Err(TrojanError::Protocol(msg)) if msg == "Cannot forward without authentication"
    ));

    let mut m = ConnectionStateMachine::new(1u8);
    m.set_fallback(Address::Domain("localhost".to_string(), 80));
    let s = m.begin_authentication().unwrap();
    assert!(m.finish_authentication(s, Err(TrojanError::Timeout)).is_err());
    assert_eq!(m.state(), ConnectionState::Fallback);
    assert_eq!(m.into_stream(), Some(1));
}

#[test]
fn direct_mode_refuses_udp() {
    assert!(check_direct_command(Command::Connect).is_ok());
    assert!(matches!(
        check_direct_command(Command::UdpAssociate),
        Err(TrojanError::Protocol(m)) if m == "UDP not supported in direct mode"
    ));
}

#[test]
fn splice_accounting_and_steps() {
    let mut splice = DirectSplice::new(vec![1u8], vec![2u8]);
    assert_eq!(splice.bytes_transferred(), 0);
    {
        let (a, b) = splice.streams();
        a.push(3);
        b.clear();
    }
    splice.record_read(true, ReadOutcome::Bytes(10), &[7u8; 10]);
    splice.record_read(false, ReadOutcome::WouldBlock, &[]);
    splice.record_read(false, ReadOutcome::Bytes(5), &[8u8; 5]);
    assert_eq!(splice.bytes_transferred(), 15);
    splice.record_read(true, ReadOutcome::Bytes(0), &[]);
    splice.record_read(true, ReadOutcome::Failed, &[]);
    assert_eq!(splice.bytes_transferred(), 15);
    // A later splice call goes on counting from there.
    splice.record_read(false, ReadOutcome::Bytes(3), &[1, 2, 3]);
    assert_eq!(splice.bytes_transferred(), 18);
    assert_eq!(splice_step(ReadOutcome::Bytes(0)), SpliceStep::Stop);
    assert_eq!(splice_step(ReadOutcome::Bytes(9)), SpliceStep::Forward(9));
    assert_eq!(splice_step(ReadOutcome::WouldBlock), SpliceStep::Retry);
    assert_eq!(splice_step(ReadOutcome::Failed), SpliceStep::Stop);
}

#[test]
fn unwrap_stream_flag() {
    let mut s = UnwrapStream::new(5u16);
    assert!(!s.is_decrypted());
    *s.get_mut() += 1;
    s.mark_decrypted();
    assert!(s.is_decrypted());
    assert_eq!(s.into_inner(), 6);
}
