use vstd::prelude::*;

use crate::error::{protocol_error, Result, TrojanError, TrojanErrorView};
use crate::protocol::address::{
    lemma_address_encode_then_parse, lemma_address_encode_then_read,
    lemma_address_read_no_overread, spec_encode_address, spec_encode_socket, spec_read_address,
    Address, AddressView, SocketAddress, SocketAddressView,
};
use crate::protocol::codec::{
    be16, be16_value, crlf, extend_bytes, lemma_be16_roundtrip, push_be16, step_holds, u16_from_be, Progress, Step,
};

verus! {

/// Size of the buffer that receives datagrams from remote hosts.
pub const UDP_BUFFER_SIZE: usize = 65_535;

/// Largest payload a UDP frame can carry (its length field is 16 bits).
pub const UDP_MAX_PAYLOAD_LEN: usize = 65_535;

/// One UDP datagram relayed over the client stream: its peer address and data.
#[derive(Debug)]
pub struct UdpFrame {
    pub address: Address,
    pub payload: Vec<u8>,
}

/// Mathematical view of a UDP frame.
pub struct UdpFrameView {
    pub address: AddressView,
    pub payload: Seq<u8>,
}

impl View for UdpFrame {
    type V = UdpFrameView;

    open spec fn view(&self) -> UdpFrameView {
        UdpFrameView { address: self.address@, payload: self.payload@ }
    }
}

/// Decoding the target address of a UDP frame from a stream: as for headers,
/// except that an empty domain is refused.
pub open spec fn spec_read_target_address(buf: Seq<u8>) -> Step<AddressView> {
    if buf.len() >= 2 && buf[0] == 0x03 && buf[1] == 0 {
        Step::Fail(TrojanErrorView::Protocol("Invalid domain length in UDP frame"@))
    } else {
        spec_read_address(buf)
    }
}

/// Decoding a UDP frame from a stream: address, big-endian payload length,
/// CRLF, payload.
pub open spec fn spec_read_udp_frame(buf: Seq<u8>) -> Step<UdpFrameView> {
    match spec_read_target_address(buf) {
        Step::NeedMore(k) => Step::NeedMore(k),
        Step::Fail(e) => Step::Fail(e),
        Step::Done(a, m) => {
            let n = m as int;
            if buf.len() < n + 4 {
                Step::NeedMore((n + 4 - buf.len()) as nat)
            } else if buf[n + 2] != 0x0d || buf[n + 3] != 0x0a {
                Step::Fail(TrojanErrorView::Protocol("Invalid UDP CRLF delimiter"@))
            } else {
                let len = be16_value(buf[n], buf[n + 1]) as int;
                if buf.len() < n + 4 + len {
                    Step::NeedMore((n + 4 + len - buf.len()) as nat)
                } else {
                    Step::Done(
                        UdpFrameView {
                            address: a,
                            payload: buf.subrange(n + 4, n + 4 + len),
                        },
                        (n + 4 + len) as nat,
                    )
                }
            }
        },
    }
}

/// The address a datagram from `src` is reported under.
pub open spec fn socket_as_address(src: SocketAddressView) -> AddressView {
    match src {
        SocketAddressView::V4(_, _) => AddressView::IPv4(src),
        SocketAddressView::V6(_, _) => AddressView::IPv6(src),
    }
}

/// The frame relaying `payload` received from `src` back to the client.
pub open spec fn spec_udp_frame(src: SocketAddressView, payload: Seq<u8>) -> Seq<u8> {
    spec_encode_socket(src) + be16(payload.len() as u16) + crlf() + payload
}

/// A UDP frame carrying `payload` for the address `a`, as a client sends it;
/// `None` where the address has no encoding.
pub open spec fn spec_encode_udp_frame(a: AddressView, payload: Seq<u8>) -> Option<Seq<u8>> {
    match spec_encode_address(a) {
        Some(e) => Some(e + be16(payload.len() as u16) + crlf() + payload),
        None => None,
    }
}

/// One decoding step over the target address bytes of a UDP frame.
pub fn read_target_address(buf: &[u8]) -> (r: Result<Progress<Address>>)
    ensures
        step_holds(r, spec_read_target_address(buf@)),
        r matches Ok(Progress::NeedMore(k)) ==> k > 0,
{
    if buf.len() >= 2 && buf[0] == Address::TYPE_DOMAIN && buf[1] == 0 {
        return Err(protocol_error("Invalid domain length in UDP frame"));
    }
    Address::read_step(buf)
}

/// One decoding step over the bytes of a UDP frame received so far from the
/// client stream.
pub fn read_udp_frame(buf: &[u8]) -> (r: Result<Progress<UdpFrame>>)
    ensures
        step_holds(r, spec_read_udp_frame(buf@)),
        r matches Ok(Progress::NeedMore(k)) ==> k > 0,
{
    let (address, n) = match read_target_address(buf)? {
        Progress::Done(a, n) => (a, n),
        Progress::NeedMore(k) => return Ok(Progress::NeedMore(k)),
    };
    if buf.len() < n + 4 {
        return Ok(Progress::NeedMore(n + 4 - buf.len()));
    }
    if buf[n + 2] != 0x0d || buf[n + 3] != 0x0a {
        return Err(protocol_error("Invalid UDP CRLF delimiter"));
    }
    let len = u16_from_be(buf[n], buf[n + 1]) as usize;
    if buf.len() < n + 4 + len {
        return Ok(Progress::NeedMore(n + 4 + len - buf.len()));
    }
    let mut payload: Vec<u8> = Vec::new();
    extend_bytes(&mut payload, &buf[n + 4..n + 4 + len]);
    Ok(Progress::Done(UdpFrame { address, payload }, n + 4 + len))
}

/// Frames a datagram received from `addr` for the client stream; payloads
/// longer than the 16-bit length field allows are refused.
pub fn build_udp_frame(addr: &SocketAddress, payload: &[u8]) -> (r: Result<Vec<u8>>)
    ensures
        payload@.len() <= UDP_MAX_PAYLOAD_LEN ==> (r matches Ok(v) && v@ == spec_udp_frame(
            addr@,
            payload@,
        )),
        payload@.len() > UDP_MAX_PAYLOAD_LEN ==> (r matches Err(e) && e@
            == TrojanErrorView::Protocol("UDP payload exceeds protocol limit"@)),
{
    if payload.len() > UDP_MAX_PAYLOAD_LEN {
        return Err(protocol_error("UDP payload exceeds protocol limit"));
    }
    let mut frame: Vec<u8> = Vec::with_capacity(1 + 16 + 2 + 2 + 2 + payload.len());
    match addr {
        SocketAddress::V4(ip, port) => {
            frame.push(Address::TYPE_IPV4);
            extend_bytes(&mut frame, ip);
            push_be16(&mut frame, *port);
        },
        SocketAddress::V6(ip, port) => {
            frame.push(Address::TYPE_IPV6);
            extend_bytes(&mut frame, ip);
            push_be16(&mut frame, *port);
        },
    }
    assert(frame@ =~= spec_encode_socket(addr@));
    push_be16(&mut frame, payload.len() as u16);
    frame.push(0x0d);
    frame.push(0x0a);
    extend_bytes(&mut frame, payload);
    assert(frame@ =~= spec_udp_frame(addr@, payload@));
    Ok(frame)
}

/// A frame built for a datagram decodes back, whatever follows it on the
/// stream, to the sender's address and the same payload.
pub proof fn lemma_udp_frame_roundtrip(addr: SocketAddress, payload: Seq<u8>, rest: Seq<u8>)
    requires
        payload.len() <= UDP_MAX_PAYLOAD_LEN,
    ensures
        spec_read_udp_frame(spec_udp_frame(addr@, payload) + rest) == Step::Done(
            UdpFrameView { address: socket_as_address(addr@), payload },
            spec_udp_frame(addr@, payload).len(),
        ),
{
    let a = match addr {
        SocketAddress::V4(_, _) => Address::IPv4(addr),
        SocketAddress::V6(_, _) => Address::IPv6(addr),
    };
    let enc = spec_encode_socket(addr@);
    assert(spec_encode_address(a@) == Some(enc));
    let tail = be16(payload.len() as u16) + crlf() + payload + rest;
    let buf = spec_udp_frame(addr@, payload) + rest;
    assert(buf =~= enc + tail);
    lemma_address_encode_then_parse(a, tail);
    let n = enc.len() as int;
    assert(buf[n] == be16(payload.len() as u16)[0]);
    assert(buf[n + 1] == be16(payload.len() as u16)[1]);
    assert(buf[n + 2] == 0x0d);
    assert(buf[n + 3] == 0x0a);
    assert(buf.subrange(n + 4, n + 4 + payload.len()) =~= payload);
}

/// What the UDP associate loop observed.
#[derive(Debug)]
pub enum UdpEvent {
    /// A complete frame from the client.
    ClientFrame(UdpFrame),
    /// The client stream ended cleanly between frames.
    ClientClosed,
    /// Reading a frame from the client failed.
    ClientFailed(TrojanError),
    /// A datagram carrying these bytes arrived from this peer.
    Datagram(SocketAddress, Vec<u8>),
    /// Receiving a datagram failed.
    RemoteFailed(std::io::Error),
    /// Nothing happened within the idle timeout.
    IdleTimeout,
}

/// What the UDP associate loop does next.
#[derive(Debug)]
pub enum UdpAction {
    /// Resolve the address and send the payload to it (a failed resolution or
    /// send is skipped); the payload counts as sent once it went out.
    Send(Address, Vec<u8>),
    /// Write this frame to the client and count this many bytes received.
    Reply(Vec<u8>, usize),
    /// End the association.
    Finish,
}

/// Decides the UDP associate loop's next action from what it observed:
/// client frames go out as datagrams, datagrams come back framed, a closed
/// client stream or an idle timeout ends the association, and a failure on
/// either side ends it with that error.
pub fn udp_associate_step(event: UdpEvent) -> (r: Result<UdpAction>)
    ensures
        match event {
            UdpEvent::ClientFrame(f) => r matches Ok(UdpAction::Send(a, p)) && a@ == f.address@
                && p@ == f.payload@,
            UdpEvent::ClientClosed => r matches Ok(UdpAction::Finish),
            UdpEvent::ClientFailed(e) => r matches Err(x) && x@ == e@,
            UdpEvent::Datagram(src, p) => if p@.len() <= UDP_MAX_PAYLOAD_LEN {
                r matches Ok(UdpAction::Reply(f, n)) && f@ == spec_udp_frame(src@, p@) && n
                    == p@.len()
            } else {
                r matches Err(x) && x@ == TrojanErrorView::Protocol(
                    "UDP payload exceeds protocol limit"@,
                )
            },
            UdpEvent::RemoteFailed(e) => r matches Err(TrojanError::Io(x)) && x == e,
            UdpEvent::IdleTimeout => r matches Ok(UdpAction::Finish),
        },
{
    match event {
        UdpEvent::ClientFrame(frame) => Ok(UdpAction::Send(frame.address, frame.payload)),
        UdpEvent::ClientClosed => Ok(UdpAction::Finish),
        UdpEvent::ClientFailed(e) => Err(e),
        UdpEvent::Datagram(source, payload) => {
            let frame = build_udp_frame(&source, payload.as_slice())?;
            Ok(UdpAction::Reply(frame, payload.len()))
        },
        UdpEvent::RemoteFailed(e) => Err(TrojanError::Io(e)),
        UdpEvent::IdleTimeout => Ok(UdpAction::Finish),
    }
}

/// Decoding a frame that a client encoded, for any address that has an
/// encoding, whatever bytes follow it, gives the address and the payload back
/// together with the length of the frame.
pub proof fn lemma_udp_frame_encode_then_read(a: Address, payload: Seq<u8>, rest: Seq<u8>)
    requires
        spec_encode_address(a@) is Some,
        payload.len() <= UDP_MAX_PAYLOAD_LEN,
    ensures
        spec_read_udp_frame(spec_encode_udp_frame(a@, payload).unwrap() + rest) == Step::Done(
            UdpFrameView { address: a@, payload },
            spec_encode_udp_frame(a@, payload).unwrap().len(),
        ),
{
    let enc = spec_encode_address(a@).unwrap();
    let tail = be16(payload.len() as u16) + crlf() + payload + rest;
    let buf = spec_encode_udp_frame(a@, payload).unwrap() + rest;
    assert(buf =~= enc + tail);
    lemma_address_encode_then_read(a, tail);
    lemma_be16_roundtrip(payload.len() as u16);
    let n = enc.len() as int;
    assert(buf[n] == be16(payload.len() as u16)[0]);
    assert(buf[n + 1] == be16(payload.len() as u16)[1]);
    assert(buf[n + 2] == 0x0d);
    assert(buf[n + 3] == 0x0a);
    assert(buf.subrange(n + 4, n + 4 + payload.len()) =~= payload);
}

/// While only part of a frame has arrived from the client stream, decoding
/// asks for more bytes, and never for more than the rest of the frame: reading
/// exactly what it asks for never consumes bytes of the next frame.
pub proof fn lemma_udp_frame_read_no_overread(a: Address, payload: Seq<u8>, p: Seq<u8>)
    requires
        spec_encode_address(a@) is Some,
        payload.len() <= UDP_MAX_PAYLOAD_LEN,
        p.len() < spec_encode_udp_frame(a@, payload).unwrap().len(),
        p == spec_encode_udp_frame(a@, payload).unwrap().subrange(0, p.len() as int),
    ensures
        spec_read_udp_frame(p) matches Step::NeedMore(k) && k > 0 && p.len() + k
            <= spec_encode_udp_frame(a@, payload).unwrap().len(),
{
    let enc = spec_encode_address(a@).unwrap();
    let f = spec_encode_udp_frame(a@, payload).unwrap();
    if p.len() >= 2 {
        assert(p[0] == f[0] && p[1] == f[1]);
    }
    if p.len() < enc.len() {
        assert(p =~= enc.subrange(0, p.len() as int));
        lemma_address_read_no_overread(a, p);
    } else {
        let r = p.subrange(enc.len() as int, p.len() as int);
        assert(p =~= enc + r);
        lemma_address_encode_then_read(a, r);
        lemma_be16_roundtrip(payload.len() as u16);
        let n = enc.len() as int;
        if p.len() >= n + 4 {
            assert(p[n] == f[n] && p[n + 1] == f[n + 1]);
            assert(p[n + 2] == f[n + 2] && p[n + 3] == f[n + 3]);
        }
    }
}

} // verus!
