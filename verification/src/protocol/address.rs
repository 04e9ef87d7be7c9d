use vstd::prelude::*;
use vstd::utf8::*;

use crate::error::{is_protocol_error, protocol_error, Result, TrojanError, TrojanErrorView};
use crate::protocol::codec::{Progress, Step, StreamRead, stream_read, step_holds, be16, be16_value, extend_bytes, push_be16, u16_from_be};
use crate::protocol::ipv6::{ipv6_text, spec_ipv6_text};
use crate::text::{decimal, push_char, push_decimal, utf8_to_string};

verus! {

/// An IP socket address: the octets of the IP address and a port.
#[derive(Debug, Clone, Copy, PartialEq, Eq)]
pub enum SocketAddress {
    V4([u8; 4], u16),
    V6([u8; 16], u16),
}

/// Mathematical view of a socket address.
pub enum SocketAddressView {
    V4(Seq<u8>, u16),
    V6(Seq<u8>, u16),
}

impl View for SocketAddress {
    type V = SocketAddressView;

    open spec fn view(&self) -> SocketAddressView {
        match self {
            SocketAddress::V4(ip, port) => SocketAddressView::V4(ip@, *port),
            SocketAddress::V6(ip, port) => SocketAddressView::V6(ip@, *port),
        }
    }
}

/// A proxy target as carried on the wire.
#[derive(Debug, PartialEq, Eq)]
pub enum Address {
    IPv4(SocketAddress),
    IPv6(SocketAddress),
    Domain(String, u16),
}

/// Mathematical view of an address.
pub enum AddressView {
    IPv4(SocketAddressView),
    IPv6(SocketAddressView),
    Domain(Seq<char>, u16),
}

impl View for Address {
    type V = AddressView;

    open spec fn view(&self) -> AddressView {
        match self {
            Address::IPv4(a) => AddressView::IPv4(a@),
            Address::IPv6(a) => AddressView::IPv6(a@),
            Address::Domain(d, port) => AddressView::Domain(d@, *port),
        }
    }
}

impl Clone for Address {
    fn clone(&self) -> (r: Self)
        ensures
            r@ == self@,
    {
        match self {
            Address::IPv4(a) => Address::IPv4(*a),
            Address::IPv6(a) => Address::IPv6(*a),
            Address::Domain(d, port) => Address::Domain(d.clone(), *port),
        }
    }
}

/// What parsing an address out of a byte buffer yields.
pub enum AddressParse {
    /// The buffer ends before the address does.
    Incomplete,
    /// An address occupying the given number of leading bytes.
    Parsed(AddressView, nat),
    /// The leading type byte is not a known address type.
    BadType(u8),
    /// The domain bytes are not valid UTF-8.
    BadUtf8,
}

/// The address at the start of `buf` (wire layout: type byte, then the IPv4
/// octets, a length-prefixed domain or the IPv6 octets, then a big-endian port).
pub open spec fn spec_parse_address(buf: Seq<u8>) -> AddressParse {
    if buf.len() == 0 {
        AddressParse::Incomplete
    } else if buf[0] == 0x01 {
        if buf.len() < 7 {
            AddressParse::Incomplete
        } else {
            AddressParse::Parsed(
                AddressView::IPv4(SocketAddressView::V4(buf.subrange(1, 5), be16_value(buf[5], buf[6]))),
                7,
            )
        }
    } else if buf[0] == 0x03 {
        if buf.len() < 2 {
            AddressParse::Incomplete
        } else if buf.len() < buf[1] + 4 {
            AddressParse::Incomplete
        } else {
            let l = buf[1] as int;
            let d = buf.subrange(2, 2 + l);
            if !valid_utf8(d) {
                AddressParse::BadUtf8
            } else {
                AddressParse::Parsed(
                    AddressView::Domain(decode_utf8(d), be16_value(buf[2 + l], buf[3 + l])),
                    (l + 4) as nat,
                )
            }
        }
    } else if buf[0] == 0x04 {
        if buf.len() < 19 {
            AddressParse::Incomplete
        } else {
            AddressParse::Parsed(
                AddressView::IPv6(SocketAddressView::V6(buf.subrange(1, 17), be16_value(buf[17], buf[18]))),
                19,
            )
        }
    } else {
        AddressParse::BadType(buf[0])
    }
}

/// Total length the address at the start of `buf` is known to need, judging
/// from the bytes present (type byte, then the domain length byte if any).
pub open spec fn address_needed(buf: Seq<u8>) -> int {
    if buf.len() == 0 {
        1
    } else if buf[0] == 0x01 {
        7
    } else if buf[0] == 0x04 {
        19
    } else if buf.len() < 2 {
        2
    } else if buf.len() < buf[1] + 2 {
        buf[1] + 2
    } else {
        buf[1] + 4
    }
}

/// Decoding an address field by field from a stream: one more field is asked
/// for at a time, and the domain's UTF-8 is checked as soon as its bytes are in,
/// before the port.
pub open spec fn spec_read_address(buf: Seq<u8>) -> Step<AddressView> {
    if buf.len() >= 2 && buf[0] == 0x03 && buf.len() >= buf[1] + 2 && !valid_utf8(
        buf.subrange(2, buf[1] + 2),
    ) {
        Step::Fail(TrojanErrorView::InvalidUtf8)
    } else {
        match spec_parse_address(buf) {
            AddressParse::Incomplete => Step::NeedMore((address_needed(buf) - buf.len()) as nat),
            AddressParse::Parsed(v, n) => Step::Done(v, n),
            AddressParse::BadType(t) => Step::Fail(TrojanErrorView::InvalidAddressType(t)),
            AddressParse::BadUtf8 => Step::Fail(TrojanErrorView::InvalidUtf8),
        }
    }
}

/// Wire encoding of a socket address under the type byte of its IP version.
pub open spec fn spec_encode_socket(a: SocketAddressView) -> Seq<u8> {
    match a {
        SocketAddressView::V4(ip, port) => seq![0x01u8] + ip + be16(port),
        SocketAddressView::V6(ip, port) => seq![0x04u8] + ip + be16(port),
    }
}

/// Wire encoding of an address, or `None` when it cannot be encoded: an IPv4
/// entry holding an IPv6 socket (or the reverse), or a domain whose UTF-8
/// encoding is empty or longer than 255 bytes.
pub open spec fn spec_encode_address(a: AddressView) -> Option<Seq<u8>> {
    match a {
        AddressView::IPv4(s) => match s {
            SocketAddressView::V4(_, _) => Some(spec_encode_socket(s)),
            SocketAddressView::V6(_, _) => None,
        },
        AddressView::IPv6(s) => match s {
            SocketAddressView::V6(_, _) => Some(spec_encode_socket(s)),
            SocketAddressView::V4(_, _) => None,
        },
        AddressView::Domain(d, port) => {
            let b = encode_utf8(d);
            if b.len() == 0 || b.len() > 255 {
                None
            } else {
                Some(seq![0x03u8, b.len() as u8] + b + be16(port))
            }
        },
    }
}

/// The message of the error returned when `a` cannot be encoded.
pub open spec fn spec_encode_address_error(a: AddressView) -> Seq<char> {
    match a {
        AddressView::IPv4(_) => "Address::IPv4 variant contains non-IPv4 socket address"@,
        AddressView::IPv6(_) => "Address::IPv6 variant contains non-IPv6 socket address"@,
        AddressView::Domain(_, _) => "Domain length must be between 1 and 255 bytes"@,
    }
}

/// Dotted-decimal rendering of four IPv4 octets.
pub open spec fn ipv4_text(ip: Seq<u8>) -> Seq<char> {
    decimal(ip[0] as nat) + seq!['.'] + decimal(ip[1] as nat) + seq!['.'] + decimal(ip[2] as nat)
        + seq!['.'] + decimal(ip[3] as nat)
}

/// The IP part of a socket address as text.
pub open spec fn socket_host_text(a: SocketAddressView) -> Seq<char> {
    match a {
        SocketAddressView::V4(ip, _) => ipv4_text(ip),
        SocketAddressView::V6(ip, _) => spec_ipv6_text(ip),
    }
}

/// A socket address as text: `ip:port`, or `[ip]:port` for IPv6.
pub open spec fn socket_text(a: SocketAddressView) -> Seq<char> {
    match a {
        SocketAddressView::V4(ip, port) => ipv4_text(ip) + seq![':'] + decimal(port as nat),
        SocketAddressView::V6(ip, port) => seq!['['] + spec_ipv6_text(ip) + seq![']', ':'] + decimal(
            port as nat,
        ),
    }
}

/// The host part of an address as text.
pub open spec fn address_host_text(a: AddressView) -> Seq<char> {
    match a {
        AddressView::IPv4(s) => socket_host_text(s),
        AddressView::IPv6(s) => socket_host_text(s),
        AddressView::Domain(d, _) => d,
    }
}

/// An address as text: the socket address, or `domain:port`.
pub open spec fn address_text(a: AddressView) -> Seq<char> {
    match a {
        AddressView::IPv4(s) => socket_text(s),
        AddressView::IPv6(s) => socket_text(s),
        AddressView::Domain(d, port) => d + seq![':'] + decimal(port as nat),
    }
}

/// The port of an address.
pub open spec fn address_port(a: AddressView) -> u16 {
    match a {
        AddressView::IPv4(s) => socket_port(s),
        AddressView::IPv6(s) => socket_port(s),
        AddressView::Domain(_, port) => port,
    }
}

/// The port of a socket address.
pub open spec fn socket_port(a: SocketAddressView) -> u16 {
    match a {
        SocketAddressView::V4(_, port) => port,
        SocketAddressView::V6(_, port) => port,
    }
}

/// Appends four octets in dotted-decimal form.
fn push_ipv4(s: &mut String, ip: &[u8; 4])
    ensures
        final(s)@ == old(s)@ + ipv4_text(ip@),
{
    push_decimal(s, ip[0] as u64);
    push_char(s, '.');
    push_decimal(s, ip[1] as u64);
    push_char(s, '.');
    push_decimal(s, ip[2] as u64);
    push_char(s, '.');
    push_decimal(s, ip[3] as u64);
    assert(s@ =~= old(s)@ + ipv4_text(ip@));
}

impl SocketAddress {
    /// The port.
    pub fn port(&self) -> (p: u16)
        ensures
            p == socket_port(self@),
    {
        match self {
            SocketAddress::V4(_, p) => *p,
            SocketAddress::V6(_, p) => *p,
        }
    }

    /// The IP address as text.
    pub fn host(&self) -> (s: String)
        ensures
            s@ == socket_host_text(self@),
    {
        match self {
            SocketAddress::V4(ip, _) => {
                let mut s = String::new();
                push_ipv4(&mut s, ip);
                assert(s@ =~= socket_host_text(self@));
                s
            },
            SocketAddress::V6(ip, _) => ipv6_text(*ip),
        }
    }

    /// The socket address as text.
    pub fn to_string(&self) -> (s: String)
        ensures
            s@ == socket_text(self@),
    {
        let mut s = String::new();
        match self {
            SocketAddress::V4(ip, port) => {
                push_ipv4(&mut s, ip);
                push_char(&mut s, ':');
                push_decimal(&mut s, *port as u64);
            },
            SocketAddress::V6(ip, port) => {
                push_char(&mut s, '[');
                let t = ipv6_text(*ip);
                s.append(t.as_str());
                push_char(&mut s, ']');
                push_char(&mut s, ':');
                push_decimal(&mut s, *port as u64);
            },
        }
        assert(s@ =~= socket_text(self@));
        s
    }
}

impl Address {
    pub const TYPE_IPV4: u8 = 0x01;
    pub const TYPE_DOMAIN: u8 = 0x03;
    pub const TYPE_IPV6: u8 = 0x04;

    /// One decoding step over the bytes of an address received so far from a
    /// stream: the address, how many more bytes the next field needs, or why the
    /// bytes cannot be an address.
    pub fn read_step(buf: &[u8]) -> (r: Result<Progress<Address>>)
        ensures
            step_holds(r, spec_read_address(buf@)),
            r matches Ok(Progress::NeedMore(k)) ==> k > 0,
    {
        if buf.len() >= 2 && buf[0] == Self::TYPE_DOMAIN {
            let l = buf[1] as usize;
            if buf.len() >= l + 2 {
                if utf8_to_string(&buf[2..l + 2]).is_none() {
                    return Err(TrojanError::InvalidUtf8);
                }
            }
        }
        match Self::parse_from_buf(buf) {
            Ok((a, Some(n))) => Ok(Progress::Done(a, n)),
            Ok((_, None)) => {
                let needed: usize = if buf.len() == 0 {
                    1
                } else if buf[0] == Self::TYPE_IPV4 {
                    7
                } else if buf[0] == Self::TYPE_IPV6 {
                    19
                } else if buf.len() < 2 {
                    2
                } else if buf.len() < buf[1] as usize + 2 {
                    buf[1] as usize + 2
                } else {
                    buf[1] as usize + 4
                };
                Ok(Progress::NeedMore(needed - buf.len()))
            },
            Err(e) => Err(e),
        }
    }

    /// Parses an address from the start of `buf` without consuming anything.
    ///
    /// `Ok((address, Some(n)))`: the address occupies the first `n` bytes;
    /// `Ok((_, None))`: more bytes are needed (the address returned then is an
    /// empty domain with port 0); `Err(_)`: the bytes cannot start an address.
    pub fn parse_from_buf(buf: &[u8]) -> (r: Result<(Address, Option<usize>)>)
        ensures
            match spec_parse_address(buf@) {
                AddressParse::Incomplete => r matches Ok((a, None)) && a@ == AddressView::Domain(
                    Seq::empty(),
                    0,
                ),
                AddressParse::Parsed(v, n) => r matches Ok((a, Some(m))) && a@ == v && m == n,
                AddressParse::BadType(t) => r matches Err(TrojanError::InvalidAddressType(x)) && x
                    == t,
                AddressParse::BadUtf8 => r matches Err(TrojanError::InvalidUtf8),
            },
    {
        if buf.len() == 0 {
            return Ok((Address::Domain(String::new(), 0), None));
        }
        let addr_type = buf[0];
        if addr_type == Self::TYPE_IPV4 {
            if buf.len() < 7 {
                return Ok((Address::Domain(String::new(), 0), None));
            }
            let ip = [buf[1], buf[2], buf[3], buf[4]];
            let port = u16_from_be(buf[5], buf[6]);
            assert(ip@ =~= buf@.subrange(1, 5));
            Ok((Address::IPv4(SocketAddress::V4(ip, port)), Some(7)))
        } else if addr_type == Self::TYPE_DOMAIN {
            if buf.len() < 2 {
                return Ok((Address::Domain(String::new(), 0), None));
            }
            let domain_len = buf[1] as usize;
            if buf.len() < domain_len + 4 {
                return Ok((Address::Domain(String::new(), 0), None));
            }
            let domain_bytes = &buf[2..2 + domain_len];
            let domain = match utf8_to_string(domain_bytes) {
                Some(d) => d,
                None => return Err(TrojanError::InvalidUtf8),
            };
            let port = u16_from_be(buf[2 + domain_len], buf[3 + domain_len]);
            Ok((Address::Domain(domain, port), Some(domain_len + 4)))
        } else if addr_type == Self::TYPE_IPV6 {
            if buf.len() < 19 {
                return Ok((Address::Domain(String::new(), 0), None));
            }
            let ip = [
                buf[1],
                buf[2],
                buf[3],
                buf[4],
                buf[5],
                buf[6],
                buf[7],
                buf[8],
                buf[9],
                buf[10],
                buf[11],
                buf[12],
                buf[13],
                buf[14],
                buf[15],
                buf[16],
            ];
            let port = u16_from_be(buf[17], buf[18]);
            assert(ip@ =~= buf@.subrange(1, 17));
            Ok((Address::IPv6(SocketAddress::V6(ip, port)), Some(19)))
        } else {
            Err(TrojanError::InvalidAddressType(addr_type))
        }
    }

    /// The wire encoding of this address.
    pub fn encode(&self) -> (r: Result<Vec<u8>>)
        ensures
            match spec_encode_address(self@) {
                Some(e) => r matches Ok(v) && v@ == e,
                None => r matches Err(err) && is_protocol_error(err, spec_encode_address_error(self@)),
            },
    {
        let mut result: Vec<u8> = Vec::with_capacity(19);
        match self {
            Address::IPv4(addr) => match addr {
                SocketAddress::V4(ip, port) => {
                    result.push(Self::TYPE_IPV4);
                    extend_bytes(&mut result, ip);
                    push_be16(&mut result, *port);
                    assert(result@ =~= seq![0x01u8] + ip@ + be16(*port));
                    assert(spec_encode_address(self@) == Some(result@));
                },
                SocketAddress::V6(_, _) => {
                    return Err(
                        protocol_error("Address::IPv4 variant contains non-IPv4 socket address"),
                    );
                },
            },
            Address::Domain(domain, port) => {
                let bytes = domain.as_str().as_bytes();
                let len = bytes.len();
                if len == 0 || len > 255 {
                    return Err(protocol_error("Domain length must be between 1 and 255 bytes"));
                }
                result.push(Self::TYPE_DOMAIN);
                result.push(len as u8);
                extend_bytes(&mut result, bytes);
                push_be16(&mut result, *port);
                assert(bytes@ == encode_utf8(domain@));
                assert(result@ =~= seq![0x03u8, len as u8] + bytes@ + be16(*port));
                assert(spec_encode_address(self@) == Some(result@));
            },
            Address::IPv6(addr) => match addr {
                SocketAddress::V6(ip, port) => {
                    result.push(Self::TYPE_IPV6);
                    extend_bytes(&mut result, ip);
                    push_be16(&mut result, *port);
                    assert(result@ =~= seq![0x04u8] + ip@ + be16(*port));
                    assert(spec_encode_address(self@) == Some(result@));
                },
                SocketAddress::V4(_, _) => {
                    return Err(
                        protocol_error("Address::IPv6 variant contains non-IPv6 socket address"),
                    );
                },
            },
        }
        Ok(result)
    }

    /// The port of this address.
    pub fn port(&self) -> (p: u16)
        ensures
            p == address_port(self@),
    {
        match self {
            Address::IPv4(addr) => addr.port(),
            Address::IPv6(addr) => addr.port(),
            Address::Domain(_, port) => *port,
        }
    }

    /// The host of this address as text: the IP address, or the domain.
    pub fn host(&self) -> (s: String)
        ensures
            s@ == address_host_text(self@),
    {
        match self {
            Address::IPv4(addr) => addr.host(),
            Address::IPv6(addr) => addr.host(),
            Address::Domain(domain, _) => domain.clone(),
        }
    }

    /// The address as text: `ip:port`, `[ip]:port` or `domain:port`.
    pub fn to_string(&self) -> (s: String)
        ensures
            s@ == address_text(self@),
    {
        match self {
            Address::IPv4(addr) => addr.to_string(),
            Address::IPv6(addr) => addr.to_string(),
            Address::Domain(domain, port) => {
                let mut s = domain.clone();
                push_char(&mut s, ':');
                push_decimal(&mut s, *port as u64);
                assert(s@ =~= address_text(self@));
                s
            },
        }
    }
}

/// Parsing the encoding of an address, whatever bytes follow it, gives the
/// address back together with the length of its encoding.
pub proof fn lemma_address_encode_then_parse(a: Address, rest: Seq<u8>)
    requires
        spec_encode_address(a@) is Some,
    ensures
        spec_parse_address(spec_encode_address(a@).unwrap() + rest) == AddressParse::Parsed(
            a@,
            spec_encode_address(a@).unwrap().len(),
        ),
{
    broadcast use vstd::utf8::encode_utf8_valid_utf8, vstd::utf8::encode_utf8_decode_utf8;

    let e = spec_encode_address(a@).unwrap();
    let buf = e + rest;
    match a {
        Address::IPv4(SocketAddress::V4(ip, port)) => {
            assert(buf.subrange(1, 5) =~= ip@);
        },
        Address::IPv6(SocketAddress::V6(ip, port)) => {
            assert(buf.subrange(1, 17) =~= ip@);
        },
        Address::Domain(d, port) => {
            let b = encode_utf8(d@);
            assert(buf.subrange(2, 2 + b.len() as int) =~= b);
        },
        _ => {},
    }
}

/// Decoding the encoding of an address from a stream, whatever bytes follow it,
/// gives the address back together with the length of its encoding.
pub proof fn lemma_address_encode_then_read(a: Address, rest: Seq<u8>)
    requires
        spec_encode_address(a@) is Some,
    ensures
        spec_read_address(spec_encode_address(a@).unwrap() + rest) == Step::Done(
            a@,
            spec_encode_address(a@).unwrap().len(),
        ),
{
    broadcast use vstd::utf8::encode_utf8_valid_utf8;

    lemma_address_encode_then_parse(a, rest);
    let buf = spec_encode_address(a@).unwrap() + rest;
    if let Address::Domain(d, _) = a {
        let b = encode_utf8(d@);
        assert(buf.subrange(2, buf[1] + 2) =~= b);
    }
}

/// While only part of an address's encoding has arrived, decoding asks for
/// more bytes, and never for more than the rest of the encoding: reading
/// exactly what it asks for never consumes bytes after the address.
pub proof fn lemma_address_read_no_overread(a: Address, p: Seq<u8>)
    requires
        spec_encode_address(a@) is Some,
        p.len() < spec_encode_address(a@).unwrap().len(),
        p == spec_encode_address(a@).unwrap().subrange(0, p.len() as int),
    ensures
        spec_read_address(p) matches Step::NeedMore(k) && k > 0 && p.len() + k
            <= spec_encode_address(a@).unwrap().len(),
{
    broadcast use vstd::utf8::encode_utf8_valid_utf8;

    let e = spec_encode_address(a@).unwrap();
    if let Address::Domain(d, _) = a {
        let b = encode_utf8(d@);
        if p.len() >= 2 {
            assert(p[1] == e[1]);
            if p.len() >= b.len() + 2 {
                assert(p.subrange(2, p[1] + 2) =~= b);
            }
        }
    }
    if p.len() > 0 {
        assert(p[0] == e[0]);
    }
}

/// Encoding a parsed address reproduces the bytes it was parsed from, except
/// for an empty domain, which parses but cannot be encoded.
pub proof fn lemma_address_parse_then_encode(buf: Seq<u8>)
    requires
        spec_parse_address(buf) is Parsed,
        buf[0] == 0x03 ==> buf[1] > 0,
    ensures
        spec_parse_address(buf) matches AddressParse::Parsed(v, n) && spec_encode_address(v)
            == Some(buf.subrange(0, n as int)),
{
    broadcast use vstd::utf8::decode_utf8_encode_utf8;

    if buf[0] == 0x01 {
        assert(buf.subrange(0, 7) =~= seq![0x01u8] + buf.subrange(1, 5) + be16(
            be16_value(buf[5], buf[6]),
        ));
    } else if buf[0] == 0x03 {
        let l = buf[1] as int;
        let d = buf.subrange(2, 2 + l);
        assert(encode_utf8(decode_utf8(d)) == d);
        assert(buf.subrange(0, l + 4) =~= seq![0x03u8, l as u8] + d + be16(
            be16_value(buf[2 + l], buf[3 + l]),
        ));
    } else {
        assert(buf.subrange(0, 19) =~= seq![0x04u8] + buf.subrange(1, 17) + be16(
            be16_value(buf[17], buf[18]),
        ));
    }
}

/// Bytes after a complete address do not change how it parses.
pub proof fn lemma_address_parse_prefix(buf: Seq<u8>, more: Seq<u8>)
    requires
        spec_parse_address(buf) is Parsed,
    ensures
        spec_parse_address(buf + more) == spec_parse_address(buf),
{
    let b = buf + more;
    if buf[0] == 0x01 {
        assert(b.subrange(1, 5) =~= buf.subrange(1, 5));
    } else if buf[0] == 0x03 {
        let l = buf[1] as int;
        assert(b.subrange(2, 2 + l) =~= buf.subrange(2, 2 + l));
    } else {
        assert(b.subrange(1, 17) =~= buf.subrange(1, 17));
    }
}

/// A parse that fails keeps failing the same way when more bytes arrive.
pub proof fn lemma_address_parse_error_final(buf: Seq<u8>, more: Seq<u8>)
    requires
        spec_parse_address(buf) is BadType || spec_parse_address(buf) is BadUtf8,
    ensures
        spec_parse_address(buf + more) == spec_parse_address(buf),
{
    let b = buf + more;
    if buf[0] == 0x03 {
        let l = buf[1] as int;
        assert(b.subrange(2, 2 + l) =~= buf.subrange(2, 2 + l));
    }
}

/// An address encodes in at most 259 bytes (type, length, 255-byte domain,
/// port).
pub proof fn lemma_address_encoding_len(a: Address)
    requires
        spec_encode_address(a@) is Some,
    ensures
        spec_encode_address(a@).unwrap().len() <= 259,
{
}

/// The stream decoder of addresses as a step function.
pub open spec fn address_step() -> spec_fn(Seq<u8>) -> Step<AddressView> {
    |p: Seq<u8>| spec_read_address(p)
}

/// Before the bytes of a parsable address are all in, the stream decoder
/// asks for more without going past the address; once they are in, it gives
/// the address the parser finds.
pub proof fn lemma_address_read_prefix_of_parsed(b: Seq<u8>, v: AddressView, n: nat, m: nat)
    requires
        spec_parse_address(b) == AddressParse::Parsed(v, n),
        m <= n,
    ensures
        m < n ==> (spec_read_address(b.subrange(0, m as int)) matches Step::NeedMore(k) && k > 0
            && m + k <= n),
        m == n ==> spec_read_address(b.subrange(0, m as int)) == Step::Done(v, n),
{
    let p = b.subrange(0, m as int);
    if m >= 1 {
        assert(p[0] == b[0]);
    }
    if m >= 2 {
        assert(p[1] == b[1]);
    }
    if b[0] == 0x03 {
        let l = b[1] as int;
        if m >= l + 2 {
            assert(p.subrange(2, l + 2) =~= b.subrange(2, l + 2));
        }
        if m == n {
            assert(p[2 + l] == b[2 + l] && p[3 + l] == b[3 + l]);
        }
    } else if m == n {
        assert(p =~= b.subrange(0, n as int));
        if b[0] == 0x01 {
            assert(p.subrange(1, 5) =~= b.subrange(1, 5));
            assert(p[5] == b[5] && p[6] == b[6]);
        } else {
            assert(p.subrange(1, 17) =~= b.subrange(1, 17));
            assert(p[17] == b[17] && p[18] == b[18]);
        }
    }
}

/// Driving the stream decoder from `m` bytes taken, before the end of a
/// parsable address, reads exactly up to its end and gives that address.
proof fn lemma_address_stream_from(b: Seq<u8>, v: AddressView, n: nat, m: nat)
    requires
        spec_parse_address(b) == AddressParse::Parsed(v, n),
        m <= n,
    ensures
        stream_read(address_step(), b, m) == StreamRead::Done(v, n),
    decreases n - m,
{
    lemma_address_read_prefix_of_parsed(b, v, n, m);
    assert(n <= b.len());
    let p = b.subrange(0, m as int);
    assert(address_step()(p) == spec_read_address(p));
    if m < n {
        let k = match spec_read_address(p) {
            Step::NeedMore(k) => k,
            _ => 0,
        };
        lemma_address_stream_from(b, v, n, m + k);
    }
}

/// Reading an address from a stream agrees with parsing the same bytes: where
/// the parser finds an address occupying `n` bytes, the reader gives that
/// address after taking exactly those `n` bytes, and where the parser refuses
/// the bytes, the reader fails with the same error.
pub proof fn lemma_address_stream_agrees_with_parse(b: Seq<u8>)
    ensures
        match spec_parse_address(b) {
            AddressParse::Parsed(v, n) => stream_read(address_step(), b, 0) == StreamRead::<
                AddressView,
            >::Done(v, n),
            AddressParse::BadType(t) => stream_read(address_step(), b, 0) == StreamRead::<
                AddressView,
            >::Fail(TrojanErrorView::InvalidAddressType(t)),
            AddressParse::BadUtf8 => stream_read(address_step(), b, 0) == StreamRead::<
                AddressView,
            >::Fail(TrojanErrorView::InvalidUtf8),
            AddressParse::Incomplete => true,
        },
{
    let e = b.subrange(0, 0);
    assert(address_step()(e) == spec_read_address(e));
    assert(e.len() == 0);
    match spec_parse_address(b) {
        AddressParse::Parsed(v, n) => {
            lemma_address_stream_from(b, v, n, 0);
        },
        AddressParse::BadType(t) => {
            let p1 = b.subrange(0, 1);
            assert(address_step()(p1) == spec_read_address(p1));
            assert(p1[0] == b[0]);
            assert(stream_read(address_step(), b, 0) == stream_read(address_step(), b, 1));
        },
        AddressParse::BadUtf8 => {
            let l = b[1] as int;
            let p1 = b.subrange(0, 1);
            let p2 = b.subrange(0, 2);
            let p3 = b.subrange(0, l + 2);
            assert(address_step()(p1) == spec_read_address(p1));
            assert(address_step()(p2) == spec_read_address(p2));
            assert(address_step()(p3) == spec_read_address(p3));
            assert(p1[0] == b[0]);
            assert(p2[0] == b[0] && p2[1] == b[1]);
            assert(p3[0] == b[0] && p3[1] == b[1]);
            assert(p3.subrange(2, l + 2) =~= b.subrange(2, l + 2));
            assert(l > 0) by {
                if l == 0 {
                    assert(b.subrange(2, 2) =~= Seq::<u8>::empty());
                    assert(valid_utf8(Seq::<u8>::empty()));
                }
            }
            assert(stream_read(address_step(), b, 0) == stream_read(address_step(), b, 1));
            assert(stream_read(address_step(), b, 1) == stream_read(address_step(), b, 2));
            assert(stream_read(address_step(), b, 2) == stream_read(address_step(), b, (l + 2) as nat));
        },
        AddressParse::Incomplete => {},
    }
}

/// `n` zero bytes.
pub open spec fn zeros(n: nat) -> Seq<u8> {
    Seq::new(n, |i: int| 0u8)
}

/// Bytes that end inside an address are settled by 320 more bytes: the
/// address is then complete (ending after the bytes already there, within 259
/// bytes) or refused.
pub proof fn lemma_address_incomplete_settles(t: Seq<u8>)
    requires
        spec_parse_address(t) is Incomplete,
    ensures
        match spec_parse_address(t + zeros(320)) {
            AddressParse::Parsed(_, n) => t.len() < n <= 259,
            AddressParse::Incomplete => false,
            _ => true,
        },
{
    let b = t + zeros(320);
    assert(t.len() < 259);
    if t.len() > 0 {
        assert(b[0] == t[0]);
    }
    if t.len() > 1 {
        assert(b[1] == t[1]);
    }
    if t.len() == 0 {
        assert(b[0] == 0);
    }
    if t.len() == 1 && t[0] == 0x03 {
        assert(b[1] == 0);
    }
}

} // verus!
