use vstd::prelude::*;
use vstd::utf8::{encode_utf8, is_ascii_chars, is_ascii_chars_encode_utf8};

use crate::config::is_sha224_hex;
use crate::crypto::{
    hex_encode, hex_lower, lemma_hex_lower_digits, lemma_hex_lower_len, sha224, spec_sha224,
};
use crate::error::{protocol_error, Result, TrojanError, TrojanErrorView};
use crate::protocol::address::{
    lemma_address_encode_then_parse, lemma_address_encode_then_read, lemma_address_encoding_len,
    lemma_address_incomplete_settles, lemma_address_parse_error_final, lemma_address_parse_prefix,
    lemma_address_read_no_overread, spec_encode_address, spec_parse_address, spec_read_address,
    zeros, Address, AddressParse, AddressView,
};
use crate::protocol::codec::{
    all_hex, all_hex_digits, ascii_lower, bytes_eq_ignore_ascii_case, crlf, eq_ignore_ascii_case,
    is_hex_digit, lemma_eq_ignore_ascii_case_laws, step_holds, Progress, Step,
};
use crate::protocol::command::{command_byte, command_of_byte, Command};

verus! {

/// How many bytes are read ahead when sniffing a connection's first data:
/// far more than the longest valid header (56 + 2 + 1 + 259 + 2 bytes).
pub const PEEK_SIZE: usize = 512;

/// A Trojan request header: the hex SHA-224 of the password, the command and
/// the target address.
#[derive(Debug)]
pub struct Header {
    pub password_hash: [u8; 56],
    pub command: Command,
    pub address: Address,
}

impl Clone for Header {
    fn clone(&self) -> (r: Self)
        ensures
            r@ == self@,
    {
        Header {
            password_hash: self.password_hash,
            command: self.command,
            address: self.address.clone(),
        }
    }
}

/// Mathematical view of a header.
pub struct HeaderView {
    pub password_hash: Seq<u8>,
    pub command: Command,
    pub address: AddressView,
}

impl View for Header {
    type V = HeaderView;

    open spec fn view(&self) -> HeaderView {
        HeaderView {
            password_hash: self.password_hash@,
            command: self.command,
            address: self.address@,
        }
    }
}

/// Wire encoding of a header: hash, CRLF, command byte, address, CRLF.
pub open spec fn spec_encode_header(h: HeaderView) -> Option<Seq<u8>> {
    match spec_encode_address(h.address) {
        Some(a) => Some(h.password_hash + crlf() + seq![command_byte(h.command)] + a + crlf()),
        None => None,
    }
}

/// Parsing a header out of the bytes peeked from a connection: `Ok(None)` while
/// the bytes end too early, otherwise the header with the length of its
/// encoding, or the error that rules the bytes out.
pub open spec fn spec_try_parse_header(buf: Seq<u8>) -> std::result::Result<
    Option<(HeaderView, nat)>,
    TrojanErrorView,
> {
    if buf.len() < 58 {
        Ok(None)
    } else if !all_hex(buf.subrange(0, 56)) {
        Err(TrojanErrorView::Protocol("Invalid password hash: not hex digits"@))
    } else if buf[56] != 0x0d || buf[57] != 0x0a {
        Err(TrojanErrorView::Protocol("Missing CRLF after password hash"@))
    } else if buf.len() < 59 {
        Ok(None)
    } else {
        match command_of_byte(buf[58]) {
            None => Err(TrojanErrorView::InvalidCommand(buf[58])),
            Some(cmd) => match spec_parse_address(buf.subrange(59, buf.len() as int)) {
                AddressParse::Incomplete => Ok(None),
                AddressParse::BadType(t) => Err(TrojanErrorView::InvalidAddressType(t)),
                AddressParse::BadUtf8 => Err(TrojanErrorView::InvalidUtf8),
                AddressParse::Parsed(a, n) => {
                    let pos = 59 + n as int;
                    if buf.len() < pos + 2 {
                        Ok(None)
                    } else if buf[pos] != 0x0d || buf[pos + 1] != 0x0a {
                        Err(TrojanErrorView::Protocol("Missing CRLF after target address"@))
                    } else {
                        Ok(
                            Some(
                                (
                                    HeaderView {
                                        password_hash: buf.subrange(0, 56),
                                        command: cmd,
                                        address: a,
                                    },
                                    (pos + 2) as nat,
                                ),
                            ),
                        )
                    }
                },
            },
        }
    }
}

/// Decoding a header field by field from a stream (the hash is checked as soon
/// as its 56 bytes are in).
pub open spec fn spec_read_header(buf: Seq<u8>) -> Step<HeaderView> {
    if buf.len() < 56 {
        Step::NeedMore((56 - buf.len()) as nat)
    } else if !all_hex(buf.subrange(0, 56)) {
        Step::Fail(
            TrojanErrorView::Protocol("Invalid password hash format: expected 56-byte hex string"@),
        )
    } else if buf.len() < 58 {
        Step::NeedMore((58 - buf.len()) as nat)
    } else if buf[56] != 0x0d || buf[57] != 0x0a {
        Step::Fail(TrojanErrorView::Protocol("Invalid CRLF after password hash"@))
    } else if buf.len() < 59 {
        Step::NeedMore(1)
    } else {
        match command_of_byte(buf[58]) {
            None => Step::Fail(TrojanErrorView::InvalidCommand(buf[58])),
            Some(cmd) => match spec_read_address(buf.subrange(59, buf.len() as int)) {
                Step::NeedMore(k) => Step::NeedMore(k),
                Step::Fail(e) => Step::Fail(e),
                Step::Done(a, n) => {
                    let pos = 59 + n as int;
                    if buf.len() < pos + 2 {
                        Step::NeedMore((pos + 2 - buf.len()) as nat)
                    } else if buf[pos] != 0x0d || buf[pos + 1] != 0x0a {
                        Step::Fail(TrojanErrorView::Protocol("Invalid CRLF after target address"@))
                    } else {
                        Step::Done(
                            HeaderView { password_hash: buf.subrange(0, 56), command: cmd, address: a },
                            (pos + 2) as nat,
                        )
                    }
                },
            },
        }
    }
}

/// The configured hash `expected` (hex text) matches `hash`: 56 bytes long and
/// equal to it ignoring ASCII case.
pub open spec fn hash_matches(expected: Seq<char>, hash: Seq<u8>) -> bool {
    encode_utf8(expected).len() == 56 && eq_ignore_ascii_case(encode_utf8(expected), hash)
}

/// Some configured hash matches `hash`.
pub open spec fn password_accepted(hashes: Seq<String>, hash: Seq<u8>) -> bool {
    exists|i: int| 0 <= i < hashes.len() && #[trigger] hash_matches(hashes[i]@, hash)
}

impl Header {
    pub const CRLF: [u8; 2] = [0x0d, 0x0a];
    pub const PASSWORD_HEX_LEN: usize = 56;

    /// Tries to parse a header from bytes already peeked from a connection,
    /// touching no I/O: `Ok(Some(header))` when a complete header starts the
    /// buffer, `Ok(None)` when more bytes are needed, `Err(_)` when the bytes
    /// cannot be a header.
    pub fn try_parse_from_buf(buf: &[u8]) -> (r: Result<Option<Self>>)
        ensures
            match spec_try_parse_header(buf@) {
                Ok(None) => r matches Ok(None),
                Ok(Some((v, _))) => r matches Ok(Some(h)) && h@ == v,
                Err(e) => r matches Err(x) && x@ == e,
            },
    {
        if buf.len() < 58 {
            return Ok(None);
        }
        let hash_slice = &buf[0..56];
        if !all_hex_digits(hash_slice) {
            return Err(protocol_error("Invalid password hash: not hex digits"));
        }
        if buf[56] != 0x0d || buf[57] != 0x0a {
            return Err(protocol_error("Missing CRLF after password hash"));
        }
        if buf.len() < 59 {
            return Ok(None);
        }
        let command = Command::from_u8(buf[58])?;
        let rest = &buf[59..buf.len()];
        let (address, consumed) = Address::parse_from_buf(rest)?;
        let n = match consumed {
            Some(n) => n,
            None => return Ok(None),
        };
        let pos = 59 + n;
        if buf.len() < pos + 2 {
            return Ok(None);
        }
        if buf[pos] != 0x0d || buf[pos + 1] != 0x0a {
            return Err(protocol_error("Missing CRLF after target address"));
        }
        let password_hash = Self::copy_hash(hash_slice);
        Ok(Some(Header { password_hash, command, address }))
    }

    /// One decoding step over the header bytes received so far from a stream.
    pub fn read_step(buf: &[u8]) -> (r: Result<Progress<Self>>)
        ensures
            step_holds(r, spec_read_header(buf@)),
            r matches Ok(Progress::NeedMore(k)) ==> k > 0,
    {
        if buf.len() < 56 {
            return Ok(Progress::NeedMore(56 - buf.len()));
        }
        let hash_slice = &buf[0..56];
        if !all_hex_digits(hash_slice) {
            return Err(
                protocol_error("Invalid password hash format: expected 56-byte hex string"),
            );
        }
        if buf.len() < 58 {
            return Ok(Progress::NeedMore(58 - buf.len()));
        }
        if buf[56] != 0x0d || buf[57] != 0x0a {
            return Err(protocol_error("Invalid CRLF after password hash"));
        }
        if buf.len() < 59 {
            return Ok(Progress::NeedMore(1));
        }
        let command = Command::from_u8(buf[58])?;
        let rest = &buf[59..buf.len()];
        let (address, n) = match Address::read_step(rest)? {
            Progress::Done(a, n) => (a, n),
            Progress::NeedMore(k) => return Ok(Progress::NeedMore(k)),
        };
        let pos = 59 + n;
        if buf.len() < pos + 2 {
            return Ok(Progress::NeedMore(pos + 2 - buf.len()));
        }
        if buf[pos] != 0x0d || buf[pos + 1] != 0x0a {
            return Err(protocol_error("Invalid CRLF after target address"));
        }
        let password_hash = Self::copy_hash(hash_slice);
        Ok(Progress::Done(Header { password_hash, command, address }, pos + 2))
    }

    /// Copies a 56-byte slice into an array.
    fn copy_hash(s: &[u8]) -> (a: [u8; 56])
        requires
            s@.len() == 56,
        ensures
            a@ == s@,
    {
        let mut a = [0u8; 56];
        let mut i: usize = 0;
        while i < 56
            invariant
                0 <= i <= 56,
                s@.len() == 56,
                a@.len() == 56,
                forall|j: int| 0 <= j < i ==> a@[j] == s@[j],
            decreases 56 - i,
        {
            a[i] = s[i];
            i = i + 1;
        }
        assert(a@ =~= s@);
        a
    }

    /// Whether some configured hash matches this header's, ignoring ASCII case.
    pub fn verify_password(&self, password_hashes: &[String]) -> (r: bool)
        ensures
            r == password_accepted(password_hashes@, self.password_hash@),
    {
        let mut i: usize = 0;
        while i < password_hashes.len()
            invariant
                0 <= i <= password_hashes@.len(),
                forall|j: int|
                    0 <= j < i ==> !#[trigger] hash_matches(
                        password_hashes@[j]@,
                        self.password_hash@,
                    ),
            decreases password_hashes@.len() - i,
        {
            let expected = password_hashes[i].as_str().as_bytes();
            if expected.len() == 56 && bytes_eq_ignore_ascii_case(expected, &self.password_hash) {
                assert(hash_matches(password_hashes@[i as int]@, self.password_hash@));
                return true;
            }
            i = i + 1;
        }
        false
    }

    /// Hex SHA-224 of a password, as configured and as sent by clients.
    pub fn hash_password(password: &str) -> (s: String)
        ensures
            s@ == hex_lower(spec_sha224(encode_utf8(password@))@),
            s@.len() == 56,
    {
        let digest = sha224(password.as_bytes());
        proof {
            lemma_hex_lower_len(digest@);
        }
        hex_encode(&digest)
    }
}

/// A header parses back from its encoding, whatever bytes follow it, both from
/// a peeked buffer and field by field from a stream.
pub proof fn lemma_header_encode_then_parse(h: Header, rest: Seq<u8>)
    requires
        all_hex(h.password_hash@),
        spec_encode_header(h@) is Some,
    ensures
        spec_try_parse_header(spec_encode_header(h@).unwrap() + rest) == Ok::<
            Option<(HeaderView, nat)>,
            TrojanErrorView,
        >(Some((h@, spec_encode_header(h@).unwrap().len()))),
        spec_read_header(spec_encode_header(h@).unwrap() + rest) == Step::Done(
            h@,
            spec_encode_header(h@).unwrap().len(),
        ),
{
    broadcast use vstd::utf8::encode_utf8_valid_utf8;

    let a = spec_encode_address(h.address@).unwrap();
    let e = spec_encode_header(h@).unwrap();
    let buf = e + rest;
    let tail = buf.subrange(59, buf.len() as int);
    assert(buf.subrange(0, 56) =~= h.password_hash@);
    assert(tail =~= a + (crlf() + rest));
    lemma_address_encode_then_parse(h.address, crlf() + rest);
    if let Address::Domain(d, _) = h.address {
        let b = encode_utf8(d@);
        assert(tail.subrange(2, tail[1] + 2) =~= b);
    }
    assert(buf[59 + a.len() as int] == 0x0d);
    assert(buf[59 + a.len() as int + 1] == 0x0a);
}

/// While only part of a header's encoding has arrived from a stream, decoding
/// asks for more bytes, and never for more than the rest of the header: reading
/// exactly what it asks for leaves the data after the header in the stream.
pub proof fn lemma_header_read_no_overread(h: Header, p: Seq<u8>)
    requires
        all_hex(h.password_hash@),
        spec_encode_header(h@) is Some,
        p.len() < spec_encode_header(h@).unwrap().len(),
        p == spec_encode_header(h@).unwrap().subrange(0, p.len() as int),
    ensures
        spec_read_header(p) matches Step::NeedMore(k) && k > 0 && p.len() + k
            <= spec_encode_header(h@).unwrap().len(),
{
    let a = spec_encode_address(h.address@).unwrap();
    let e = spec_encode_header(h@).unwrap();
    assert(e.len() == 61 + a.len());
    if p.len() >= 56 {
        assert(p.subrange(0, 56) =~= h.password_hash@);
    }
    if p.len() >= 58 {
        assert(p[56] == e[56] && p[57] == e[57]);
    }
    if p.len() >= 59 {
        assert(p[58] == e[58]);
        let t = p.subrange(59, p.len() as int);
        if t.len() < a.len() {
            assert(t =~= a.subrange(0, t.len() as int));
            lemma_address_read_no_overread(h.address, t);
        } else {
            let r = t.subrange(a.len() as int, t.len() as int);
            assert(t =~= a + r);
            lemma_address_encode_then_read(h.address, r);
        }
    }
}

/// While only part of a header's encoding has been peeked, parsing reports
/// that more bytes are needed, never an error; the whole encoding is at most
/// 320 bytes long, within the peek limit.
pub proof fn lemma_header_prefix_incomplete(h: Header, p: Seq<u8>)
    requires
        all_hex(h.password_hash@),
        spec_encode_header(h@) is Some,
        p.len() < spec_encode_header(h@).unwrap().len(),
        p == spec_encode_header(h@).unwrap().subrange(0, p.len() as int),
    ensures
        spec_try_parse_header(p) == Ok::<Option<(HeaderView, nat)>, TrojanErrorView>(None),
        spec_encode_header(h@).unwrap().len() <= 320,
{
    let a = spec_encode_address(h.address@).unwrap();
    let e = spec_encode_header(h@).unwrap();
    lemma_address_encoding_len(h.address);
    assert(e.len() == 61 + a.len());
    if p.len() >= 58 {
        assert(p.subrange(0, 56) =~= h.password_hash@);
        assert(p[56] == e[56] && p[57] == e[57]);
    }
    if p.len() >= 59 {
        assert(p[58] == e[58]);
        let t = p.subrange(59, p.len() as int);
        if t.len() < a.len() {
            assert(t =~= a.subrange(0, t.len() as int));
            lemma_address_read_no_overread(h.address, t);
        } else {
            let r = t.subrange(a.len() as int, t.len() as int);
            assert(t =~= a + r);
            lemma_address_encode_then_parse(h.address, r);
        }
    }
}

/// Once a complete header has been parsed from a buffer, further bytes do not
/// change the outcome.
pub proof fn lemma_header_parse_prefix(buf: Seq<u8>, more: Seq<u8>)
    requires
        spec_try_parse_header(buf) matches Ok(Some(_)),
    ensures
        spec_try_parse_header(buf + more) == spec_try_parse_header(buf),
{
    let b = buf + more;
    assert(b.subrange(0, 56) =~= buf.subrange(0, 56));
    let t = buf.subrange(59, buf.len() as int);
    assert(b.subrange(59, b.len() as int) =~= t + more);
    lemma_address_parse_prefix(t, more);
}

/// Once the peeked bytes rule a header out, further bytes do not change the
/// verdict.
pub proof fn lemma_header_parse_error_final(buf: Seq<u8>, more: Seq<u8>)
    requires
        spec_try_parse_header(buf) is Err,
    ensures
        spec_try_parse_header(buf + more) == spec_try_parse_header(buf),
{
    let b = buf + more;
    assert(b.subrange(0, 56) =~= buf.subrange(0, 56));
    if buf.len() >= 59 && command_of_byte(buf[58]) is Some {
        let t = buf.subrange(59, buf.len() as int);
        assert(b.subrange(59, b.len() as int) =~= t + more);
        match spec_parse_address(t) {
            AddressParse::Parsed(_, _) => lemma_address_parse_prefix(t, more),
            AddressParse::Incomplete => {},
            _ => lemma_address_parse_error_final(t, more),
        }
    }
}

/// The hash `hash_password` gives for any password is a valid configured
/// password (56 hexadecimal characters), and a header carrying it is accepted
/// by a server that has it configured.
pub proof fn lemma_hashed_password_accepted(password: Seq<char>, configured: Seq<String>, i: int)
    requires
        0 <= i < configured.len(),
        configured[i]@ == hex_lower(spec_sha224(encode_utf8(password))@),
    ensures
        is_sha224_hex(configured[i]@),
        password_accepted(configured, encode_utf8(configured[i]@)),
{
    let d = spec_sha224(encode_utf8(password))@;
    let h = configured[i]@;
    lemma_hex_lower_len(d);
    lemma_hex_lower_digits(d);
    assert(is_ascii_chars(h));
    is_ascii_chars_encode_utf8(h);
    let b = encode_utf8(h);
    assert forall|j: int| 0 <= j < b.len() implies #[trigger] is_hex_digit(b[j]) by {
        assert(h[j] as u8 == b[j]);
    }
    assert(hash_matches(configured[i]@, b));
}

/// A header's password hash is accepted exactly when some configured hash is
/// 56 bytes long and equal to it up to the case of ASCII letters: the same
/// hash written in upper or lower case is accepted either way round.
pub proof fn lemma_password_check_ignores_case(hashes: Seq<String>, hash: Seq<u8>)
    ensures
        password_accepted(hashes, hash) <==> exists|k: int|
            0 <= k < hashes.len() && {
                let e = encode_utf8(#[trigger] hashes[k]@);
                &&& e.len() == 56
                &&& hash.len() == 56
                &&& forall|i: int|
                    0 <= i < 56 ==> {
                        let (x, y) = (#[trigger] e[i], hash[i]);
                        x == y || (0x41 <= x <= 0x5a && y == x + 32) || (0x41 <= y <= 0x5a && x
                            == y + 32)
                    }
            },
{
    if password_accepted(hashes, hash) {
        let k = choose|k: int| 0 <= k < hashes.len() && #[trigger] hash_matches(hashes[k]@, hash);
        lemma_eq_ignore_ascii_case_laws(encode_utf8(hashes[k]@), hash);
        let e = encode_utf8(hashes[k]@);
        assert forall|i: int| 0 <= i < 56 implies {
            let (x, y) = (#[trigger] e[i], hash[i]);
            x == y || (0x41 <= x <= 0x5a && y == x + 32) || (0x41 <= y <= 0x5a && x == y + 32)
        } by {
            assert(ascii_lower(e[i]) == ascii_lower(hash[i]));
        }
    }
    if exists|k: int|
        0 <= k < hashes.len() && {
            let e = encode_utf8(#[trigger] hashes[k]@);
            &&& e.len() == 56
            &&& hash.len() == 56
            &&& forall|i: int|
                0 <= i < 56 ==> {
                    let (x, y) = (#[trigger] e[i], hash[i]);
                    x == y || (0x41 <= x <= 0x5a && y == x + 32) || (0x41 <= y <= 0x5a && x == y
                        + 32)
                }
        } {
        let k = choose|k: int|
            0 <= k < hashes.len() && {
                let e = encode_utf8(#[trigger] hashes[k]@);
                &&& e.len() == 56
                &&& hash.len() == 56
                &&& forall|i: int|
                    0 <= i < 56 ==> {
                        let (x, y) = (#[trigger] e[i], hash[i]);
                        x == y || (0x41 <= x <= 0x5a && y == x + 32) || (0x41 <= y <= 0x5a && x
                            == y + 32)
                    }
            };
        lemma_eq_ignore_ascii_case_laws(encode_utf8(hashes[k]@), hash);
        assert(hash_matches(hashes[k]@, hash));
    }
}

/// Once the hash, its CRLF and a known command are in, an address type byte
/// other than IPv4 (1), domain (3) and IPv6 (4) makes the bytes no header,
/// whatever follows: parsing peeked bytes and decoding from a stream both fail
/// with that byte, and never wait for more.
pub proof fn lemma_unknown_address_type_refused(buf: Seq<u8>)
    requires
        buf.len() >= 60,
        forall|j: int|
            0 <= j < 56 ==> {
                let b = #[trigger] buf[j];
                (0x30 <= b <= 0x39) || (0x41 <= b <= 0x46) || (0x61 <= b <= 0x66)
            },
        buf[56] == 0x0d,
        buf[57] == 0x0a,
        buf[58] == 0x01 || buf[58] == 0x03,
        buf[59] != 0x01 && buf[59] != 0x03 && buf[59] != 0x04,
    ensures
        spec_try_parse_header(buf) == Err::<Option<(HeaderView, nat)>, TrojanErrorView>(
            TrojanErrorView::InvalidAddressType(buf[59]),
        ),
        spec_read_header(buf) == Step::<HeaderView>::Fail(TrojanErrorView::InvalidAddressType(buf[59])),
{
    let h = buf.subrange(0, 56);
    assert forall|j: int| 0 <= j < h.len() implies #[trigger] is_hex_digit(h[j]) by {
        assert(h[j] == buf[j]);
    }
    let t = buf.subrange(59, buf.len() as int);
    assert(t[0] == buf[59]);
}

/// Bytes the parser leaves waiting (`Ok(None)`) are not yet refused but can
/// still be: followed by 320 zero bytes they are no header. So waiting is
/// never the parser's final word on bytes that cannot become a header, and an
/// unknown command, address type or missing CRLF is reported as an error.
pub proof fn lemma_waiting_is_never_final(buf: Seq<u8>)
    requires
        spec_try_parse_header(buf) == Ok::<Option<(HeaderView, nat)>, TrojanErrorView>(None),
    ensures
        spec_try_parse_header(buf + zeros(320)) is Err,
{
    let b = buf + zeros(320);
    assert(b.len() == buf.len() + 320);
    if buf.len() < 56 {
        assert(b[buf.len() as int] == 0);
        assert(!is_hex_digit(b.subrange(0, 56)[buf.len() as int]));
    } else {
        assert(b.subrange(0, 56) =~= buf.subrange(0, 56));
        if buf.len() < 58 {
            assert(b[57] == 0);
        } else {
            assert(b[56] == buf[56] && b[57] == buf[57]);
            if buf.len() == 58 {
                assert(b[58] == 0);
            } else {
                assert(b[58] == buf[58]);
                let t = buf.subrange(59, buf.len() as int);
                let u = b.subrange(59, b.len() as int);
                assert(u =~= t + zeros(320));
                match spec_parse_address(t) {
                    AddressParse::Incomplete => {
                        lemma_address_incomplete_settles(t);
                        match spec_parse_address(u) {
                            AddressParse::Parsed(_, n) => {
                                let pos = 59 + n as int;
                                assert(pos >= buf.len());
                                assert(b[pos] == 0);
                            },
                            _ => {},
                        }
                    },
                    AddressParse::Parsed(_, n) => {
                        lemma_address_parse_prefix(t, zeros(320));
                        let pos = 59 + n as int;
                        if pos < buf.len() {
                            assert(b[pos] == buf[pos]);
                            assert(b[pos + 1] == 0);
                        } else {
                            assert(b[pos] == 0);
                        }
                    },
                    _ => {},
                }
            }
        }
    }
}

} // verus!
