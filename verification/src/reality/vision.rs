use vstd::prelude::*;
use vstd::utf8::{decode_utf8, encode_utf8, valid_utf8};

use crate::buffer::{
    bytes_mut_as_slice, bytes_mut_contents, bytes_mut_extend, bytes_mut_put_u64,
    bytes_mut_put_u8, bytes_mut_with_capacity,
};
use crate::crypto::{sha224, spec_sha224};
use crate::error::{fails_with, protocol_error, Result, TrojanError, TrojanErrorView};
use crate::protocol::address::{
    lemma_address_encode_then_parse, lemma_address_encode_then_read,
    lemma_address_read_no_overread, spec_encode_address, spec_encode_address_error, spec_read_address, Address, AddressView,
};
use crate::protocol::codec::{
    all_hex, all_hex_digits, be64, be64_value, bytes_eq_ignore_ascii_case, bytes_equal,
    eq_ignore_ascii_case, lemma_be64_roundtrip, step_holds, u64_from_be, Progress, Step,
};
use crate::protocol::command::{command_byte, command_of_byte, Command};
use crate::text::{decimal, hex_min, push_decimal, push_hex_min, utf8_to_string};

verus! {

pub const VISION_MAGIC_HEADER: u8 = 0xFE;
pub const VISION_VERSION: u8 = 0x01;
pub const VISION_PASSWORD_HEX_LEN: usize = 56;
pub const VISION_HASH_LEN: usize = 28;

/// Largest distance in seconds between a request's timestamp and the clock.
pub const VISION_MAX_CLOCK_SKEW: i128 = 300;

/// The authentication request a Vision client sends first.
#[derive(Debug)]
pub struct VisionAuthRequest {
    pub magic: u8,
    pub version: u8,
    pub command: Command,
    pub address: Address,
    pub timestamp: u64,
    pub password_hash: [u8; 56],
    pub integrity_hash: [u8; 28],
}

impl Clone for VisionAuthRequest {
    fn clone(&self) -> (r: Self)
        ensures
            r@ == self@,
    {
        VisionAuthRequest {
            magic: self.magic,
            version: self.version,
            command: self.command,
            address: self.address.clone(),
            timestamp: self.timestamp,
            password_hash: self.password_hash,
            integrity_hash: self.integrity_hash,
        }
    }
}

/// Mathematical view of a Vision request.
pub struct VisionAuthRequestView {
    pub magic: u8,
    pub version: u8,
    pub command: Command,
    pub address: AddressView,
    pub timestamp: u64,
    pub password_hash: Seq<u8>,
    pub integrity_hash: Seq<u8>,
}

impl View for VisionAuthRequest {
    type V = VisionAuthRequestView;

    open spec fn view(&self) -> VisionAuthRequestView {
        VisionAuthRequestView {
            magic: self.magic,
            version: self.version,
            command: self.command,
            address: self.address@,
            timestamp: self.timestamp,
            password_hash: self.password_hash@,
            integrity_hash: self.integrity_hash@,
        }
    }
}

/// The bytes the integrity hash covers: magic, version, command, address,
/// big-endian timestamp and password hash; `None` when the address cannot be
/// encoded.
pub open spec fn spec_vision_body(r: VisionAuthRequestView) -> Option<Seq<u8>> {
    match spec_encode_address(r.address) {
        Some(a) => Some(
            seq![r.magic, r.version, command_byte(r.command)] + a + be64(r.timestamp)
                + r.password_hash,
        ),
        None => None,
    }
}

/// The request's integrity hash is the SHA-224 of its body.
pub open spec fn spec_integrity_ok(r: VisionAuthRequestView) -> bool {
    match spec_vision_body(r) {
        Some(b) => r.integrity_hash == spec_sha224(b)@,
        None => false,
    }
}

/// The request with its integrity hash recomputed from its body.
pub open spec fn spec_sealed(r: VisionAuthRequestView) -> VisionAuthRequestView {
    VisionAuthRequestView { integrity_hash: spec_sha224(spec_vision_body(r).unwrap())@, ..r }
}

/// The wire encoding of a request: its body followed by the SHA-224 of the body.
pub open spec fn spec_vision_encoding(r: VisionAuthRequestView) -> Option<Seq<u8>> {
    match spec_vision_body(r) {
        Some(b) => Some(b + spec_sha224(b)@),
        None => None,
    }
}

/// A valid configured password hash: 56 bytes of hexadecimal text.
pub open spec fn valid_password_hex(s: Seq<char>) -> bool {
    encode_utf8(s).len() == 56 && all_hex(encode_utf8(s))
}

/// The request built from the given fields and timestamp.
pub open spec fn spec_new_request(
    command: Command,
    address: AddressView,
    password_hex: Seq<char>,
    timestamp: u64,
) -> VisionAuthRequestView {
    spec_sealed(
        VisionAuthRequestView {
            magic: 0xFE,
            version: 0x01,
            command,
            address,
            timestamp,
            password_hash: encode_utf8(password_hex),
            integrity_hash: Seq::new(28, |i: int| 0u8),
        },
    )
}

/// Decoding a request field by field from a stream.
pub open spec fn spec_read_vision(buf: Seq<u8>) -> Step<VisionAuthRequestView> {
    if buf.len() < 1 {
        Step::NeedMore(1)
    } else if buf[0] != 0xFE {
        Step::Fail(
            TrojanErrorView::Protocol("Invalid Vision magic header: "@ + hex_min(buf[0] as nat)),
        )
    } else if buf.len() < 2 {
        Step::NeedMore(1)
    } else if buf[1] != 0x01 {
        Step::Fail(
            TrojanErrorView::Protocol("Unsupported Vision version: "@ + decimal(buf[1] as nat)),
        )
    } else if buf.len() < 3 {
        Step::NeedMore(1)
    } else {
        match command_of_byte(buf[2]) {
            None => Step::Fail(TrojanErrorView::InvalidCommand(buf[2])),
            Some(cmd) => match spec_read_address(buf.subrange(3, buf.len() as int)) {
                Step::NeedMore(k) => Step::NeedMore(k),
                Step::Fail(e) => Step::Fail(e),
                Step::Done(a, n) => {
                    let p = 3 + n as int;
                    if buf.len() < p + 8 {
                        Step::NeedMore((p + 8 - buf.len()) as nat)
                    } else if buf.len() < p + 64 {
                        Step::NeedMore((p + 64 - buf.len()) as nat)
                    } else if !all_hex(buf.subrange(p + 8, p + 64)) {
                        Step::Fail(TrojanErrorView::Protocol("Invalid Vision password hash format"@))
                    } else if buf.len() < p + 92 {
                        Step::NeedMore((p + 92 - buf.len()) as nat)
                    } else {
                        Step::Done(
                            VisionAuthRequestView {
                                magic: 0xFE,
                                version: 0x01,
                                command: cmd,
                                address: a,
                                timestamp: be64_value(buf.subrange(p, p + 8)),
                                password_hash: buf.subrange(p + 8, p + 64),
                                integrity_hash: buf.subrange(p + 64, p + 92),
                            },
                            (p + 92) as nat,
                        )
                    }
                },
            },
        }
    }
}

/// The timestamp is more than five minutes away from `now` (the exact
/// difference of the two readings in seconds).
pub open spec fn timestamp_expired(now: u64, timestamp: u64) -> bool {
    let d = now as int - timestamp as int;
    d > 300 || d < -300
}

/// The outcome of checking a fully received request at time `now`.
pub open spec fn spec_check_received(r: VisionAuthRequestView, now: u64) -> std::result::Result<
    (),
    TrojanErrorView,
> {
    if timestamp_expired(now, r.timestamp) {
        Err(TrojanErrorView::Protocol("Timestamp expired"@))
    } else {
        match spec_vision_body(r) {
            None => Err(TrojanErrorView::Protocol(spec_encode_address_error(r.address))),
            Some(b) => if r.integrity_hash == spec_sha224(b)@ {
                Ok(())
            } else {
                Err(TrojanErrorView::Protocol("Vision integrity check failed"@))
            },
        }
    }
}

/// `std::time::SystemTime`, a clock reading passed from one call to the next.
#[verifier::external_type_specification]
#[verifier::external_body]
pub struct ExSystemTime(std::time::SystemTime);

/// The system clock's reading (`SystemTime::now`). Nothing is stated of it:
/// it is the time.
#[verifier::external_body]
fn system_time_now() -> std::time::SystemTime {
    std::time::SystemTime::now()
}

/// How long after the Unix epoch `t` lies, `None` when it lies before
/// (`SystemTime::duration_since`). Nothing is stated of the value, which
/// depends on a clock reading.
#[verifier::external_body]
fn since_unix_epoch(t: &std::time::SystemTime) -> Option<std::time::Duration> {
    t.duration_since(std::time::UNIX_EPOCH).ok()
}

/// The whole seconds of a duration (`Duration::as_secs`). Nothing is stated
/// of the value, which here comes from a clock reading.
#[verifier::external_body]
fn duration_secs(d: &std::time::Duration) -> u64 {
    d.as_secs()
}

/// Seconds since the Unix epoch, or an error when the clock reads earlier.
pub fn current_unix_timestamp() -> (r: Result<u64>)
    ensures
        r matches Err(e) ==> e@ == TrojanErrorView::Protocol("System clock before UNIX_EPOCH"@),
{
    let now = system_time_now();
    match since_unix_epoch(&now) {
        Some(d) => Ok(duration_secs(&d)),
        None => Err(protocol_error("System clock before UNIX_EPOCH")),
    }
}

/// Checks a configured password hash: 56 hexadecimal characters.
pub fn parse_password_hash(value: &str) -> (r: Result<[u8; 56]>)
    ensures
        valid_password_hex(value@) ==> (r matches Ok(h) && h@ == encode_utf8(value@)),
        !valid_password_hex(value@) ==> (r matches Err(e) && e@ == TrojanErrorView::Protocol(
            "Vision password hash must be 56 hex characters"@,
        )),
{
    let bytes = value.as_bytes();
    if bytes.len() != 56 || !all_hex_digits(bytes) {
        return Err(protocol_error("Vision password hash must be 56 hex characters"));
    }
    let mut out = [0u8; 56];
    let mut i: usize = 0;
    while i < 56
        invariant
            0 <= i <= 56,
            bytes@.len() == 56,
            out@.len() == 56,
            forall|j: int| 0 <= j < i ==> out@[j] == bytes@[j],
        decreases 56 - i,
    {
        out[i] = bytes[i];
        i = i + 1;
    }
    assert(out@ =~= bytes@);
    Ok(out)
}

impl VisionAuthRequest {
    /// A request for `command` to `address`, stamped with the current time and
    /// sealed with its integrity hash.
    pub fn new(command: Command, address: Address, password_hash_hex: &str) -> (r: Result<Self>)
        ensures
            !valid_password_hex(password_hash_hex@) ==> (r matches Err(e) && e@
                == TrojanErrorView::Protocol("Vision password hash must be 56 hex characters"@)),
            valid_password_hex(password_hash_hex@) && spec_encode_address(address@) is None ==> (
            fails_with(r, TrojanErrorView::Protocol(spec_encode_address_error(address@)))
                || fails_with(r, TrojanErrorView::Protocol("System clock before UNIX_EPOCH"@))),
            valid_password_hex(password_hash_hex@) && spec_encode_address(address@) is Some ==> (
            r is Ok || fails_with(r, TrojanErrorView::Protocol("System clock before UNIX_EPOCH"@))),
            r matches Ok(q) ==> q@ == spec_new_request(
                command,
                address@,
                password_hash_hex@,
                q.timestamp,
            ),
    {
        let password_hash = parse_password_hash(password_hash_hex)?;
        let timestamp = current_unix_timestamp()?;
        Self::assemble(command, address, password_hash, timestamp)
    }

    /// The request `new` builds when the clock reads `timestamp`.
    pub fn new_at(
        command: Command,
        address: Address,
        password_hash_hex: &str,
        timestamp: u64,
    ) -> (r: Result<Self>)
        ensures
            !valid_password_hex(password_hash_hex@) ==> (r matches Err(e) && e@
                == TrojanErrorView::Protocol("Vision password hash must be 56 hex characters"@)),
            valid_password_hex(password_hash_hex@) && spec_encode_address(address@) is None ==> (
            r matches Err(e) && e@ == TrojanErrorView::Protocol(
                spec_encode_address_error(address@),
            )),
            valid_password_hex(password_hash_hex@) && spec_encode_address(address@) is Some ==> (
            r matches Ok(q) && q@ == spec_new_request(
                command,
                address@,
                password_hash_hex@,
                timestamp,
            )),
    {
        let password_hash = parse_password_hash(password_hash_hex)?;
        Self::assemble(command, address, password_hash, timestamp)
    }

    fn assemble(command: Command, address: Address, password_hash: [u8; 56], timestamp: u64) -> (r:
        Result<Self>)
        ensures
            spec_encode_address(address@) is None ==> (r matches Err(e) && e@
                == TrojanErrorView::Protocol(spec_encode_address_error(address@))),
            spec_encode_address(address@) is Some ==> (r matches Ok(q) && q@ == spec_sealed(
                VisionAuthRequestView {
                    magic: 0xFE,
                    version: 0x01,
                    command,
                    address: address@,
                    timestamp,
                    password_hash: password_hash@,
                    integrity_hash: Seq::new(28, |i: int| 0u8),
                },
            )),
    {
        let request = VisionAuthRequest {
            magic: VISION_MAGIC_HEADER,
            version: VISION_VERSION,
            command,
            address,
            timestamp,
            password_hash,
            integrity_hash: [0u8; 28],
        };
        assert(request.integrity_hash@ =~= Seq::new(28, |i: int| 0u8));
        request.with_integrity_hash()
    }

    /// The body the integrity hash covers.
    fn encoded_without_integrity_hash(&self) -> (r: Result<bytes::BytesMut>)
        ensures
            match spec_vision_body(self@) {
                Some(b) => r matches Ok(v) && bytes_mut_contents(v) == b,
                None => r matches Err(e) && e@ == TrojanErrorView::Protocol(
                    spec_encode_address_error(self@.address),
                ),
            },
    {
        let mut buf = bytes_mut_with_capacity(512);
        bytes_mut_put_u8(&mut buf, self.magic);
        bytes_mut_put_u8(&mut buf, self.version);
        bytes_mut_put_u8(&mut buf, self.command.as_u8());
        let addr_bytes = self.address.encode()?;
        bytes_mut_extend(&mut buf, addr_bytes.as_slice());
        bytes_mut_put_u64(&mut buf, self.timestamp);
        bytes_mut_extend(&mut buf, &self.password_hash);
        assert(bytes_mut_contents(buf) =~= spec_vision_body(self@).unwrap());
        Ok(buf)
    }

    /// The SHA-224 of `buf`.
    fn compute_hash(buf: &[u8]) -> (h: [u8; 28])
        ensures
            h@ == spec_sha224(buf@)@,
    {
        sha224(buf)
    }

    /// The request with its integrity hash recomputed.
    fn with_integrity_hash(self) -> (r: Result<Self>)
        ensures
            spec_vision_body(self@) is Some ==> (r matches Ok(q) && q@ == spec_sealed(self@)),
            spec_vision_body(self@) is None ==> (r matches Err(e) && e@
                == TrojanErrorView::Protocol(spec_encode_address_error(self@.address))),
    {
        let base = self.encoded_without_integrity_hash()?;
        let mut this = self;
        this.integrity_hash = Self::compute_hash(bytes_mut_as_slice(&base));
        assert(this@ == spec_sealed(self@));
        Ok(this)
    }

    /// The body followed by the freshly computed integrity hash.
    fn encode_with_integrity_hash(&self) -> (r: Result<bytes::BytesMut>)
        ensures
            match spec_vision_body(self@) {
                Some(b) => r matches Ok(v) && bytes_mut_contents(v) == b + self@.integrity_hash,
                None => r is Err,
            },
    {
        let mut buf = self.encoded_without_integrity_hash()?;
        bytes_mut_extend(&mut buf, &self.integrity_hash);
        Ok(buf)
    }

    /// The wire encoding of this request; the integrity hash sent is computed
    /// afresh from the other fields.
    pub fn encode(&self) -> (r: Result<bytes::BytesMut>)
        ensures
            match spec_vision_encoding(self@) {
                Some(e) => r matches Ok(v) && bytes_mut_contents(v) == e,
                None => r matches Err(e) && e@ == TrojanErrorView::Protocol(
                    spec_encode_address_error(self@.address),
                ),
            },
    {
        let request = self.clone().with_integrity_hash()?;
        request.encode_with_integrity_hash()
    }

    /// Checks that the integrity hash matches the other fields.
    pub fn verify_integrity(&self) -> (r: Result<()>)
        ensures
            match spec_vision_body(self@) {
                None => r matches Err(e) && e@ == TrojanErrorView::Protocol(
                    spec_encode_address_error(self@.address),
                ),
                Some(b) => if self@.integrity_hash == spec_sha224(b)@ {
                    r is Ok
                } else {
                    r matches Err(e) && e@ == TrojanErrorView::Protocol(
                        "Vision integrity check failed"@,
                    )
                },
            },
    {
        let body = self.encoded_without_integrity_hash()?;
        let expected = Self::compute_hash(bytes_mut_as_slice(&body));
        if !bytes_equal(&expected, &self.integrity_hash) {
            return Err(protocol_error("Vision integrity check failed"));
        }
        Ok(())
    }

    /// One decoding step over the bytes of a request received so far from a
    /// stream (before its timestamp and integrity are checked).
    pub fn read_step(buf: &[u8]) -> (r: Result<Progress<Self>>)
        ensures
            step_holds(r, spec_read_vision(buf@)),
            r matches Ok(Progress::NeedMore(k)) ==> k > 0,
    {
        if buf.len() < 1 {
            return Ok(Progress::NeedMore(1));
        }
        let magic = buf[0];
        if magic != VISION_MAGIC_HEADER {
            let mut msg = String::from_str("Invalid Vision magic header: ");
            push_hex_min(&mut msg, magic as u64);
            return Err(TrojanError::Protocol(msg));
        }
        if buf.len() < 2 {
            return Ok(Progress::NeedMore(1));
        }
        let version = buf[1];
        if version != VISION_VERSION {
            let mut msg = String::from_str("Unsupported Vision version: ");
            push_decimal(&mut msg, version as u64);
            return Err(TrojanError::Protocol(msg));
        }
        if buf.len() < 3 {
            return Ok(Progress::NeedMore(1));
        }
        let command = Command::from_u8(buf[2])?;
        let (address, n) = match Address::read_step(&buf[3..buf.len()])? {
            Progress::Done(a, n) => (a, n),
            Progress::NeedMore(k) => return Ok(Progress::NeedMore(k)),
        };
        let p = 3 + n;
        if buf.len() < p + 8 {
            return Ok(Progress::NeedMore(p + 8 - buf.len()));
        }
        let timestamp = u64_from_be(&buf[p..p + 8]);
        if buf.len() < p + 64 {
            return Ok(Progress::NeedMore(p + 64 - buf.len()));
        }
        if !all_hex_digits(&buf[p + 8..p + 64]) {
            return Err(protocol_error("Invalid Vision password hash format"));
        }
        if buf.len() < p + 92 {
            return Ok(Progress::NeedMore(p + 92 - buf.len()));
        }
        let blen = buf.len();
        let mut password_hash = [0u8; 56];
        let mut i: usize = 0;
        while i < 56
            invariant
                0 <= i <= 56,
                blen == buf@.len(),
                p + 92 <= blen,
                password_hash@.len() == 56,
                forall|j: int| 0 <= j < i ==> password_hash@[j] == buf@[p + 8 + j],
            decreases 56 - i,
        {
            password_hash[i] = buf[p + 8 + i];
            i = i + 1;
        }
        let mut integrity_hash = [0u8; 28];
        let mut i: usize = 0;
        while i < 28
            invariant
                0 <= i <= 28,
                blen == buf@.len(),
                p + 92 <= blen,
                integrity_hash@.len() == 28,
                forall|j: int| 0 <= j < i ==> integrity_hash@[j] == buf@[p + 64 + j],
            decreases 28 - i,
        {
            integrity_hash[i] = buf[p + 64 + i];
            i = i + 1;
        }
        assert(password_hash@ =~= buf@.subrange(p + 8, p + 64));
        assert(integrity_hash@ =~= buf@.subrange(p + 64, p + 92));
        assert(buf@.subrange(p as int, p + 8) =~= buf@.subrange(p as int, p + 8));
        Ok(
            Progress::Done(
                VisionAuthRequest {
                    magic,
                    version,
                    command,
                    address,
                    timestamp,
                    password_hash,
                    integrity_hash,
                },
                p + 92,
            ),
        )
    }

    /// Checks a fully received request against the clock reading `now`: the
    /// timestamp must be within five minutes and the integrity hash must match.
    pub fn check_received(&self, now: u64) -> (r: Result<()>)
        ensures
            match spec_check_received(self@, now) {
                Ok(()) => r is Ok,
                Err(e) => r matches Err(x) && x@ == e,
            },
    {
        let d: i128 = now as i128 - self.timestamp as i128;
        if d > VISION_MAX_CLOCK_SKEW || d < -VISION_MAX_CLOCK_SKEW {
            return Err(protocol_error("Timestamp expired"));
        }
        self.verify_integrity()
    }

    /// Checks a fully received request against the current time.
    pub fn check_received_now(&self) -> (r: Result<()>)
        ensures
            r is Ok ==> spec_integrity_ok(self@),
            r matches Err(e) ==> e@ == TrojanErrorView::Protocol("System clock before UNIX_EPOCH"@)
                || exists|now: u64|
                call_ensures(current_unix_timestamp, (), Ok::<u64, TrojanError>(now))
                    && spec_check_received(self@, now) == Err::<(), TrojanErrorView>(e@),
            r is Ok ==> exists|now: u64|
                call_ensures(current_unix_timestamp, (), Ok::<u64, TrojanError>(now))
                    && spec_check_received(self@, now) is Ok,
    {
        let now = current_unix_timestamp()?;
        self.check_received(now)
    }
}

/// Vision authentication settings.
pub struct VisionProtocol {
    auth_timeout: std::time::Duration,
}

/// The client's password hash is among the configured ones (ASCII case ignored).
pub open spec fn vision_password_accepted(passwords: Seq<String>, hash: Seq<u8>) -> bool {
    exists|i: int|
        0 <= i < passwords.len() && #[trigger] eq_ignore_ascii_case(
            encode_utf8(passwords[i]@),
            hash,
        )
}

impl VisionProtocol {
    /// Settings with the time allowed for a client to send its request.
    pub fn new(auth_timeout: std::time::Duration) -> (r: Self)
        ensures
            r.auth_timeout() == auth_timeout,
    {
        VisionProtocol { auth_timeout }
    }

    /// The time allowed for a client to send its request.
    pub closed spec fn auth_timeout(&self) -> std::time::Duration {
        self.auth_timeout
    }

    /// The time allowed for a client to send its request.
    pub fn timeout(&self) -> (d: std::time::Duration)
        ensures
            d == self.auth_timeout(),
    {
        self.auth_timeout
    }

    /// Decides a received and checked request: the command and target when its
    /// password hash is configured, an authentication failure otherwise.
    pub fn authorize(&self, request: &VisionAuthRequest, valid_passwords: &[String]) -> (r: Result<
        (Command, Address),
    >)
        ensures
            !valid_utf8(request.password_hash@) ==> (r matches Err(e) && e@
                == TrojanErrorView::Protocol("Invalid Vision password hash encoding"@)),
            valid_utf8(request.password_hash@) && !vision_password_accepted(
                valid_passwords@,
                request.password_hash@,
            ) ==> (r matches Err(e) && e@ == TrojanErrorView::AuthenticationFailed),
            valid_utf8(request.password_hash@) && vision_password_accepted(
                valid_passwords@,
                request.password_hash@,
            ) ==> (r matches Ok((c, a)) && c == request.command && a@ == request.address@),
    {
        match utf8_to_string(&request.password_hash) {
            Some(_) => {},
            None => return Err(protocol_error("Invalid Vision password hash encoding")),
        }
        let mut i: usize = 0;
        while i < valid_passwords.len()
            invariant
                0 <= i <= valid_passwords@.len(),
                valid_utf8(request.password_hash@),
                forall|j: int|
                    0 <= j < i ==> !#[trigger] eq_ignore_ascii_case(
                        encode_utf8(valid_passwords@[j]@),
                        request.password_hash@,
                    ),
            decreases valid_passwords@.len() - i,
        {
            let candidate = valid_passwords[i].as_str().as_bytes();
            if bytes_eq_ignore_ascii_case(candidate, &request.password_hash) {
                return Ok((request.command, request.address.clone()));
            }
            i = i + 1;
        }
        Err(TrojanError::AuthenticationFailed)
    }

    /// Whether data starts like a Vision request (magic byte and version).
    pub fn is_vision_packet(data: &[u8]) -> (r: bool)
        ensures
            r == (data@.len() >= 2 && data@[0] == VISION_MAGIC_HEADER && data@[1] == VISION_VERSION),
    {
        data.len() >= 2 && data[0] == VISION_MAGIC_HEADER && data[1] == VISION_VERSION
    }
}

/// A request a client encodes is decoded by the server, whatever follows it on
/// the stream, as the same request sealed with its integrity hash; that request
/// passes the server's check exactly when the clocks agree within five minutes.
#[verifier::rlimit(50)]
pub proof fn lemma_vision_roundtrip(q: VisionAuthRequest, rest: Seq<u8>, now: u64)
    requires
        q.magic == VISION_MAGIC_HEADER,
        q.version == VISION_VERSION,
        all_hex(q.password_hash@),
        spec_encode_address(q.address@) is Some,
    ensures
        spec_read_vision(spec_vision_encoding(q@).unwrap() + rest) == Step::Done(
            spec_sealed(q@),
            spec_vision_encoding(q@).unwrap().len(),
        ),
        spec_integrity_ok(spec_sealed(q@)),
        spec_check_received(spec_sealed(q@), now) is Ok <==> !timestamp_expired(now, q.timestamp),
{
    broadcast use vstd::utf8::encode_utf8_valid_utf8;

    let a = spec_encode_address(q.address@).unwrap();
    let body = spec_vision_body(q@).unwrap();
    let h = spec_sha224(body)@;
    let enc = body + h;
    let buf = enc + rest;
    let tail = buf.subrange(3, buf.len() as int);
    let after = be64(q.timestamp) + q.password_hash@ + h + rest;
    assert(tail =~= a + after);
    lemma_address_encode_then_parse(q.address, after);
    if let Address::Domain(d, _) = q.address {
        let b = encode_utf8(d@);
        assert(tail.subrange(2, tail[1] + 2) =~= b);
    }
    let p = 3 + a.len() as int;
    lemma_be64_roundtrip(q.timestamp);
    assert(buf.subrange(p, p + 8) =~= be64(q.timestamp));
    assert(buf.subrange(p + 8, p + 64) =~= q.password_hash@);
    assert(buf.subrange(p + 64, p + 92) =~= h);
    assert(spec_vision_body(spec_sealed(q@)) == Some(body));
}

/// While only part of a request's encoding has arrived from a stream, decoding
/// asks for more bytes, and never for more than the rest of the request:
/// reading exactly what it asks for leaves the data after the request in the
/// stream.
pub proof fn lemma_vision_read_no_overread(q: VisionAuthRequest, p: Seq<u8>)
    requires
        q.magic == VISION_MAGIC_HEADER,
        q.version == VISION_VERSION,
        all_hex(q.password_hash@),
        spec_encode_address(q.address@) is Some,
        p.len() < spec_vision_encoding(q@).unwrap().len(),
        p == spec_vision_encoding(q@).unwrap().subrange(0, p.len() as int),
    ensures
        spec_read_vision(p) matches Step::NeedMore(k) && k > 0 && p.len() + k
            <= spec_vision_encoding(q@).unwrap().len(),
{
    let a = spec_encode_address(q.address@).unwrap();
    let body = spec_vision_body(q@).unwrap();
    let e = spec_vision_encoding(q@).unwrap();
    assert(e.len() == 95 + a.len());
    if p.len() >= 3 {
        assert(p[0] == e[0] && p[1] == e[1] && p[2] == e[2]);
        let t = p.subrange(3, p.len() as int);
        if t.len() < a.len() {
            assert(t =~= a.subrange(0, t.len() as int));
            lemma_address_read_no_overread(q.address, t);
        } else {
            let r = t.subrange(a.len() as int, t.len() as int);
            assert(t =~= a + r);
            lemma_address_encode_then_read(q.address, r);
            let o = 3 + a.len() as int;
            if p.len() >= o + 64 {
                assert(p.subrange(o + 8, o + 64) =~= q.password_hash@);
            }
        }
    } else if p.len() >= 1 {
        assert(p[0] == e[0]);
        if p.len() >= 2 {
            assert(p[1] == e[1]);
        }
    }
}

/// A request whose integrity hash is not the SHA-224 of its body (or whose
/// address cannot be encoded) is refused, whatever the time.
pub proof fn lemma_vision_tampered_refused(r: VisionAuthRequestView, now: u64)
    requires
        !spec_integrity_ok(r),
    ensures
        spec_check_received(r, now) is Err,
{
}

/// A received request passes its check at time `now` exactly when the clock
/// and its timestamp are at most 300 seconds apart, either way, and its
/// integrity hash is the SHA-224 of its body.
pub proof fn lemma_check_received_window(r: VisionAuthRequestView, now: u64)
    ensures
        spec_check_received(r, now) is Ok <==> (now - r.timestamp <= 300 && r.timestamp - now <= 300
            && spec_integrity_ok(r)),
{
}

} // verus!
