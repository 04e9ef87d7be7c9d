use vstd::prelude::*;
use vstd::utf8::encode_utf8;

use crate::error::{config_error, Result, TrojanError, TrojanErrorView};
use crate::protocol::codec::{all_hex, all_hex_digits, is_hex_digit};

verus! {

/// Server settings.
#[derive(Debug)]
pub struct Config {
    pub bind_addr: String,
    pub tls_cert: String,
    pub tls_key: String,
    pub passwords: Vec<String>,
    pub udp_bind_addr: String,
    pub log_level: String,
    pub tcp_timeout: u64,
    pub udp_timeout: u64,
    pub max_connections: usize,
    /// Where connections that fail the protocol or authentication are relayed
    /// unchanged (usually a local web server).
    pub fallback_addr: String,
}

/// A copy of a list of strings.
fn clone_strings(v: &Vec<String>) -> (r: Vec<String>)
    ensures
        r@.len() == v@.len(),
        forall|i: int| 0 <= i < v@.len() ==> #[trigger] r@[i]@ == v@[i]@,
{
    let mut r: Vec<String> = Vec::new();
    let mut i: usize = 0;
    while i < v.len()
        invariant
            0 <= i <= v@.len(),
            r@.len() == i,
            forall|j: int| 0 <= j < i ==> #[trigger] r@[j]@ == v@[j]@,
        decreases v@.len() - i,
    {
        r.push(v[i].clone());
        i = i + 1;
    }
    r
}

impl Clone for Config {
    fn clone(&self) -> (r: Self)
        ensures
            r.bind_addr@ == self.bind_addr@,
            r.tls_cert@ == self.tls_cert@,
            r.tls_key@ == self.tls_key@,
            r.passwords@.len() == self.passwords@.len(),
            forall|i: int|
                0 <= i < self.passwords@.len() ==> #[trigger] r.passwords@[i]@
                    == self.passwords@[i]@,
            r.udp_bind_addr@ == self.udp_bind_addr@,
            r.log_level@ == self.log_level@,
            r.tcp_timeout == self.tcp_timeout,
            r.udp_timeout == self.udp_timeout,
            r.max_connections == self.max_connections,
            r.fallback_addr@ == self.fallback_addr@,
    {
        Config {
            bind_addr: self.bind_addr.clone(),
            tls_cert: self.tls_cert.clone(),
            tls_key: self.tls_key.clone(),
            passwords: clone_strings(&self.passwords),
            udp_bind_addr: self.udp_bind_addr.clone(),
            log_level: self.log_level.clone(),
            tcp_timeout: self.tcp_timeout,
            udp_timeout: self.udp_timeout,
            max_connections: self.max_connections,
            fallback_addr: self.fallback_addr.clone(),
        }
    }
}

/// Default TCP listen address.
pub fn default_bind_addr() -> (s: String)
    ensures
        s@ == "0.0.0.0:443"@,
{
    String::from_str("0.0.0.0:443")
}

/// Default log level.
pub fn default_log_level() -> (s: String)
    ensures
        s@ == "info"@,
{
    String::from_str("info")
}

/// Default TCP timeout in seconds.
pub fn default_tcp_timeout() -> (t: u64)
    ensures
        t == 300,
{
    300
}

/// Default UDP idle timeout in seconds.
pub fn default_udp_timeout() -> (t: u64)
    ensures
        t == 60,
{
    60
}

/// Default local address of the UDP relay socket.
pub fn default_udp_bind_addr() -> (s: String)
    ensures
        s@ == "0.0.0.0:0"@,
{
    String::from_str("0.0.0.0:0")
}

/// Default limit on concurrent connections.
pub fn default_max_connections() -> (n: usize)
    ensures
        n == 1024,
{
    1024
}

/// Default fallback backend.
pub fn default_fallback_addr() -> (s: String)
    ensures
        s@ == "127.0.0.1:80"@,
{
    String::from_str("127.0.0.1:80")
}

/// A configured password: the 56 hexadecimal characters of a SHA-224 digest.
pub open spec fn is_sha224_hex(p: Seq<char>) -> bool {
    encode_utf8(p).len() == 56 && all_hex(encode_utf8(p))
}

/// The outcome of validating a configuration, given whether the certificate
/// and key files exist and whether the UDP bind address parses as a socket
/// address.
pub open spec fn spec_validate(
    c: Config,
    cert_exists: bool,
    key_exists: bool,
    udp_bind_addr_parses: bool,
) -> std::result::Result<(), TrojanErrorView> {
    if c.passwords@.len() == 0 {
        Err(TrojanErrorView::Config("At least one password must be configured"@))
    } else if !cert_exists {
        Err(TrojanErrorView::Config("TLS certificate file not found: "@ + c.tls_cert@))
    } else if !key_exists {
        Err(TrojanErrorView::Config("TLS key file not found: "@ + c.tls_key@))
    } else if !(forall|i: int| 0 <= i < c.passwords@.len() ==> #[trigger] is_sha224_hex(c.passwords@[i]@)) {
        Err(TrojanErrorView::Config("All passwords must be SHA-224 hex strings (56 hex chars)"@))
    } else if !udp_bind_addr_parses {
        Err(TrojanErrorView::Config("Invalid udp_bind_addr socket address: "@ + c.udp_bind_addr@))
    } else {
        Ok(())
    }
}

impl Config {
    /// Validates the settings: at least one password, existing certificate and
    /// key files, passwords given as SHA-224 hex, a parsable UDP bind address.
    /// The file checks and the address parse are the caller's observations.
    pub fn validate(&self, cert_exists: bool, key_exists: bool, udp_bind_addr_parses: bool) -> (r:
        Result<()>)
        ensures
            match spec_validate(*self, cert_exists, key_exists, udp_bind_addr_parses) {
                Ok(()) => r is Ok,
                Err(e) => r matches Err(x) && x@ == e,
            },
    {
        if self.passwords.len() == 0 {
            return Err(config_error(String::from_str("At least one password must be configured")));
        }
        if !cert_exists {
            let mut msg = String::from_str("TLS certificate file not found: ");
            msg.append(self.tls_cert.as_str());
            return Err(config_error(msg));
        }
        if !key_exists {
            let mut msg = String::from_str("TLS key file not found: ");
            msg.append(self.tls_key.as_str());
            return Err(config_error(msg));
        }
        let mut i: usize = 0;
        while i < self.passwords.len()
            invariant
                0 <= i <= self.passwords@.len(),
                self.passwords@.len() > 0,
                cert_exists,
                key_exists,
                forall|j: int| 0 <= j < i ==> #[trigger] is_sha224_hex(self.passwords@[j]@),
            decreases self.passwords@.len() - i,
        {
            let p = self.passwords[i].as_str().as_bytes();
            if p.len() != 56 || !all_hex_digits(p) {
                assert(!is_sha224_hex(self.passwords@[i as int]@));
                return Err(
                    config_error(
                        String::from_str("All passwords must be SHA-224 hex strings (56 hex chars)"),
                    ),
                );
            }
            i = i + 1;
        }
        if !udp_bind_addr_parses {
            let mut msg = String::from_str("Invalid udp_bind_addr socket address: ");
            msg.append(self.udp_bind_addr.as_str());
            return Err(config_error(msg));
        }
        Ok(())
    }
}

/// Validation succeeds exactly when at least one password is configured, the
/// certificate and key files exist, the UDP bind address parses, and every
/// password is 56 bytes long, each an ASCII hexadecimal digit (`0`-`9`,
/// `A`-`F`, `a`-`f`) — the hex form of a SHA-224 digest.
pub proof fn lemma_validate_accepts_exactly_sha224_hex(
    c: Config,
    cert_exists: bool,
    key_exists: bool,
    udp_bind_addr_parses: bool,
)
    ensures
        spec_validate(c, cert_exists, key_exists, udp_bind_addr_parses) is Ok <==> {
            &&& c.passwords@.len() > 0
            &&& cert_exists
            &&& key_exists
            &&& udp_bind_addr_parses
            &&& forall|k: int|
                0 <= k < c.passwords@.len() ==> {
                    let p = encode_utf8(#[trigger] c.passwords@[k]@);
                    &&& p.len() == 56
                    &&& forall|j: int|
                        0 <= j < 56 ==> {
                            let b = #[trigger] p[j];
                            (0x30 <= b <= 0x39) || (0x41 <= b <= 0x46) || (0x61 <= b <= 0x66)
                        }
                }
        },
{
    let ps = c.passwords@;
    assert forall|k: int| 0 <= k < ps.len() implies #[trigger] is_sha224_hex(ps[k]@) == {
        let p = encode_utf8(ps[k]@);
        &&& p.len() == 56
        &&& forall|j: int|
            0 <= j < 56 ==> {
                let b = #[trigger] p[j];
                (0x30 <= b <= 0x39) || (0x41 <= b <= 0x46) || (0x61 <= b <= 0x66)
            }
    } by {
        let p = encode_utf8(ps[k]@);
        if p.len() == 56 && all_hex(p) {
            assert forall|j: int| 0 <= j < 56 implies {
                let b = #[trigger] p[j];
                (0x30 <= b <= 0x39) || (0x41 <= b <= 0x46) || (0x61 <= b <= 0x66)
            } by {
                assert(is_hex_digit(p[j]));
            }
        }
        if p.len() == 56 && forall|j: int|
            0 <= j < 56 ==> {
                let b = #[trigger] p[j];
                (0x30 <= b <= 0x39) || (0x41 <= b <= 0x46) || (0x61 <= b <= 0x66)
            } {
            assert forall|j: int| 0 <= j < p.len() implies #[trigger] is_hex_digit(p[j]) by {
                let b = p[j];
            }
        }
    }
    let explicit = forall|k: int|
        0 <= k < ps.len() ==> {
            let p = encode_utf8(#[trigger] ps[k]@);
            &&& p.len() == 56
            &&& forall|j: int|
                0 <= j < 56 ==> {
                    let b = #[trigger] p[j];
                    (0x30 <= b <= 0x39) || (0x41 <= b <= 0x46) || (0x61 <= b <= 0x66)
                }
        };
    let named = forall|k: int| 0 <= k < ps.len() ==> #[trigger] is_sha224_hex(ps[k]@);
    if named {
        assert forall|k: int| 0 <= k < ps.len() implies {
            let p = encode_utf8(#[trigger] ps[k]@);
            &&& p.len() == 56
            &&& forall|j: int|
                0 <= j < 56 ==> {
                    let b = #[trigger] p[j];
                    (0x30 <= b <= 0x39) || (0x41 <= b <= 0x46) || (0x61 <= b <= 0x66)
                }
        } by {
            assert(is_sha224_hex(ps[k]@));
        }
    }
    if explicit {
        assert forall|k: int| 0 <= k < ps.len() implies #[trigger] is_sha224_hex(ps[k]@) by {
            let p = encode_utf8(ps[k]@);
            assert(p == encode_utf8(ps[k]@));
        }
    }
    assert(named == explicit);
}

} // verus!
