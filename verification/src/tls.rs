use vstd::prelude::*;

use crate::error::{Result, TrojanError, TrojanErrorView};
use crate::pem::{
    collect_cert_items, collect_certs, pem_cert_items, pem_private_key, spec_pem_cert_items,
    spec_pem_private_key, KeyFormat,
};

verus! {

/// The certificate chain the TLS server loads from the PEM bytes of its
/// certificate file: all certificates, in order; the first unreadable section
/// refuses the file, and so does a file with no certificate.
pub open spec fn spec_load_certs(pem: Seq<u8>) -> std::result::Result<Seq<Seq<u8>>, TrojanErrorView> {
    match collect_certs(spec_pem_cert_items(pem)) {
        Err(m) => Err(TrojanErrorView::Tls("Failed to parse certificate chain: "@ + m)),
        Ok(cs) => if cs.len() == 0 {
            Err(TrojanErrorView::Tls("No certificates found in file"@))
        } else {
            Ok(cs)
        },
    }
}

/// The private key the TLS server loads from the PEM bytes of its key file:
/// the first key in it.
pub open spec fn spec_load_key(pem: Seq<u8>) -> std::result::Result<(KeyFormat, Seq<u8>), TrojanErrorView> {
    match spec_pem_private_key(pem) {
        Err(m) => Err(TrojanErrorView::Tls("Failed to parse private key: "@ + m)),
        Ok(None) => Err(TrojanErrorView::Tls("No private key found in file"@)),
        Ok(Some(k)) => Ok(k),
    }
}

/// Loads the certificate chain (DER bytes of each certificate) from the PEM
/// bytes of the certificate file.
pub fn load_certs(pem: &[u8]) -> (r: Result<Vec<Vec<u8>>>)
    ensures
        match spec_load_certs(pem@) {
            Ok(cs) => r matches Ok(v) && v.deep_view() == cs,
            Err(e) => r matches Err(x) && x@ == e,
        },
{
    let items = pem_cert_items(pem);
    proof {
        assert(items@.map_values(|x| crate::pem::pem_item_view(x)) =~= spec_pem_cert_items(pem@));
    }
    match collect_cert_items(&items) {
        Err(m) => {
            let mut msg = String::from_str("Failed to parse certificate chain: ");
            msg.append(m.as_str());
            Err(TrojanError::Tls(msg))
        },
        Ok(certs) => {
            if certs.len() == 0 {
                Err(TrojanError::Tls(String::from_str("No certificates found in file")))
            } else {
                Ok(certs)
            }
        },
    }
}

/// Loads the private key (its format and DER bytes) from the PEM bytes of the
/// key file.
pub fn load_key(pem: &[u8]) -> (r: Result<(KeyFormat, Vec<u8>)>)
    ensures
        match spec_load_key(pem@) {
            Ok((f, der)) => r matches Ok((g, v)) && g == f && v@ == der,
            Err(e) => r matches Err(x) && x@ == e,
        },
{
    match pem_private_key(pem) {
        Err(m) => {
            let mut msg = String::from_str("Failed to parse private key: ");
            msg.append(m.as_str());
            Err(TrojanError::Tls(msg))
        },
        Ok(None) => Err(TrojanError::Tls(String::from_str("No private key found in file"))),
        Ok(Some(k)) => Ok(k),
    }
}

} // verus!
