use vstd::prelude::*;

use crate::error::{Result, TrojanError, TrojanErrorView};
use crate::pem::{
    pem_cert_items, pem_private_key, readable_cert_items, readable_certs, spec_pem_cert_items,
    spec_pem_private_key, KeyFormat,
};

verus! {

/// The certificate chain a Vision server loads from the PEM bytes of its
/// certificate file: the certificates that read without error, in order
/// (unreadable sections are skipped); a file with none is refused.
pub open spec fn spec_load_certs(pem: Seq<u8>) -> std::result::Result<Seq<Seq<u8>>, TrojanErrorView> {
    if readable_certs(spec_pem_cert_items(pem)).len() == 0 {
        Err(TrojanErrorView::Tls("No certificates found"@))
    } else {
        Ok(readable_certs(spec_pem_cert_items(pem)))
    }
}

/// The private key a Vision server loads from the PEM bytes of its key file:
/// the first key in it.
pub open spec fn spec_load_private_key(pem: Seq<u8>) -> std::result::Result<
    (KeyFormat, Seq<u8>),
    TrojanErrorView,
> {
    match spec_pem_private_key(pem) {
        Err(m) => Err(TrojanErrorView::Tls("Failed to parse key: "@ + m)),
        Ok(None) => Err(TrojanErrorView::Tls("No private key found"@)),
        Ok(Some(k)) => Ok(k),
    }
}

/// Loads the certificate chain (DER bytes of each certificate) from the PEM
/// bytes of the certificate file, skipping unreadable sections.
pub fn load_certs(pem: &[u8]) -> (r: Result<Vec<Vec<u8>>>)
    ensures
        match spec_load_certs(pem@) {
            Ok(cs) => r matches Ok(v) && v.deep_view() == cs,
            Err(e) => r matches Err(x) && x@ == e,
        },
{
    let items = pem_cert_items(pem);
    proof {
        assert(items@.map_values(|x| crate::pem::pem_item_view(x)) =~= spec_pem_cert_items(pem@));
    }
    let certs = readable_cert_items(&items);
    if certs.len() == 0 {
        Err(TrojanError::Tls(String::from_str("No certificates found")))
    } else {
        Ok(certs)
    }
}

/// Loads the private key (its format and DER bytes) from the PEM bytes of the
/// key file.
pub fn load_private_key(pem: &[u8]) -> (r: Result<(KeyFormat, Vec<u8>)>)
    ensures
        match spec_load_private_key(pem@) {
            Ok((f, der)) => r matches Ok((g, v)) && g == f && v@ == der,
            Err(e) => r matches Err(x) && x@ == e,
        },
{
    match pem_private_key(pem) {
        Err(m) => {
            let mut msg = String::from_str("Failed to parse key: ");
            msg.append(m.as_str());
            Err(TrojanError::Tls(msg))
        },
        Ok(None) => Err(TrojanError::Tls(String::from_str("No private key found"))),
        Ok(Some(k)) => Ok(k),
    }
}

} // verus!
