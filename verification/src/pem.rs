use vstd::prelude::*;

verus! {

/// The encoding of a private key found in a PEM file.
#[derive(Debug, Clone, Copy, PartialEq, Eq, Structural)]
pub enum KeyFormat {
    /// "RSA PRIVATE KEY" (PKCS #1).
    Pkcs1,
    /// "EC PRIVATE KEY" (SEC1).
    Sec1,
    /// "PRIVATE KEY" (PKCS #8).
    Pkcs8,
}

/// One certificate section read from a PEM file: its DER bytes, or the text of
/// the error met while reading it.
pub open spec fn pem_item_view(item: std::result::Result<Vec<u8>, String>) -> std::result::Result<
    Seq<u8>,
    Seq<char>,
> {
    match item {
        Ok(der) => Ok(der@),
        Err(msg) => Err(msg@),
    }
}

/// The first private key read from a PEM file: its format and DER bytes,
/// `None` when the file holds none, or the text of the error met first.
pub open spec fn pem_key_view(r: std::result::Result<Option<(KeyFormat, Vec<u8>)>, String>) -> std::result::Result<
    Option<(KeyFormat, Seq<u8>)>,
    Seq<char>,
> {
    match r {
        Ok(Some((f, der))) => Ok(Some((f, der@))),
        Ok(None) => Ok(None),
        Err(msg) => Err(msg@),
    }
}

/// The certificate sections, in order, that `rustls_pemfile::certs` yields
/// for the PEM bytes `pem`, each as DER bytes or as the text of its error.
pub uninterp spec fn spec_pem_cert_items(pem: Seq<u8>) -> Seq<std::result::Result<Seq<u8>, Seq<char>>>;

/// What `rustls_pemfile::private_key` gives for the PEM bytes `pem`.
pub uninterp spec fn spec_pem_private_key(pem: Seq<u8>) -> std::result::Result<
    Option<(KeyFormat, Seq<u8>)>,
    Seq<char>,
>;

/// Every item `rustls_pemfile::certs` yields for the PEM bytes, each
/// certificate as its DER bytes and each error as its text. The contract
/// names the list `spec_pem_cert_items` and states nothing else about it.
#[verifier::external_body]
pub(crate) fn pem_cert_items(pem: &[u8]) -> (r: Vec<std::result::Result<Vec<u8>, String>>)
    ensures
        r@.len() == spec_pem_cert_items(pem@).len(),
        forall|i: int| 0 <= i < r@.len() ==> pem_item_view(#[trigger] r@[i]) == spec_pem_cert_items(pem@)[i],
{
    let mut rd: &[u8] = pem;
    let mut items = Vec::new();
    for item in rustls_pemfile::certs(&mut rd) {
        items.push(match item {
            Ok(cert) => Ok(cert.to_vec()),
            Err(e) => Err(e.to_string()),
        });
    }
    items
}

/// The first private key in the PEM bytes (`rustls_pemfile::private_key`),
/// with its format and DER bytes, `None` when there is none, or the text of
/// the error met first. `PrivateKeyDer` has exactly the three variants
/// `Pkcs1`, `Sec1` and `Pkcs8` in the version used, so the last arm is
/// `Pkcs8`. The contract names the result `spec_pem_private_key`.
#[verifier::external_body]
pub(crate) fn pem_private_key(pem: &[u8]) -> (r: std::result::Result<Option<(KeyFormat, Vec<u8>)>, String>)
    ensures
        pem_key_view(r) == spec_pem_private_key(pem@),
{
    let mut rd: &[u8] = pem;
    match rustls_pemfile::private_key(&mut rd) {
        Ok(Some(rustls::pki_types::PrivateKeyDer::Pkcs1(k))) => Ok(Some((KeyFormat::Pkcs1, k.secret_pkcs1_der().to_vec()))),
        Ok(Some(rustls::pki_types::PrivateKeyDer::Sec1(k))) => Ok(Some((KeyFormat::Sec1, k.secret_sec1_der().to_vec()))),
        Ok(Some(k)) => Ok(Some((KeyFormat::Pkcs8, k.secret_der().to_vec()))),
        Ok(None) => Ok(None),
        Err(e) => Err(e.to_string()),
    }
}

/// Collecting certificate sections stops at the first error, as collecting
/// an iterator of results into a result does: the DER bytes of all sections,
/// or the text of the first error.
pub open spec fn collect_certs(items: Seq<std::result::Result<Seq<u8>, Seq<char>>>) -> std::result::Result<
    Seq<Seq<u8>>,
    Seq<char>,
>
    decreases items.len(),
{
    if items.len() == 0 {
        Ok(Seq::empty())
    } else {
        match collect_certs(items.drop_last()) {
            Err(m) => Err(m),
            Ok(v) => match items.last() {
                Ok(d) => Ok(v.push(d)),
                Err(m) => Err(m),
            },
        }
    }
}

/// The DER bytes of the sections that were read without error, in order.
pub open spec fn readable_certs(items: Seq<std::result::Result<Seq<u8>, Seq<char>>>) -> Seq<Seq<u8>>
    decreases items.len(),
{
    if items.len() == 0 {
        Seq::empty()
    } else {
        match items.last() {
            Ok(d) => readable_certs(items.drop_last()).push(d),
            Err(_) => readable_certs(items.drop_last()),
        }
    }
}

/// Collects the certificates of the items, stopping at the first error.
pub(crate) fn collect_cert_items(items: &Vec<std::result::Result<Vec<u8>, String>>) -> (r: std::result::Result<Vec<Vec<u8>>, String>)
    ensures
        match collect_certs(items@.map_values(|x| pem_item_view(x))) {
            Ok(v) => r matches Ok(c) && c.deep_view() == v,
            Err(m) => r matches Err(x) && x@ == m,
        },
{
    let ghost s = items@.map_values(|x| pem_item_view(x));
    let mut out: Vec<Vec<u8>> = Vec::new();
    let mut i: usize = 0;
    assert(s.take(0) =~= Seq::<std::result::Result<Seq<u8>, Seq<char>>>::empty());
    assert(out.deep_view() =~= Seq::<Seq<u8>>::empty());
    while i < items.len()
        invariant
            0 <= i <= items@.len(),
            s == items@.map_values(|x| pem_item_view(x)),
            collect_certs(s.take(i as int)) == Ok::<Seq<Seq<u8>>, Seq<char>>(out.deep_view()),
        decreases items@.len() - i,
    {
        assert(s.take(i + 1).drop_last() =~= s.take(i as int));
        match &items[i] {
            Ok(der) => {
                let ghost before = out.deep_view();
                let c = der.clone();
                assert(c@ =~= der@);
                assert(c.deep_view() =~= der@);
                out.push(c);
                assert(out.deep_view() =~= before.push(der@));
            },
            Err(msg) => {
                let m = msg.clone();
                proof {
                    assert(collect_certs(s.take(i + 1)) == Err::<Seq<Seq<u8>>, Seq<char>>(msg@));
                    lemma_collect_certs_error_stays(s, i as int + 1);
                    assert(s.take(s.len() as int) =~= s);
                }
                return Err(m);
            },
        }
        i = i + 1;
    }
    assert(s.take(i as int) =~= s);
    Ok(out)
}

/// Once collecting a prefix of the items has met an error, collecting any
/// longer prefix gives the same error.
pub proof fn lemma_collect_certs_error_stays(s: Seq<std::result::Result<Seq<u8>, Seq<char>>>, k: int)
    requires
        0 <= k <= s.len(),
        collect_certs(s.take(k)) is Err,
    ensures
        collect_certs(s) == collect_certs(s.take(k)),
    decreases s.len() - k,
{
    if k < s.len() {
        assert(s.take(k + 1).drop_last() =~= s.take(k));
        lemma_collect_certs_error_stays(s, k + 1);
    } else {
        assert(s.take(k) =~= s);
    }
}

/// The certificates of the items that were read without error.
pub(crate) fn readable_cert_items(items: &Vec<std::result::Result<Vec<u8>, String>>) -> (r: Vec<Vec<u8>>)
    ensures
        r.deep_view() == readable_certs(items@.map_values(|x| pem_item_view(x))),
{
    let ghost s = items@.map_values(|x| pem_item_view(x));
    let mut out: Vec<Vec<u8>> = Vec::new();
    let mut i: usize = 0;
    assert(s.take(0) =~= Seq::<std::result::Result<Seq<u8>, Seq<char>>>::empty());
    assert(out.deep_view() =~= Seq::<Seq<u8>>::empty());
    while i < items.len()
        invariant
            0 <= i <= items@.len(),
            s == items@.map_values(|x| pem_item_view(x)),
            readable_certs(s.take(i as int)) == out.deep_view(),
        decreases items@.len() - i,
    {
        assert(s.take(i + 1).drop_last() =~= s.take(i as int));
        match &items[i] {
            Ok(der) => {
                let ghost before = out.deep_view();
                let c = der.clone();
                assert(c@ =~= der@);
                assert(c.deep_view() =~= der@);
                out.push(c);
                assert(out.deep_view() =~= before.push(der@));
            },
            Err(_) => {},
        }
        i = i + 1;
    }
    assert(s.take(i as int) =~= s);
    out
}

/// Collecting certificate sections keeps every section when none failed: the
/// chain has one certificate per section, in the order of the file; when some
/// section failed, the error is that of the first failed section.
pub proof fn lemma_collect_certs_keeps_all(items: Seq<std::result::Result<Seq<u8>, Seq<char>>>)
    ensures
        (forall|i: int| 0 <= i < items.len() ==> (#[trigger] items[i]) is Ok) ==> (collect_certs(
            items,
        ) matches Ok(v) && v.len() == items.len() && forall|i: int|
            0 <= i < items.len() ==> items[i] == Ok::<Seq<u8>, Seq<char>>(#[trigger] v[i])),
        forall|k: int|
            0 <= k < items.len() && (#[trigger] items[k]) is Err && (forall|i: int|
                0 <= i < k ==> (#[trigger] items[i]) is Ok) ==> collect_certs(items) == Err::<
                Seq<Seq<u8>>,
                Seq<char>,
            >(items[k]->Err_0),
    decreases items.len(),
{
    if items.len() > 0 {
        let init = items.drop_last();
        lemma_collect_certs_keeps_all(init);
        if forall|i: int| 0 <= i < items.len() ==> (#[trigger] items[i]) is Ok {
            assert forall|i: int| 0 <= i < init.len() implies (#[trigger] init[i]) is Ok by {
                assert(init[i] == items[i]);
            }
            assert(items.last() == items[items.len() - 1]);
            let v = collect_certs(init)->Ok_0;
            assert forall|i: int| 0 <= i < items.len() implies items[i] == Ok::<Seq<u8>, Seq<char>>(
                #[trigger] v.push(items.last()->Ok_0)[i],
            ) by {
                if i < init.len() {
                    assert(init[i] == items[i]);
                    assert(items[i] == Ok::<Seq<u8>, Seq<char>>(v[i]));
                }
            }
        }
        assert forall|k: int|
            0 <= k < items.len() && (#[trigger] items[k]) is Err && (forall|i: int|
                0 <= i < k ==> (#[trigger] items[i]) is Ok) implies collect_certs(items) == Err::<
            Seq<Seq<u8>>,
            Seq<char>,
        >(items[k]->Err_0) by {
            if k < init.len() {
                assert(init[k] == items[k]);
                assert forall|i: int| 0 <= i < k implies (#[trigger] init[i]) is Ok by {
                    assert(init[i] == items[i]);
                }
            } else {
                assert forall|i: int| 0 <= i < init.len() implies (#[trigger] init[i]) is Ok by {
                    assert(init[i] == items[i]);
                }
                assert(items.last() == items[k]);
            }
        }
    }
}

/// The certificates read while skipping unreadable sections are exactly the
/// readable sections, in the order of the file.
pub proof fn lemma_readable_certs_are_the_readable_sections(
    items: Seq<std::result::Result<Seq<u8>, Seq<char>>>,
)
    ensures
        readable_certs(items) == items.filter(|x: std::result::Result<Seq<u8>, Seq<char>>| x is Ok).map_values(
            |x: std::result::Result<Seq<u8>, Seq<char>>| x->Ok_0,
        ),
    decreases items.len(),
{
    reveal_with_fuel(Seq::filter, 1);
    if items.len() > 0 {
        lemma_readable_certs_are_the_readable_sections(items.drop_last());
        let f = items.drop_last().filter(|x: std::result::Result<Seq<u8>, Seq<char>>| x is Ok);
        assert(f.push(items.last()).map_values(|x: std::result::Result<Seq<u8>, Seq<char>>| x->Ok_0)
            =~= f.map_values(|x: std::result::Result<Seq<u8>, Seq<char>>| x->Ok_0).push(items.last()->Ok_0));
    } else {
        assert(items.filter(|x: std::result::Result<Seq<u8>, Seq<char>>| x is Ok) =~= Seq::empty());
        assert(items.filter(|x: std::result::Result<Seq<u8>, Seq<char>>| x is Ok).map_values(
            |x: std::result::Result<Seq<u8>, Seq<char>>| x->Ok_0,
        ) =~= Seq::empty());
    }
}

} // verus!
