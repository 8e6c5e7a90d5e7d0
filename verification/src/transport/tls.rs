//! TLS setup: what the broker's certificate is verified against, and the client's own certificate
//! for mutual TLS.

use crate::cli::ConnectionArgs;
use crate::error::{Error, ErrorView};
use crate::publish;
use crate::text;
use vstd::prelude::*;

verus! {

/// What the broker's certificate is verified against.
pub enum Verification {
    /// Nothing: every certificate is accepted.
    Nothing,
    /// The certificates in this file.
    CaFile(String),
    /// The system's trust store.
    NativeRoots,
}

/// Whether this is the choice of verification for these arguments.
pub open spec fn verifies(args: &ConnectionArgs, choice: Verification) -> bool {
    match choice {
        Verification::Nothing => args.insecure,
        Verification::CaFile(path) => !args.insecure && text::opt_view(args.cafile) == Some(path@),
        Verification::NativeRoots => !args.insecure && args.cafile is None,
    }
}

/// The choice of verification: `--insecure` beats the file, and the trust store comes last.
pub fn verification(args: &ConnectionArgs) -> (res: Verification)
    ensures
        verifies(args, res),
{
    if args.insecure {
        return Verification::Nothing;
    }
    match &args.cafile {
        Some(path) => Verification::CaFile(path.clone()),
        None => Verification::NativeRoots,
    }
}

/// The files of the client certificate and its key, when both are given.
pub open spec fn auth_files(args: &ConnectionArgs) -> Option<(Seq<char>, Seq<char>)> {
    match (args.cert, args.key) {
        (Some(cert), Some(key)) => Some((cert@, key@)),
        _ => None,
    }
}

/// The files of the client certificate and its key, when both are given.
pub fn client_auth(args: &ConnectionArgs) -> (res: Option<(String, String)>)
    ensures
        match res {
            Some((cert, key)) => auth_files(args) == Some((cert@, key@)),
            None => auth_files(args) is None,
        },
{
    match (&args.cert, &args.key) {
        (Some(cert), Some(key)) => Some((cert.clone(), key.clone())),
        _ => None,
    }
}

/// What a list of byte strings holds.
pub open spec fn blobs_view(blobs: Seq<Vec<u8>>) -> Seq<Seq<u8>> {
    blobs.map_values(|b: Vec<u8>| b@)
}

/// The certificates in a PEM file, or what is wrong with the file.
pub uninterp spec fn pem_certificates(pem: Seq<u8>) -> Result<Seq<Seq<u8>>, Seq<char>>;

/// The certificates in a PEM file, in DER.
///
/// Trusted: `rustls_pemfile::certs`. It gives the certificate sections in order and skips the
/// others; the first section that cannot be read makes an error of the whole. Which bytes are a
/// section is named, not described.
#[verifier::external_body]
fn pem_certs(pem: &[u8]) -> (res: Result<Vec<Vec<u8>>, String>)
    ensures
        match (res, pem_certificates(pem@)) {
            (Ok(certs), Ok(expected)) => blobs_view(certs@) == expected,
            (Err(e), Err(fault)) => e@ == fault,
            _ => false,
        },
{
    rustls_pemfile::certs(&mut &pem[..])
        .map(|cert| cert.map(|c| c.to_vec()).map_err(|e| e.to_string()))
        .collect()
}

/// What becomes of the certificates of a file: a file without any is refused.
pub open spec fn checked_certs(
    path: Seq<char>,
    certs: Result<Seq<Seq<u8>>, Seq<char>>,
) -> Result<Seq<Seq<u8>>, ErrorView> {
    match certs {
        Ok(certs) => if certs.len() == 0 {
            Err(ErrorView::Usage(path + ": no PEM certificates found"@))
        } else {
            Ok(certs)
        },
        Err(e) => Err(ErrorView::Usage(path + ": "@ + e)),
    }
}

/// Refuse a file whose certificates could not be read, or that has none.
pub fn check_certs(path: &str, certs: Result<Vec<Vec<u8>>, String>) -> (res: Result<
    Vec<Vec<u8>>,
    Error,
>)
    ensures
        match (
            res,
            checked_certs(
                path@,
                match certs {
                    Ok(c) => Ok(blobs_view(c@)),
                    Err(e) => Err(e@),
                },
            ),
        ) {
            (Ok(kept), Ok(expected)) => blobs_view(kept@) == expected,
            (Err(e), Err(fault)) => e@ == fault,
            _ => false,
        },
{
    match certs {
        Ok(certs) => {
            assert(blobs_view(certs@).len() == certs@.len());
            if certs.len() == 0 {
                let mut message = String::from_str(path);
                message.append(": no PEM certificates found");
                Err(Error::Usage(message))
            } else {
                Ok(certs)
            }
        },
        Err(e) => Err(publish::file_error(path, e.as_str())),
    }
}

/// What becomes of a certificate file, given what reading it gave.
pub open spec fn loaded_certs(
    path: Seq<char>,
    read: Result<Seq<u8>, Seq<char>>,
) -> Result<Seq<Seq<u8>>, ErrorView> {
    match read {
        Ok(pem) => checked_certs(path, pem_certificates(pem)),
        Err(e) => Err(ErrorView::Usage(path + ": "@ + e)),
    }
}

/// The certificates of a file. `read` is what reading the file gave, its contents or the system's
/// message.
pub fn load_certs(path: &str, read: Result<Vec<u8>, String>) -> (res: Result<Vec<Vec<u8>>, Error>)
    ensures
        match (
            res,
            loaded_certs(
                path@,
                match read {
                    Ok(pem) => Ok(pem@),
                    Err(e) => Err(e@),
                },
            ),
        ) {
            (Ok(certs), Ok(expected)) => blobs_view(certs@) == expected,
            (Err(e), Err(fault)) => e@ == fault,
            _ => false,
        },
{
    match read {
        Ok(pem) => check_certs(path, pem_certs(pem.as_slice())),
        Err(e) => Err(publish::file_error(path, e.as_str())),
    }
}

/// A private key in DER, by its encoding.
pub enum PrivateKey {
    Pkcs1(Vec<u8>),
    Sec1(Vec<u8>),
    Pkcs8(Vec<u8>),
}

/// What a `PrivateKey` holds.
#[verifier::ext_equal]
pub enum PrivateKeyView {
    Pkcs1(Seq<u8>),
    Sec1(Seq<u8>),
    Pkcs8(Seq<u8>),
}

impl View for PrivateKey {
    type V = PrivateKeyView;

    open spec fn view(&self) -> PrivateKeyView {
        match self {
            PrivateKey::Pkcs1(der) => PrivateKeyView::Pkcs1(der@),
            PrivateKey::Sec1(der) => PrivateKeyView::Sec1(der@),
            PrivateKey::Pkcs8(der) => PrivateKeyView::Pkcs8(der@),
        }
    }
}

/// The first private key in a PEM file, or what is wrong with the file.
pub uninterp spec fn pem_private_key(pem: Seq<u8>) -> Result<Option<PrivateKeyView>, Seq<char>>;

/// The first private key in a PEM file.
///
/// Trusted: `rustls_pemfile::private_key`. It gives the first section that is a private key of one
/// of three encodings, and nothing when there is none; a section before it that cannot be read
/// makes an error. Which bytes are a section is named, not described.
#[verifier::external_body]
fn first_private_key(pem: &[u8]) -> (res: Result<Option<PrivateKey>, String>)
    ensures
        match (res, pem_private_key(pem@)) {
            (Ok(Some(key)), Ok(Some(expected))) => key@ == expected,
            (Ok(None), Ok(None)) => true,
            (Err(e), Err(fault)) => e@ == fault,
            _ => false,
        },
{
    match rustls_pemfile::private_key(&mut &pem[..]) {
        Ok(Some(rustls_pki_types::PrivateKeyDer::Pkcs1(k))) => {
            Ok(Some(PrivateKey::Pkcs1(k.secret_pkcs1_der().to_vec())))
        }
        Ok(Some(rustls_pki_types::PrivateKeyDer::Sec1(k))) => {
            Ok(Some(PrivateKey::Sec1(k.secret_sec1_der().to_vec())))
        }
        Ok(Some(rustls_pki_types::PrivateKeyDer::Pkcs8(k))) => {
            Ok(Some(PrivateKey::Pkcs8(k.secret_pkcs8_der().to_vec())))
        }
        Ok(_) => Ok(None),
        Err(e) => Err(e.to_string()),
    }
}

/// What becomes of the private key of a file: a file without one is refused.
pub open spec fn checked_key(
    path: Seq<char>,
    key: Result<Option<PrivateKeyView>, Seq<char>>,
) -> Result<PrivateKeyView, ErrorView> {
    match key {
        Ok(Some(key)) => Ok(key),
        Ok(None) => Err(ErrorView::Usage(path + ": no private key found"@)),
        Err(e) => Err(ErrorView::Usage(path + ": "@ + e)),
    }
}

/// Refuse a file whose private key could not be read, or that has none.
pub fn check_key(path: &str, key: Result<Option<PrivateKey>, String>) -> (res: Result<
    PrivateKey,
    Error,
>)
    ensures
        match (
            res,
            checked_key(
                path@,
                match key {
                    Ok(Some(k)) => Ok(Some(k@)),
                    Ok(None) => Ok(None),
                    Err(e) => Err(e@),
                },
            ),
        ) {
            (Ok(kept), Ok(expected)) => kept@ == expected,
            (Err(e), Err(fault)) => e@ == fault,
            _ => false,
        },
{
    match key {
        Ok(Some(key)) => Ok(key),
        Ok(None) => {
            let mut message = String::from_str(path);
            message.append(": no private key found");
            Err(Error::Usage(message))
        },
        Err(e) => Err(publish::file_error(path, e.as_str())),
    }
}

/// What becomes of a key file, given what reading it gave.
pub open spec fn loaded_key(path: Seq<char>, read: Result<Seq<u8>, Seq<char>>) -> Result<
    PrivateKeyView,
    ErrorView,
> {
    match read {
        Ok(pem) => checked_key(path, pem_private_key(pem)),
        Err(e) => Err(ErrorView::Usage(path + ": "@ + e)),
    }
}

/// The private key of a file. `read` is what reading the file gave, its contents or the system's
/// message.
pub fn load_key(path: &str, read: Result<Vec<u8>, String>) -> (res: Result<PrivateKey, Error>)
    ensures
        match (
            res,
            loaded_key(
                path@,
                match read {
                    Ok(pem) => Ok(pem@),
                    Err(e) => Err(e@),
                },
            ),
        ) {
            (Ok(key), Ok(expected)) => key@ == expected,
            (Err(e), Err(fault)) => e@ == fault,
            _ => false,
        },
{
    match read {
        Ok(pem) => check_key(path, first_private_key(pem.as_slice())),
        Err(e) => Err(publish::file_error(path, e.as_str())),
    }
}

/// What keeps a text from being a TLS server name, if anything.
pub uninterp spec fn server_name_fault(name: Seq<char>) -> Option<Seq<char>>;

/// What keeps a text from being a TLS server name.
///
/// Trusted: `rustls_pki_types::ServerName::try_from`. A server name is a DNS name or an address;
/// which texts are one is named, not described.
#[verifier::external_body]
fn invalid_server_name(name: &str) -> (res: Option<String>)
    ensures
        text::opt_view(res) == server_name_fault(name@),
{
    rustls_pki_types::ServerName::try_from(name).err().map(|e| e.to_string())
}

/// Refuse a broker whose name TLS cannot verify, given what is wrong with it.
pub fn refuse_server_name(broker: &str, fault: &Option<String>) -> (res: Result<(), Error>)
    ensures
        match (res, *fault) {
            (Ok(_), None) => true,
            (Err(e), Some(fault)) => e@ == ErrorView::Usage(
                "--broker "@ + text::quoted_text(broker@) + " is not a valid TLS server name: "@
                    + fault@,
            ),
            _ => false,
        },
{
    match fault {
        None => Ok(()),
        Some(fault) => {
            let mut message = String::from_str("--broker ");
            message.append(text::quoted(broker).as_str());
            message.append(" is not a valid TLS server name: ");
            message.append(fault.as_str());
            Err(Error::Usage(message))
        },
    }
}

/// Refuse a broker whose name TLS cannot verify.
pub fn check_server_name(broker: &str) -> (res: Result<(), Error>)
    ensures
        match (res, server_name_fault(broker@)) {
            (Ok(_), None) => true,
            (Err(e), Some(fault)) => e@ == ErrorView::Usage(
                "--broker "@ + text::quoted_text(broker@) + " is not a valid TLS server name: "@
                    + fault,
            ),
            _ => false,
        },
{
    refuse_server_name(broker, &invalid_server_name(broker))
}

/// The failure to use a certificate of the CA file.
pub fn cafile_error(path: &str, e: &str) -> (error: Error)
    ensures
        error@ == ErrorView::Usage("--cafile "@ + path@ + ": "@ + e@),
{
    let mut message = String::from_str("--cafile ");
    message.append(path);
    message.append(": ");
    message.append(e);
    Error::Usage(message)
}

/// The failure to use the client certificate with its key.
pub fn client_auth_error(e: &str) -> (error: Error)
    ensures
        error@ == ErrorView::Usage("--cert/--key: "@ + e@),
{
    let mut message = String::from_str("--cert/--key: ");
    message.append(e);
    Error::Usage(message)
}

/// What a root of trust is made of.
#[verifier::ext_equal]
pub struct AnchorView {
    pub subject: Seq<u8>,
    pub public_key: Seq<u8>,
    pub name_constraints: Option<Seq<u8>>,
}

/// The root of trust a certificate is, or why it is none.
pub uninterp spec fn anchor_of(der: Seq<u8>) -> Result<AnchorView, Seq<char>>;

/// `rustls::RootCertStore`: the roots of trust a connection is verified against.
#[verifier::external_type_specification]
#[verifier::external_body]
pub struct ExRootCertStore(tokio_rustls::rustls::RootCertStore);

/// The roots in a store, in order.
pub uninterp spec fn roots_of(store: tokio_rustls::rustls::RootCertStore) -> Seq<AnchorView>;

/// A store without roots.
///
/// Trusted: `RootCertStore::empty`.
#[verifier::external_body]
fn empty_store() -> (store: tokio_rustls::rustls::RootCertStore)
    ensures
        roots_of(store) == Seq::<AnchorView>::empty(),
{
    tokio_rustls::rustls::RootCertStore::empty()
}

/// Add one certificate to a store.
///
/// Trusted: `RootCertStore::add`. A certificate that is a root goes behind the others; one that is
/// none leaves the store as it was. Which certificates are a root is named, not described.
#[verifier::external_body]
fn add_root(
    store: &mut tokio_rustls::rustls::RootCertStore,
    der: &Vec<u8>,
) -> (res: Result<(), String>)
    ensures
        match (res, anchor_of(der@)) {
            (Ok(_), Ok(anchor)) => roots_of(*final(store)) == roots_of(*old(store)).push(anchor),
            (Err(e), Err(fault)) => e@ == fault && roots_of(*final(store)) == roots_of(*old(store)),
            _ => false,
        },
{
    let der = rustls_pki_types::CertificateDer::from(der.as_slice());
    store.add(der).map_err(|e| e.to_string())
}

/// The roots among the first `n` certificates, in order.
pub open spec fn usable_roots(certs: Seq<Seq<u8>>, n: nat) -> Seq<AnchorView>
    decreases n,
{
    if n == 0 || n > certs.len() {
        Seq::empty()
    } else {
        let before = usable_roots(certs, (n - 1) as nat);
        match anchor_of(certs[n - 1]) {
            Ok(anchor) => before.push(anchor),
            Err(_) => before,
        }
    }
}

/// Add the certificates that are roots to a store, and say how many there were.
///
/// Trusted: `RootCertStore::add_parsable_certificates`. The roots among the certificates go behind
/// the others in their order; the rest are passed over.
#[verifier::external_body]
fn add_usable_roots(
    store: &mut tokio_rustls::rustls::RootCertStore,
    certs: Vec<Vec<u8>>,
) -> (added: usize)
    ensures
        added == usable_roots(blobs_view(certs@), certs@.len()).len(),
        roots_of(*final(store)) == roots_of(*old(store)) + usable_roots(
            blobs_view(certs@),
            certs@.len(),
        ),
{
    store.add_parsable_certificates(certs.into_iter().map(rustls_pki_types::CertificateDer::from)).0
}

/// The first of the first `n` certificates that is no root.
pub open spec fn first_unusable(certs: Seq<Seq<u8>>, n: nat) -> Option<nat>
    decreases n,
{
    if n == 0 || n > certs.len() {
        None
    } else {
        match first_unusable(certs, (n - 1) as nat) {
            Some(i) => Some(i),
            None => if anchor_of(certs[n - 1]) is Err {
                Some((n - 1) as nat)
            } else {
                None
            },
        }
    }
}

proof fn lemma_first_unusable_stays(certs: Seq<Seq<u8>>, k: nat, n: nat)
    requires
        k <= n <= certs.len(),
        first_unusable(certs, k) is Some,
    ensures
        first_unusable(certs, n) == first_unusable(certs, k),
    decreases n,
{
    if k < n {
        lemma_first_unusable_stays(certs, k, (n - 1) as nat);
    }
}

/// The roots of a CA file: every certificate must be one, and the first that is not is the error.
pub open spec fn ca_roots(path: Seq<char>, certs: Seq<Seq<u8>>) -> Result<
    Seq<AnchorView>,
    ErrorView,
> {
    match first_unusable(certs, certs.len()) {
        Some(i) => Err(
            ErrorView::Usage(
                "--cafile "@ + path + ": "@ + anchor_of(certs[i as int])->Err_0,
            ),
        ),
        None => Ok(usable_roots(certs, certs.len())),
    }
}

/// The roots of the system's trust store: those that can be used, at least one.
pub open spec fn native_roots(certs: Seq<Seq<u8>>) -> Result<Seq<AnchorView>, ErrorView> {
    let roots = usable_roots(certs, certs.len());
    if roots.len() == 0 {
        Err(
            ErrorView::Usage(
                "no usable certificates found in the OS trust store; pass --cafile"@,
            ),
        )
    } else {
        Ok(roots)
    }
}

/// Where the roots of trust come from.
pub enum RootSource {
    /// A CA file, and what reading it gave.
    CaFile(String, Result<Vec<u8>, String>),
    /// The certificates of the system's trust store.
    Native(Vec<Vec<u8>>),
}

/// The roots of trust a source gives.
pub open spec fn chosen_roots(source: RootSource) -> Result<Seq<AnchorView>, ErrorView> {
    match source {
        RootSource::CaFile(path, read) => match loaded_certs(
            path@,
            match read {
                Ok(pem) => Ok(pem@),
                Err(e) => Err(e@),
            },
        ) {
            Ok(certs) => ca_roots(path@, certs),
            Err(fault) => Err(fault),
        },
        RootSource::Native(certs) => native_roots(blobs_view(certs@)),
    }
}

/// The store of the certificates of a CA file.
pub fn ca_store(path: &str, certs: &Vec<Vec<u8>>) -> (res: Result<
    tokio_rustls::rustls::RootCertStore,
    Error,
>)
    ensures
        match (res, ca_roots(path@, blobs_view(certs@))) {
            (Ok(store), Ok(roots)) => roots_of(store) == roots,
            (Err(e), Err(fault)) => e@ == fault,
            _ => false,
        },
{
    let mut store = empty_store();
    let ghost ders = blobs_view(certs@);
    let mut i: usize = 0;
    while i < certs.len()
        invariant
            i <= certs@.len(),
            ders == blobs_view(certs@),
            first_unusable(ders, i as nat) is None,
            roots_of(store) == usable_roots(ders, i as nat),
        decreases certs@.len() - i,
    {
        assert(ders[i as int] == certs@[i as int]@);
        if let Err(e) = add_root(&mut store, &certs[i]) {
            proof {
                assert(first_unusable(ders, (i + 1) as nat) == Some(i as nat));
                lemma_first_unusable_stays(ders, (i + 1) as nat, ders.len());
            }
            return Err(cafile_error(path, e.as_str()));
        }
        i += 1;
    }
    Ok(store)
}

/// The store of the certificates of the system's trust store.
pub fn native_store(certs: Vec<Vec<u8>>) -> (res: Result<tokio_rustls::rustls::RootCertStore, Error>)
    ensures
        match (res, native_roots(blobs_view(certs@))) {
            (Ok(store), Ok(roots)) => roots_of(store) == roots,
            (Err(e), Err(fault)) => e@ == fault,
            _ => false,
        },
{
    let mut store = empty_store();
    let ghost roots = usable_roots(blobs_view(certs@), certs@.len());
    let added: usize = add_usable_roots(&mut store, certs);
    assert(roots_of(store) =~= roots);
    if added == 0 {
        return Err(
            Error::usage("no usable certificates found in the OS trust store; pass --cafile"),
        );
    }
    Ok(store)
}

/// The roots of trust: those of the CA file, or of the system's trust store when there is none, so
/// that a broker with a certificate from a public authority works without any argument.
pub fn load_root_store(source: RootSource) -> (res: Result<
    tokio_rustls::rustls::RootCertStore,
    Error,
>)
    ensures
        match (res, chosen_roots(source)) {
            (Ok(store), Ok(roots)) => roots_of(store) == roots,
            (Err(e), Err(fault)) => e@ == fault,
            _ => false,
        },
{
    match source {
        RootSource::CaFile(path, read) => match load_certs(path.as_str(), read) {
            Ok(certs) => ca_store(path.as_str(), &certs),
            Err(e) => Err(e),
        },
        RootSource::Native(certs) => native_store(certs),
    }
}

/// A store never comes back empty: verification that could trust nobody is refused up front.
pub proof fn a_store_is_never_empty(path: Seq<char>, certs: Seq<Seq<u8>>)
    ensures
        native_roots(certs) matches Ok(roots) ==> roots.len() > 0,
        certs.len() > 0 && ca_roots(path, certs) is Ok ==> ca_roots(path, certs)->Ok_0.len()
            == certs.len(),
{
    if first_unusable(certs, certs.len()) is None {
        lemma_all_usable(certs, certs.len());
    }
}

proof fn lemma_all_usable(certs: Seq<Seq<u8>>, n: nat)
    requires
        n <= certs.len(),
        first_unusable(certs, n) is None,
    ensures
        usable_roots(certs, n).len() == n,
    decreases n,
{
    if n > 0 {
        lemma_all_usable(certs, (n - 1) as nat);
    }
}

/// The certificates of a file are used as they stand in it, none left out; a file that could not
/// be read or holds none is refused, and the error names it.
pub proof fn certificates_are_used_as_they_stand(
    path: Seq<char>,
    certs: Result<Seq<Seq<u8>>, Seq<char>>,
    e: Seq<char>,
)
    ensures
        checked_certs(path, certs) is Ok <==> certs is Ok && certs->Ok_0.len() > 0,
        checked_certs(path, certs) matches Ok(kept) ==> kept == certs->Ok_0,
        checked_certs(path, certs) matches Err(fault) ==> (fault matches ErrorView::Usage(m)
            && path.is_prefix_of(m)),
        certs matches Err(fault) ==> (checked_certs(path, certs) matches Err(ErrorView::Usage(m))
            && m.len() >= fault.len() && m.skip(m.len() - fault.len()) == fault),
        loaded_certs(path, Err(e)) is Err,
{
    let none = path + ": no PEM certificates found"@;
    assert(path =~= none.take(path.len() as int));
    if let Err(fault) = certs {
        let m = path + ": "@ + fault;
        assert(path =~= m.take(path.len() as int));
        assert(m.skip(m.len() - fault.len()) =~= fault);
    }
}

/// The key of a file is used as it stands in it; a file that could not be read or holds none is
/// refused, and the error names it.
pub proof fn a_key_is_used_as_it_stands(
    path: Seq<char>,
    key: Result<Option<PrivateKeyView>, Seq<char>>,
    e: Seq<char>,
)
    ensures
        checked_key(path, key) is Ok <==> key is Ok && key->Ok_0 is Some,
        checked_key(path, key) matches Ok(kept) ==> key->Ok_0 == Some(kept),
        checked_key(path, key) matches Err(fault) ==> (fault matches ErrorView::Usage(m)
            && path.is_prefix_of(m)),
        key matches Err(fault) ==> (checked_key(path, key) matches Err(ErrorView::Usage(m))
            && m.len() >= fault.len() && m.skip(m.len() - fault.len()) == fault),
        loaded_key(path, Err(e)) is Err,
{
    let none = path + ": no private key found"@;
    assert(path =~= none.take(path.len() as int));
    if let Err(fault) = key {
        let m = path + ": "@ + fault;
        assert(path =~= m.take(path.len() as int));
        assert(m.skip(m.len() - fault.len()) =~= fault);
    }
}

/// Every certificate that is a root is among the roots, and nothing else is.
pub proof fn the_roots_are_the_usable_certificates(certs: Seq<Seq<u8>>, n: nat, anchor: AnchorView)
    requires
        n <= certs.len(),
    ensures
        usable_roots(certs, n).contains(anchor) <==> exists|i: int|
            0 <= i < n && anchor_of(#[trigger] certs[i]) == Ok::<AnchorView, Seq<char>>(anchor),
        usable_roots(certs, n).len() <= n,
    decreases n,
{
    if n > 0 {
        let before = usable_roots(certs, (n - 1) as nat);
        let roots = usable_roots(certs, n);
        the_roots_are_the_usable_certificates(certs, (n - 1) as nat, anchor);
        if before.contains(anchor) {
            let i = choose|i: int| 0 <= i < before.len() && before[i] == anchor;
            assert(roots[i] == anchor);
        }
        if anchor_of(certs[n - 1]) == Ok::<AnchorView, Seq<char>>(anchor) {
            assert(roots[roots.len() - 1] == anchor);
        }
        if roots.contains(anchor) && !before.contains(anchor) {
            let i = choose|i: int| 0 <= i < roots.len() && roots[i] == anchor;
            if i < before.len() {
                assert(before[i] == anchor);
            }
            assert(anchor_of(certs[n - 1]) == Ok::<AnchorView, Seq<char>>(anchor));
        }
    }
}

proof fn lemma_first_unusable(certs: Seq<Seq<u8>>, n: nat)
    requires
        n <= certs.len(),
    ensures
        match first_unusable(certs, n) {
            Some(i) => {
                &&& i < n
                &&& anchor_of(certs[i as int]) is Err
                &&& forall|j: int| 0 <= j < i ==> anchor_of(#[trigger] certs[j]) is Ok
            },
            None => {
                &&& forall|j: int| 0 <= j < n ==> anchor_of(#[trigger] certs[j]) is Ok
                &&& usable_roots(certs, n).len() == n
                &&& forall|j: int|
                    0 <= j < n ==> anchor_of(certs[j]) == Ok::<AnchorView, Seq<char>>(
                        #[trigger] usable_roots(certs, n)[j],
                    )
            },
        },
    decreases n,
{
    if n > 0 {
        lemma_first_unusable(certs, (n - 1) as nat);
        if first_unusable(certs, n) is None {
            let before = usable_roots(certs, (n - 1) as nat);
            let roots = usable_roots(certs, n);
            assert forall|j: int| 0 <= j < n implies anchor_of(certs[j]) == Ok::<
                AnchorView,
                Seq<char>,
            >(#[trigger] roots[j]) by {
                if j < n - 1 {
                    assert(roots[j] == before[j]);
                }
            }
        }
    }
}

/// A CA file is used whole or not at all: with a certificate that is no root it is refused, for
/// the first such one, and otherwise each of its certificates is a root, in their order.
pub proof fn a_ca_file_is_used_whole(path: Seq<char>, certs: Seq<Seq<u8>>)
    ensures
        ca_roots(path, certs) is Err <==> exists|i: int|
            0 <= i < certs.len() && anchor_of(#[trigger] certs[i]) is Err,
        ca_roots(path, certs) matches Ok(roots) ==> {
            &&& roots.len() == certs.len()
            &&& forall|i: int|
                0 <= i < certs.len() ==> anchor_of(certs[i]) == Ok::<AnchorView, Seq<char>>(
                    #[trigger] roots[i],
                )
        },
        ca_roots(path, certs) matches Err(e) ==> exists|i: int|
            {
                &&& 0 <= i < certs.len()
                &&& anchor_of(#[trigger] certs[i]) is Err
                &&& forall|j: int| 0 <= j < i ==> anchor_of(#[trigger] certs[j]) is Ok
                &&& e == ErrorView::Usage(
                    "--cafile "@ + path + ": "@ + anchor_of(certs[i])->Err_0,
                )
            },
{
    lemma_first_unusable(certs, certs.len());
    if let Some(i) = first_unusable(certs, certs.len()) {
        assert(anchor_of(certs[i as int]) is Err);
    }
}

/// The system's trust store is used as far as it can be: it is refused exactly when not one of its
/// certificates is a root.
pub proof fn a_trust_store_is_used_as_far_as_it_goes(certs: Seq<Seq<u8>>)
    ensures
        native_roots(certs) is Ok <==> exists|i: int|
            0 <= i < certs.len() && anchor_of(#[trigger] certs[i]) is Ok,
        native_roots(certs) matches Ok(roots) ==> forall|anchor: AnchorView|
            #![trigger roots.contains(anchor)]
            roots.contains(anchor) <==> exists|i: int|
                0 <= i < certs.len() && anchor_of(#[trigger] certs[i]) == Ok::<
                    AnchorView,
                    Seq<char>,
                >(anchor),
{
    let roots = usable_roots(certs, certs.len());
    assert forall|anchor: AnchorView|
        #![trigger roots.contains(anchor)]
        roots.contains(anchor) <==> exists|i: int|
            0 <= i < certs.len() && anchor_of(#[trigger] certs[i]) == Ok::<AnchorView, Seq<char>>(
                anchor,
            ) by {
        the_roots_are_the_usable_certificates(certs, certs.len(), anchor);
    }
    if exists|i: int| 0 <= i < certs.len() && anchor_of(#[trigger] certs[i]) is Ok {
        let i = choose|i: int| 0 <= i < certs.len() && anchor_of(#[trigger] certs[i]) is Ok;
        let anchor = anchor_of(certs[i])->Ok_0;
        assert(anchor_of(certs[i]) == Ok::<AnchorView, Seq<char>>(anchor));
        assert(roots.contains(anchor));
        assert(roots.len() > 0);
    } else if roots.len() > 0 {
        assert(roots.contains(roots[0]));
        let i = choose|i: int|
            0 <= i < certs.len() && anchor_of(#[trigger] certs[i]) == Ok::<AnchorView, Seq<char>>(
                roots[0],
            );
        assert(anchor_of(certs[i]) is Ok);
    }
}

/// The roots come from the source: a CA file that could not be read gives none, one that could
/// gives those of its certificates, and the trust store those of its own.
pub proof fn the_roots_come_from_their_source(
    path: String,
    pem: Vec<u8>,
    e: String,
    certs: Vec<Vec<u8>>,
)
    ensures
        chosen_roots(RootSource::CaFile(path, Err(e))) is Err,
        chosen_roots(RootSource::CaFile(path, Ok(pem))) is Ok <==> {
            &&& pem_certificates(pem@) is Ok
            &&& pem_certificates(pem@)->Ok_0.len() > 0
            &&& ca_roots(path@, pem_certificates(pem@)->Ok_0) is Ok
        },
        chosen_roots(RootSource::CaFile(path, Ok(pem))) matches Ok(roots) ==> Ok::<
            Seq<AnchorView>,
            ErrorView,
        >(roots) == ca_roots(path@, pem_certificates(pem@)->Ok_0),
        chosen_roots(RootSource::Native(certs)) == native_roots(blobs_view(certs@)),
{
}

/// The broker's certificate goes unverified exactly when that was asked for; otherwise it is
/// verified against the file that was given, and against the trust store without one.
pub proof fn verification_is_skipped_only_on_request(args: &ConnectionArgs, choice: Verification)
    requires
        verifies(args, choice),
    ensures
        choice is Nothing <==> args.insecure,
        choice is CaFile <==> !args.insecure && args.cafile is Some,
        choice is NativeRoots <==> !args.insecure && args.cafile is None,
        choice matches Verification::CaFile(path) ==> path@ == args.cafile->0@,
{
}

/// The client shows a certificate exactly when both files were given, and each file is used for its
/// own purpose.
pub proof fn a_client_certificate_needs_its_key(args: &ConnectionArgs)
    ensures
        auth_files(args) is Some <==> args.cert is Some && args.key is Some,
        auth_files(args) matches Some(files) ==> files.0 == args.cert->0@ && files.1
            == args.key->0@,
{
}

} // verus!
