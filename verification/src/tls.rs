//! What the TLS server and client need from their PEM files: the server's
//! certificate chain and private key, and the client's trusted roots.
use vstd::prelude::*;
use tokio_rustls::rustls::pki_types::CertificateDer;
use tokio_rustls::rustls::RootCertStore;
use crate::pem::{
    parse_pem_certificates, parse_pem_pkcs8_key, parse_pem_private_key, pem_certificates,
    pem_first_pkcs8_key, pem_private_key, KeyFormat, PrivateKey,
};

verus! {

/// Why the TLS material could not be read.
#[derive(Clone, Copy, Debug, PartialEq, Eq, Structural)]
pub enum TlsSetupError {
    /// A section of the certificate file cannot be read.
    MalformedCertificates,
    /// A section of the key file, before its first key, cannot be read.
    MalformedKey,
    /// The key file holds no private key.
    NoPrivateKey,
}

/// The server's certificate chain (DER, leaf first) and its private key.
#[derive(Clone, Debug, PartialEq, Eq)]
pub struct TlsIdentity {
    pub certificates: Vec<Vec<u8>>,
    pub key: PrivateKey,
}

/// The identity read from the certificate file `cert_pem` and the key file
/// `key_pem`: every certificate of the first, and the first key of the second.
pub open spec fn tls_identity_of(cert_pem: Seq<u8>, key_pem: Seq<u8>) -> Result<
    (Seq<Seq<u8>>, KeyFormat, Seq<u8>),
    TlsSetupError,
> {
    match pem_certificates(cert_pem) {
        None => Err(TlsSetupError::MalformedCertificates),
        Some(certs) => match pem_private_key(key_pem) {
            Err(_) => Err(TlsSetupError::MalformedKey),
            Ok(None) => Err(TlsSetupError::NoPrivateKey),
            Ok(Some((format, der))) => Ok((certs, format, der)),
        },
    }
}

/// Reads the server's identity from the bytes of its certificate file and of
/// its key file.
pub fn tls_identity(cert_pem: &[u8], key_pem: &[u8]) -> (identity: Result<TlsIdentity, TlsSetupError>)
    ensures
        identity matches Ok(id) ==> {
            &&& pem_certificates(cert_pem@) == Some(id.certificates.deep_view())
            &&& pem_private_key(key_pem@) == Ok::<Option<(KeyFormat, Seq<u8>)>, ()>(
                Some((id.key.format, id.key.der@)),
            )
        },
        match identity {
            Ok(id) => tls_identity_of(cert_pem@, key_pem@) == Ok::<
                (Seq<Seq<u8>>, KeyFormat, Seq<u8>),
                TlsSetupError,
            >((id.certificates.deep_view(), id.key.format, id.key.der@)),
            Err(e) => tls_identity_of(cert_pem@, key_pem@) == Err::<
                (Seq<Seq<u8>>, KeyFormat, Seq<u8>),
                TlsSetupError,
            >(e),
        },
{
    let certificates = match parse_pem_certificates(cert_pem) {
        Some(certs) => certs,
        None => {
            return Err(TlsSetupError::MalformedCertificates);
        },
    };
    match parse_pem_private_key(key_pem) {
        Err(()) => Err(TlsSetupError::MalformedKey),
        Ok(None) => Err(TlsSetupError::NoPrivateKey),
        Ok(Some(key)) => Ok(TlsIdentity { certificates, key }),
    }
}

/// The identity read from the certificate file `cert_pem` and the key file
/// `key_pem` when only a PKCS #8 key will do: every certificate of the first,
/// and the first PKCS #8 key of the second, each file read whole.
pub open spec fn tls_pkcs8_identity_of(cert_pem: Seq<u8>, key_pem: Seq<u8>) -> Result<
    (Seq<Seq<u8>>, Seq<u8>),
    TlsSetupError,
> {
    match pem_certificates(cert_pem) {
        None => Err(TlsSetupError::MalformedCertificates),
        Some(certs) => match pem_first_pkcs8_key(key_pem) {
            Err(_) => Err(TlsSetupError::MalformedKey),
            Ok(None) => Err(TlsSetupError::NoPrivateKey),
            Ok(Some(der)) => Ok((certs, der)),
        },
    }
}

/// Reads the server's identity from the bytes of its certificate file and of
/// its key file, taking the first PKCS #8 key.
pub fn tls_pkcs8_identity(cert_pem: &[u8], key_pem: &[u8]) -> (identity: Result<
    TlsIdentity,
    TlsSetupError,
>)
    ensures
        identity matches Ok(id) ==> {
            &&& pem_certificates(cert_pem@) == Some(id.certificates.deep_view())
            &&& pem_first_pkcs8_key(key_pem@) == Ok::<Option<Seq<u8>>, ()>(Some(id.key.der@))
        },
        match identity {
            Ok(id) => id.key.format == KeyFormat::Pkcs8 && tls_pkcs8_identity_of(cert_pem@, key_pem@)
                == Ok::<(Seq<Seq<u8>>, Seq<u8>), TlsSetupError>(
                (id.certificates.deep_view(), id.key.der@),
            ),
            Err(e) => tls_pkcs8_identity_of(cert_pem@, key_pem@) == Err::<
                (Seq<Seq<u8>>, Seq<u8>),
                TlsSetupError,
            >(e),
        },
{
    let certificates = match parse_pem_certificates(cert_pem) {
        Some(certs) => certs,
        None => {
            return Err(TlsSetupError::MalformedCertificates);
        },
    };
    match parse_pem_pkcs8_key(key_pem) {
        Err(()) => Err(TlsSetupError::MalformedKey),
        Ok(None) => Err(TlsSetupError::NoPrivateKey),
        Ok(Some(der)) => Ok(
            TlsIdentity { certificates, key: PrivateKey { format: KeyFormat::Pkcs8, der } },
        ),
    }
}

/// The server's identity is the whole certificate chain of its certificate
/// file and the first key of its key file, kept in that key's own format;
/// each way the files can fail gives its own error, the certificate file
/// first.
pub proof fn lemma_tls_identity_from_files(cert_pem: Seq<u8>, key_pem: Seq<u8>)
    ensures
        pem_certificates(cert_pem) is None ==> tls_identity_of(cert_pem, key_pem) == Err::<
            (Seq<Seq<u8>>, KeyFormat, Seq<u8>),
            TlsSetupError,
        >(TlsSetupError::MalformedCertificates),
        pem_certificates(cert_pem) matches Some(certs) ==> {
            &&& pem_private_key(key_pem) is Err ==> tls_identity_of(cert_pem, key_pem) == Err::<
                (Seq<Seq<u8>>, KeyFormat, Seq<u8>),
                TlsSetupError,
            >(TlsSetupError::MalformedKey)
            &&& pem_private_key(key_pem) == Ok::<Option<(KeyFormat, Seq<u8>)>, ()>(None)
                ==> tls_identity_of(cert_pem, key_pem) == Err::<
                (Seq<Seq<u8>>, KeyFormat, Seq<u8>),
                TlsSetupError,
            >(TlsSetupError::NoPrivateKey)
            &&& pem_private_key(key_pem) matches Ok(Some((format, der))) ==> tls_identity_of(
                cert_pem,
                key_pem,
            ) == Ok::<(Seq<Seq<u8>>, KeyFormat, Seq<u8>), TlsSetupError>((certs, format, der))
        },
{
}

/// When only a PKCS #8 key will do, the identity is still the whole
/// certificate chain, together with the first PKCS #8 key of the key file;
/// each way the files can fail gives its own error, the certificate file
/// first.
pub proof fn lemma_tls_pkcs8_identity_from_files(cert_pem: Seq<u8>, key_pem: Seq<u8>)
    ensures
        pem_certificates(cert_pem) is None ==> tls_pkcs8_identity_of(cert_pem, key_pem) == Err::<
            (Seq<Seq<u8>>, Seq<u8>),
            TlsSetupError,
        >(TlsSetupError::MalformedCertificates),
        pem_certificates(cert_pem) matches Some(certs) ==> {
            &&& pem_first_pkcs8_key(key_pem) is Err ==> tls_pkcs8_identity_of(cert_pem, key_pem)
                == Err::<(Seq<Seq<u8>>, Seq<u8>), TlsSetupError>(TlsSetupError::MalformedKey)
            &&& pem_first_pkcs8_key(key_pem) == Ok::<Option<Seq<u8>>, ()>(None)
                ==> tls_pkcs8_identity_of(cert_pem, key_pem) == Err::<
                (Seq<Seq<u8>>, Seq<u8>),
                TlsSetupError,
            >(TlsSetupError::NoPrivateKey)
            &&& pem_first_pkcs8_key(key_pem) matches Ok(Some(der)) ==> tls_pkcs8_identity_of(
                cert_pem,
                key_pem,
            ) == Ok::<(Seq<Seq<u8>>, Seq<u8>), TlsSetupError>((certs, der))
        },
{
}

#[verifier::external_type_specification]
#[verifier::external_body]
pub struct ExRootCertStore(RootCertStore);

/// The subjects (DER) of the trust anchors a root store holds, in the order
/// they were added.
pub uninterp spec fn root_subjects(store: RootCertStore) -> Seq<Seq<u8>>;

/// The subjects of the trust anchors that rustls makes of the DER
/// certificates `ders`, for those it can parse, in order.
pub uninterp spec fn trust_anchor_subjects(ders: Seq<Seq<u8>>) -> Seq<Seq<u8>>;

/// Calls `RootCertStore::empty`. Trusted: the store holds no anchor.
#[verifier::external_body]
fn empty_root_store() -> (store: RootCertStore)
    ensures
        root_subjects(store) == Seq::<Seq<u8>>::empty(),
{
    RootCertStore::empty()
}

/// Calls `RootCertStore::add_parsable_certificates`. Trusted: the anchors made
/// of the certificates it can parse are appended in order; it returns how many
/// it added and how many it ignored, one of the two for each certificate.
#[verifier::external_body]
fn add_parsable_certificates(store: &mut RootCertStore, ders: Vec<Vec<u8>>) -> (counts: (usize, usize))
    ensures
        root_subjects(*final(store)) == root_subjects(*old(store)) + trust_anchor_subjects(
            ders.deep_view(),
        ),
        counts.0 == trust_anchor_subjects(ders.deep_view()).len(),
        counts.0 + counts.1 == ders.len(),
{
    store.add_parsable_certificates(ders.into_iter().map(CertificateDer::from))
}

/// The client's trusted roots, with how many certificates were added and how
/// many were ignored.
pub struct ClientRoots {
    pub store: RootCertStore,
    pub added: usize,
    pub ignored: usize,
}

/// Reads the client's trusted roots from the bytes of its CA file: every
/// certificate in it that rustls can parse becomes a root.
pub fn client_root_store(ca_pem: &[u8]) -> (roots: Result<ClientRoots, TlsSetupError>)
    ensures
        roots is Err <==> pem_certificates(ca_pem@) is None,
        roots matches Err(e) ==> e == TlsSetupError::MalformedCertificates,
        roots matches Ok(r) ==> {
            &&& root_subjects(r.store) == trust_anchor_subjects(pem_certificates(ca_pem@)->0)
            &&& r.added == trust_anchor_subjects(pem_certificates(ca_pem@)->0).len()
            &&& r.added + r.ignored == pem_certificates(ca_pem@)->0.len()
        },
{
    let certs = match parse_pem_certificates(ca_pem) {
        Some(certs) => certs,
        None => {
            return Err(TlsSetupError::MalformedCertificates);
        },
    };
    let mut store = empty_root_store();
    let (added, ignored) = add_parsable_certificates(&mut store, certs);
    proof {
        assert(Seq::<Seq<u8>>::empty() + trust_anchor_subjects(pem_certificates(ca_pem@)->0)
            =~= trust_anchor_subjects(pem_certificates(ca_pem@)->0));
    }
    Ok(ClientRoots { store, added, ignored })
}

} // verus!
