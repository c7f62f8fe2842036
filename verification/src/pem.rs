//! Reading certificates and private keys out of PEM text.
use vstd::prelude::*;
use rustls_pemfile::Item::{Pkcs1Key, Pkcs8Key, Sec1Key, X509Certificate};
use crate::pem::KeyFormat::{Pkcs1, Pkcs8, Sec1};
use crate::pem::PemRead::{End, Malformed, Section};
use crate::pem::PemSection::{Certificate, Other, PrivateKey as Key};

verus! {

/// The encoding of a private key.
#[derive(Clone, Copy, Debug, PartialEq, Eq, Structural)]
pub enum KeyFormat {
    /// An RSA key (`RSA PRIVATE KEY`).
    Pkcs1,
    /// An elliptic-curve key (`EC PRIVATE KEY`).
    Sec1,
    /// A key of any algorithm (`PRIVATE KEY`).
    Pkcs8,
}

/// One section of PEM text, decoded.
#[derive(Clone, Debug, PartialEq, Eq)]
pub enum PemSection {
    /// A DER-encoded X.509 certificate.
    Certificate(Vec<u8>),
    /// A DER-encoded private key.
    PrivateKey(KeyFormat, Vec<u8>),
    /// Another recognised section (public key, revocation list, signing request).
    Other,
}

/// A decoded section as a value.
pub enum PemSectionView {
    Certificate(Seq<u8>),
    PrivateKey(KeyFormat, Seq<u8>),
    Other,
}

/// The outcome of reading the next section of PEM text.
pub enum PemRead<'a> {
    /// A section, and the text that follows it.
    Section(PemSection, &'a [u8]),
    /// No further section.
    End,
    /// A section that cannot be read.
    Malformed,
}

/// A read as a value.
pub enum PemReadView {
    Section(PemSectionView, Seq<u8>),
    End,
    Malformed,
}

impl View for PemSection {
    type V = PemSectionView;

    open spec fn view(&self) -> PemSectionView {
        match self {
            PemSection::Certificate(der) => PemSectionView::Certificate(der@),
            PemSection::PrivateKey(format, der) => PemSectionView::PrivateKey(*format, der@),
            PemSection::Other => PemSectionView::Other,
        }
    }
}

impl<'a> View for PemRead<'a> {
    type V = PemReadView;

    open spec fn view(&self) -> PemReadView {
        match self {
            PemRead::Section(section, rest) => PemReadView::Section(section@, rest@),
            PemRead::End => PemReadView::End,
            PemRead::Malformed => PemReadView::Malformed,
        }
    }
}

/// What `rustls_pemfile::read_one_from_slice` finds first in `input`: the
/// next recognised section with the text after it, the end, or an error.
pub uninterp spec fn pem_next_section(input: Seq<u8>) -> PemReadView;

/// Calls `rustls_pemfile::read_one_from_slice`. Trusted: the result is the
/// outside parser's on these bytes, and the text handed back after a section
/// is the part of `input` that follows it, so it is a proper suffix (at least
/// the section's begin line is consumed).
#[verifier::external_body]
fn read_pem_section(input: &[u8]) -> (read: PemRead<'_>)
    ensures
        read@ == pem_next_section(input@),
        read@ matches PemReadView::Section(_, rest) ==> rest.len() < input@.len() && rest
            == input@.subrange(input@.len() - rest.len(), input@.len() as int),
{
    match rustls_pemfile::read_one_from_slice(input) {
        Ok(Some((X509Certificate(c), rest))) => Section(Certificate(c.to_vec()), rest),
        Ok(Some((Pkcs1Key(k), rest))) => Section(Key(Pkcs1, k.secret_pkcs1_der().to_vec()), rest),
        Ok(Some((Sec1Key(k), rest))) => Section(Key(Sec1, k.secret_sec1_der().to_vec()), rest),
        Ok(Some((Pkcs8Key(k), rest))) => Section(Key(Pkcs8, k.secret_pkcs8_der().to_vec()), rest),
        Ok(Some((_, rest))) => Section(Other, rest),
        Ok(None) => End,
        Err(_) => Malformed,
    }
}

/// The certificates of PEM text in order, or nothing if any section in it
/// cannot be read.
pub open spec fn pem_certificates(input: Seq<u8>) -> Option<Seq<Seq<u8>>>
    decreases input.len(),
{
    match pem_next_section(input) {
        PemReadView::End => Some(Seq::empty()),
        PemReadView::Malformed => None,
        PemReadView::Section(section, rest) => {
            if rest.len() < input.len() {
                match pem_certificates(rest) {
                    Some(later) => Some(
                        match section {
                            PemSectionView::Certificate(der) => seq![der] + later,
                            _ => later,
                        },
                    ),
                    None => None,
                }
            } else {
                None
            }
        },
    }
}

/// The first private key of PEM text, of any format: `Ok(None)` if there is
/// none, and an error if a section before it cannot be read.
pub open spec fn pem_private_key(input: Seq<u8>) -> Result<Option<(KeyFormat, Seq<u8>)>, ()>
    decreases input.len(),
{
    match pem_next_section(input) {
        PemReadView::End => Ok(None),
        PemReadView::Malformed => Err(()),
        PemReadView::Section(section, rest) => match section {
            PemSectionView::PrivateKey(format, der) => Ok(Some((format, der))),
            _ => {
                if rest.len() < input.len() {
                    pem_private_key(rest)
                } else {
                    Err(())
                }
            },
        },
    }
}

/// All certificates of the PEM text `pem`, in order; `None` if a section of
/// it cannot be read.
pub fn parse_pem_certificates(pem: &[u8]) -> (certs: Option<Vec<Vec<u8>>>)
    ensures
        certs is None <==> pem_certificates(pem@) is None,
        certs matches Some(c) ==> pem_certificates(pem@) == Some(c.deep_view()),
{
    let mut found: Vec<Vec<u8>> = Vec::new();
    let mut rest: &[u8] = pem;
    loop
        invariant
            pem_certificates(pem@) == match pem_certificates(rest@) {
                Some(later) => Some(found.deep_view() + later),
                None => None::<Seq<Seq<u8>>>,
            },
        decreases rest@.len(),
    {
        let ghost before = rest@;
        let ghost found_before = found.deep_view();
        match read_pem_section(rest) {
            PemRead::End => {
                assert(found.deep_view() + Seq::<Seq<u8>>::empty() =~= found.deep_view());
                return Some(found);
            },
            PemRead::Malformed => {
                return None;
            },
            PemRead::Section(section, next) => {
                match section {
                    PemSection::Certificate(der) => {
                        let ghost der_view = der@;
                        let ghost found_seq = found@;
                        proof {
                            assert(der.deep_view() =~= der_view);
                        }
                        found.push(der);
                        proof {
                            assert(found@ == found_seq.push(der));
                            assert forall|i: int| 0 <= i < found@.len() implies #[trigger] found.deep_view()[i]
                                == found_before.push(der_view)[i] by {
                                if i < found_seq.len() {
                                    assert(found@[i] == found_seq[i]);
                                }
                            }
                            assert(found.deep_view() =~= found_before.push(der_view));
                            match pem_certificates(next@) {
                                Some(later) => {
                                    assert(found_before + (seq![der_view] + later)
                                        =~= found.deep_view() + later);
                                },
                                None => {},
                            }
                        }
                    },
                    _ => {},
                }
                rest = next;
                assert(rest@.len() < before.len());
            },
        }
    }
}

/// A private key: its format and its DER bytes.
#[derive(Clone, Debug, PartialEq, Eq)]
pub struct PrivateKey {
    pub format: KeyFormat,
    pub der: Vec<u8>,
}

/// The first private key of the PEM text `pem`: `Ok(None)` if it holds none,
/// `Err(())` if a section before that key cannot be read.
pub fn parse_pem_private_key(pem: &[u8]) -> (key: Result<Option<PrivateKey>, ()>)
    ensures
        key is Err <==> pem_private_key(pem@) is Err,
        key matches Ok(None) <==> pem_private_key(pem@) matches Ok(None),
        key matches Ok(Some(k)) ==> pem_private_key(pem@) == Ok::<Option<(KeyFormat, Seq<u8>)>, ()>(
            Some((k.format, k.der@)),
        ),
{
    let mut rest: &[u8] = pem;
    loop
        invariant
            pem_private_key(pem@) == pem_private_key(rest@),
        decreases rest@.len(),
    {
        let ghost before = rest@;
        match read_pem_section(rest) {
            PemRead::End => {
                return Ok(None);
            },
            PemRead::Malformed => {
                return Err(());
            },
            PemRead::Section(section, next) => {
                match section {
                    PemSection::PrivateKey(format, der) => {
                        return Ok(Some(PrivateKey { format, der }));
                    },
                    _ => {},
                }
                rest = next;
                assert(rest@.len() < before.len());
            },
        }
    }
}

/// The first PKCS #8 key of PEM text, reading the whole of it: an error if
/// any section cannot be read, else the key's DER, or `None` if it has none.
pub open spec fn pem_first_pkcs8_key(input: Seq<u8>) -> Result<Option<Seq<u8>>, ()>
    decreases input.len(),
{
    match pem_next_section(input) {
        PemReadView::End => Ok(None),
        PemReadView::Malformed => Err(()),
        PemReadView::Section(section, rest) => {
            if rest.len() < input.len() {
                match pem_first_pkcs8_key(rest) {
                    Err(_) => Err(()),
                    Ok(later) => Ok(
                        match section {
                            PemSectionView::PrivateKey(KeyFormat::Pkcs8, der) => Some(der),
                            _ => later,
                        },
                    ),
                }
            } else {
                Err(())
            }
        },
    }
}

/// The key found so far, as a value.
pub open spec fn found_key_view(found: Option<Vec<u8>>) -> Option<Seq<u8>> {
    match found {
        Some(der) => Some(der@),
        None => None,
    }
}

/// The first PKCS #8 key of the PEM text `pem`, after reading all of it:
/// `Err(())` if any section cannot be read, `Ok(None)` if it holds no such key.
pub fn parse_pem_pkcs8_key(pem: &[u8]) -> (key: Result<Option<Vec<u8>>, ()>)
    ensures
        key is Err <==> pem_first_pkcs8_key(pem@) is Err,
        key matches Ok(k) ==> pem_first_pkcs8_key(pem@) == Ok::<Option<Seq<u8>>, ()>(
            found_key_view(k),
        ),
{
    let mut found: Option<Vec<u8>> = None;
    let mut rest: &[u8] = pem;
    loop
        invariant
            pem_first_pkcs8_key(pem@) == match pem_first_pkcs8_key(rest@) {
                Err(_) => Err(()),
                Ok(later) => Ok(
                    match found {
                        Some(der) => Some(der@),
                        None => later,
                    },
                ),
            },
        decreases rest@.len(),
    {
        let ghost before = rest@;
        match read_pem_section(rest) {
            PemRead::End => {
                return Ok(found);
            },
            PemRead::Malformed => {
                return Err(());
            },
            PemRead::Section(section, next) => {
                if found.is_none() {
                    match section {
                        PemSection::PrivateKey(KeyFormat::Pkcs8, der) => {
                            found = Some(der);
                        },
                        _ => {},
                    }
                }
                rest = next;
                assert(rest@.len() < before.len());
            },
        }
    }
}

/// How the certificates of PEM text follow from its first section: text
/// with no section has none, an unreadable section spoils the whole text, a
/// certificate comes before the certificates of the text after it, and any
/// other section changes nothing.
pub proof fn lemma_pem_certificates_by_section(input: Seq<u8>)
    ensures
        pem_next_section(input) is End ==> pem_certificates(input) == Some(Seq::<Seq<u8>>::empty()),
        pem_next_section(input) is Malformed ==> pem_certificates(input) is None,
        pem_next_section(input) matches PemReadView::Section(_, rest) ==> (rest.len() < input.len()
            && pem_certificates(rest) is None ==> pem_certificates(input) is None),
        pem_next_section(input) matches PemReadView::Section(PemSectionView::Certificate(der), rest)
            ==> (rest.len() < input.len() && pem_certificates(rest) is Some ==> pem_certificates(
            input,
        ) == Some(seq![der] + pem_certificates(rest)->0)),
        pem_next_section(input) matches PemReadView::Section(section, rest) ==> (rest.len()
            < input.len() && !(section is Certificate) ==> pem_certificates(input)
            == pem_certificates(rest)),
{
}

/// How the first private key of PEM text follows from its first section:
/// text with no section has none, an unreadable section before any key is an
/// error, a key section gives that key with its own format whatever follows,
/// and any other section is skipped.
pub proof fn lemma_pem_private_key_by_section(input: Seq<u8>)
    ensures
        pem_next_section(input) is End ==> pem_private_key(input) == Ok::<
            Option<(KeyFormat, Seq<u8>)>,
            (),
        >(None),
        pem_next_section(input) is Malformed ==> pem_private_key(input) is Err,
        pem_next_section(input) matches PemReadView::Section(
            PemSectionView::PrivateKey(format, der),
            _,
        ) ==> pem_private_key(input) == Ok::<Option<(KeyFormat, Seq<u8>)>, ()>(
            Some((format, der)),
        ),
        pem_next_section(input) matches PemReadView::Section(section, rest) ==> (rest.len()
            < input.len() && !(section is PrivateKey) ==> pem_private_key(input)
            == pem_private_key(rest)),
{
}

/// How the first PKCS #8 key of PEM text follows from its first section: the
/// whole text must be readable, a PKCS #8 key section gives that key when the
/// rest reads, and any other section (a key of another format included) is
/// skipped.
pub proof fn lemma_pem_first_pkcs8_key_by_section(input: Seq<u8>)
    ensures
        pem_next_section(input) is End ==> pem_first_pkcs8_key(input) == Ok::<
            Option<Seq<u8>>,
            (),
        >(None),
        pem_next_section(input) is Malformed ==> pem_first_pkcs8_key(input) is Err,
        pem_next_section(input) matches PemReadView::Section(_, rest) ==> (rest.len() < input.len()
            && pem_first_pkcs8_key(rest) is Err ==> pem_first_pkcs8_key(input) is Err),
        pem_next_section(input) matches PemReadView::Section(
            PemSectionView::PrivateKey(KeyFormat::Pkcs8, der),
            rest,
        ) ==> (rest.len() < input.len() && pem_first_pkcs8_key(rest) is Ok ==> pem_first_pkcs8_key(
            input,
        ) == Ok::<Option<Seq<u8>>, ()>(Some(der))),
        pem_next_section(input) matches PemReadView::Section(section, rest) ==> (rest.len()
            < input.len() && !(section matches PemSectionView::PrivateKey(KeyFormat::Pkcs8, _))
            ==> pem_first_pkcs8_key(input) == pem_first_pkcs8_key(rest)),
{
}

/// A text that ends after one private-key section yields that key with its
/// own format, and a text whose first section is a certificate followed by
/// such a text yields the same key: a key after a certificate is found, of
/// whatever format.
pub proof fn lemma_key_after_certificate(
    input: Seq<u8>,
    cert: Seq<u8>,
    rest: Seq<u8>,
    format: KeyFormat,
    der: Seq<u8>,
    tail: Seq<u8>,
)
    requires
        pem_next_section(input) == PemReadView::Section(PemSectionView::Certificate(cert), rest),
        rest.len() < input.len(),
        pem_next_section(rest) == PemReadView::Section(PemSectionView::PrivateKey(format, der), tail),
    ensures
        pem_private_key(input) == Ok::<Option<(KeyFormat, Seq<u8>)>, ()>(Some((format, der))),
{
    lemma_pem_private_key_by_section(input);
    lemma_pem_private_key_by_section(rest);
}

} // verus!
