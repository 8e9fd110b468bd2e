//! Identity material: classification of PEM items into the private key or
//! certificate the transport factory consumes.
//!
//! Decoding the PEM framing is delegated to an outside parser; everything
//! after it — which item kinds are acceptable where, and with which error a
//! wrong kind is rejected — is the library's own logic, stated and proved.

use crate::pem::PemItemKind::{Crl, Csr, Other, Pkcs1Key, Pkcs8Key, Sec1Key, X509Certificate};
use rustls_pemfile::Item;
use vstd::prelude::*;

verus! {

/// The kind of the first PEM section the parser recognises in an input
/// (sections with labels it does not know are skipped over).
#[derive(PartialEq, Eq, Structural, Debug, Clone, Copy)]
pub enum PemItemKind {
    /// A DER-encoded x509 certificate.
    X509Certificate,
    /// A PKCS#1 RSA private key.
    Pkcs1Key,
    /// A PKCS#8 private key.
    Pkcs8Key,
    /// A SEC1 EC private key.
    Sec1Key,
    /// A certificate revocation list.
    Crl,
    /// A certificate signing request.
    Csr,
    /// A section kind this system has no use for.
    Other,
}

/// One decoded PEM section: its kind and its DER payload.
#[derive(Debug)]
pub struct PemItem {
    /// What the section's label said it holds.
    pub kind: PemItemKind,
    /// The section's decoded bytes.
    pub der: Vec<u8>,
}

/// Pair a section kind with its payload.
pub fn pem_item(kind: PemItemKind, der: Vec<u8>) -> (r: PemItem)
    ensures
        r.kind == kind,
        r.der == der,
{
    PemItem { kind, der }
}

/// Why identity material was rejected.
#[derive(PartialEq, Eq, Structural, Debug, Clone, Copy)]
pub enum PemError {
    /// The input is not well-formed PEM.
    Malformed,
    /// The input holds no PEM section at all.
    NoItem,
    /// A certificate stood where a key was expected.
    FoundCertificate,
    /// A key stood where a certificate was expected.
    FoundKey,
    /// A certificate revocation list is never acceptable here.
    FoundCrl,
    /// A certificate signing request is never acceptable here.
    FoundCsr,
    /// An item kind this system has no use for.
    Unsupported,
}

/// The encoding of an accepted private key.
#[derive(PartialEq, Eq, Structural, Debug, Clone, Copy)]
pub enum KeyKind {
    /// PKCS#1.
    Pkcs1,
    /// PKCS#8.
    Pkcs8,
    /// SEC1.
    Sec1,
}

/// An accepted private key: its encoding and its DER payload.
#[derive(Debug)]
pub struct PrivateKey {
    /// The key's encoding.
    pub kind: KeyKind,
    /// The key's DER bytes.
    pub der: Vec<u8>,
}

/// An accepted certificate: its DER payload.
#[derive(Debug)]
pub struct Certificate {
    /// The certificate's DER bytes.
    pub der: Vec<u8>,
}

/// What the outside PEM parser returns for an input: the kind and payload
/// of the first section it recognises (skipping sections with unknown
/// labels), `Ok(None)` where it finds no such section, `Err` where the
/// framing is broken. It depends on the bytes alone.
pub uninterp spec fn pem_first_item(input: Seq<u8>) -> Result<Option<(PemItemKind, Seq<u8>)>, ()>;

/// Relies on rustls_pemfile::read_one_from_slice: decodes the first PEM
/// section it recognises in the input, telling the kinds apart by label.
#[verifier::external_body]
fn read_pem_item(input: &[u8]) -> (r: Result<Option<PemItem>, PemError>)
    ensures
        match r {
            Ok(Some(item)) => pem_first_item(input@) == Ok::<Option<(PemItemKind, Seq<u8>)>, ()>(
                Some((item.kind, item.der@)),
            ),
            Ok(None) => pem_first_item(input@) == Ok::<Option<(PemItemKind, Seq<u8>)>, ()>(None),
            Err(e) => pem_first_item(input@) is Err && e == PemError::Malformed,
        },
{
    match rustls_pemfile::read_one_from_slice(input) {
        Ok(Some((item, _))) => Ok(Some(match item {
            Item::X509Certificate(d) => pem_item(X509Certificate, d.as_ref().to_vec()),
            Item::Pkcs1Key(d) => pem_item(Pkcs1Key, d.secret_pkcs1_der().to_vec()),
            Item::Pkcs8Key(d) => pem_item(Pkcs8Key, d.secret_pkcs8_der().to_vec()),
            Item::Sec1Key(d) => pem_item(Sec1Key, d.secret_sec1_der().to_vec()),
            Item::Crl(d) => pem_item(Crl, d.as_ref().to_vec()),
            Item::Csr(d) => pem_item(Csr, d.as_ref().to_vec()),
            _ => pem_item(Other, Vec::new()),
        })),
        Ok(None) => Ok(None),
        Err(_) => Err(PemError::Malformed),
    }
}

/// Which key, if any, a PEM section kind yields where a key is expected.
pub open spec fn classify_key_kind(kind: PemItemKind) -> Result<KeyKind, PemError> {
    match kind {
        PemItemKind::Pkcs1Key => Ok(KeyKind::Pkcs1),
        PemItemKind::Pkcs8Key => Ok(KeyKind::Pkcs8),
        PemItemKind::Sec1Key => Ok(KeyKind::Sec1),
        PemItemKind::X509Certificate => Err(PemError::FoundCertificate),
        PemItemKind::Crl => Err(PemError::FoundCrl),
        PemItemKind::Csr => Err(PemError::FoundCsr),
        PemItemKind::Other => Err(PemError::Unsupported),
    }
}

/// Whether a PEM section kind is acceptable where a certificate is expected,
/// and with which error it is rejected otherwise.
pub open spec fn classify_cert_kind(kind: PemItemKind) -> Result<(), PemError> {
    match kind {
        PemItemKind::X509Certificate => Ok(()),
        PemItemKind::Pkcs1Key => Err(PemError::FoundKey),
        PemItemKind::Pkcs8Key => Err(PemError::FoundKey),
        PemItemKind::Sec1Key => Err(PemError::FoundKey),
        PemItemKind::Crl => Err(PemError::FoundCrl),
        PemItemKind::Csr => Err(PemError::FoundCsr),
        PemItemKind::Other => Err(PemError::Unsupported),
    }
}

/// What loading a private key from the given parse outcome must yield.
pub open spec fn load_key_result(p: Result<Option<(PemItemKind, Seq<u8>)>, ()>) -> Result<
    (KeyKind, Seq<u8>),
    PemError,
> {
    match p {
        Err(_) => Err(PemError::Malformed),
        Ok(None) => Err(PemError::NoItem),
        Ok(Some((kind, der))) => match classify_key_kind(kind) {
            Ok(k) => Ok((k, der)),
            Err(e) => Err(e),
        },
    }
}

/// What loading a certificate from the given parse outcome must yield.
pub open spec fn load_cert_result(p: Result<Option<(PemItemKind, Seq<u8>)>, ()>) -> Result<
    Seq<u8>,
    PemError,
> {
    match p {
        Err(_) => Err(PemError::Malformed),
        Ok(None) => Err(PemError::NoItem),
        Ok(Some((kind, der))) => match classify_cert_kind(kind) {
            Ok(_) => Ok(der),
            Err(e) => Err(e),
        },
    }
}

/// Accept a decoded PEM section as a private key, or reject it with the
/// error its kind owes.
pub fn classify_key(item: PemItem) -> (r: Result<PrivateKey, PemError>)
    ensures
        match r {
            Ok(pk) => classify_key_kind(item.kind) == Ok::<KeyKind, PemError>(pk.kind) && pk.der
                == item.der,
            Err(e) => classify_key_kind(item.kind) == Err::<KeyKind, PemError>(e),
        },
{
    match item.kind {
        PemItemKind::Pkcs1Key => Ok(PrivateKey { kind: KeyKind::Pkcs1, der: item.der }),
        PemItemKind::Pkcs8Key => Ok(PrivateKey { kind: KeyKind::Pkcs8, der: item.der }),
        PemItemKind::Sec1Key => Ok(PrivateKey { kind: KeyKind::Sec1, der: item.der }),
        PemItemKind::X509Certificate => Err(PemError::FoundCertificate),
        PemItemKind::Crl => Err(PemError::FoundCrl),
        PemItemKind::Csr => Err(PemError::FoundCsr),
        PemItemKind::Other => Err(PemError::Unsupported),
    }
}

/// Accept a decoded PEM section as a certificate, or reject it with the
/// error its kind owes.
pub fn classify_cert(item: PemItem) -> (r: Result<Certificate, PemError>)
    ensures
        match r {
            Ok(c) => classify_cert_kind(item.kind) == Ok::<(), PemError>(()) && c.der == item.der,
            Err(e) => classify_cert_kind(item.kind) == Err::<(), PemError>(e),
        },
{
    match item.kind {
        PemItemKind::X509Certificate => Ok(Certificate { der: item.der }),
        PemItemKind::Pkcs1Key => Err(PemError::FoundKey),
        PemItemKind::Pkcs8Key => Err(PemError::FoundKey),
        PemItemKind::Sec1Key => Err(PemError::FoundKey),
        PemItemKind::Crl => Err(PemError::FoundCrl),
        PemItemKind::Csr => Err(PemError::FoundCsr),
        PemItemKind::Other => Err(PemError::Unsupported),
    }
}

/// Load a private key from PEM bytes: the first section must be a key, and a
/// certificate, CRL, CSR or other kind in its place is a descriptive error.
pub fn load_pem_key(input: &[u8]) -> (r: Result<PrivateKey, PemError>)
    ensures
        match r {
            Ok(pk) => load_key_result(pem_first_item(input@)) == Ok::<
                (KeyKind, Seq<u8>),
                PemError,
            >((pk.kind, pk.der@)),
            Err(e) => load_key_result(pem_first_item(input@)) == Err::<
                (KeyKind, Seq<u8>),
                PemError,
            >(e),
        },
{
    match read_pem_item(input) {
        Ok(Some(item)) => classify_key(item),
        Ok(None) => Err(PemError::NoItem),
        Err(e) => Err(e),
    }
}

/// Load a certificate from PEM bytes: the first section must be a
/// certificate, and a key, CRL, CSR or other kind in its place is a
/// descriptive error.
pub fn load_pem_cert(input: &[u8]) -> (r: Result<Certificate, PemError>)
    ensures
        match r {
            Ok(c) => load_cert_result(pem_first_item(input@)) == Ok::<Seq<u8>, PemError>(c.der@),
            Err(e) => load_cert_result(pem_first_item(input@)) == Err::<Seq<u8>, PemError>(e),
        },
{
    match read_pem_item(input) {
        Ok(Some(item)) => classify_cert(item),
        Ok(None) => Err(PemError::NoItem),
        Err(e) => Err(e),
    }
}

/// The peer-certificate policy: verification of the remote peer's
/// certificate is unconditionally bypassed. The deliberate, documented
/// choice this system makes; the surrounding transport configuration
/// implements it.
pub struct NoCertificateVerification {}

} // verus!
