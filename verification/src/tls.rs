//! Picking the certificate chain and the private key out of PEM files.
//!
//! The files are read by the caller. This module takes their bytes, has the
//! PEM sections decoded, and decides whether they hold what serving over TLS
//! needs: at least one certificate, and a PKCS#8 private key.

use vstd::prelude::*;
use vstd::string::StringExecFns;

verus! {

/// `std::io::Error`, carried through as a value that nothing is known of.
#[verifier::external_type_specification]
#[verifier::external_body]
pub struct ExIoError(std::io::Error);

/// The certificates that a PEM file holds, each as its DER bytes, in the
/// order of the file; `None` for a file that cannot be decoded.
pub uninterp spec fn pem_certificates(pem: Seq<u8>) -> Option<Seq<Seq<u8>>>;

/// The PKCS#8 private keys that a PEM file holds, each as its DER bytes, in
/// the order of the file; `None` for a file that cannot be decoded.
pub uninterp spec fn pem_private_keys(pem: Seq<u8>) -> Option<Seq<Seq<u8>>>;

/// Calls `rustls_pemfile::certs` on the bytes of a PEM file. The call decodes
/// the sections of the file and returns the contents of those that are
/// labelled `CERTIFICATE`, or fails on a section that is cut short or badly
/// encoded. Its result depends on the bytes alone; the contract gives that
/// result the name [`pem_certificates`] and claims nothing else of it.
#[verifier::external_body]
fn read_certificates(pem: &[u8]) -> (r: Result<Vec<Vec<u8>>, std::io::Error>)
    ensures
        match r {
            Ok(found) => pem_certificates(pem@) == Some(found.deep_view()),
            Err(_) => pem_certificates(pem@) is None,
        },
{
    rustls_pemfile::certs(&mut std::io::Cursor::new(pem))
}

/// Calls `rustls_pemfile::pkcs8_private_keys` on the bytes of a PEM file. The
/// call decodes the sections of the file and returns the contents of those
/// that are labelled `PRIVATE KEY`, or fails on a section that is cut short
/// or badly encoded. Its result depends on the bytes alone; the contract
/// gives that result the name [`pem_private_keys`] and claims nothing else of
/// it.
#[verifier::external_body]
fn read_private_keys(pem: &[u8]) -> (r: Result<Vec<Vec<u8>>, std::io::Error>)
    ensures
        match r {
            Ok(found) => pem_private_keys(pem@) == Some(found.deep_view()),
            Err(_) => pem_private_keys(pem@) is None,
        },
{
    rustls_pemfile::pkcs8_private_keys(&mut std::io::Cursor::new(pem))
}

/// Calls `to_string` on a `std::io::Error`, which gives the error's text as
/// its `Display` impl writes it. Nothing is claimed of the text.
#[verifier::external_body]
fn describe(error: &std::io::Error) -> (r: String) {
    error.to_string()
}

/// Why TLS could not be set up.
#[derive(Debug, Clone, PartialEq, Eq)]
pub enum TlsError {
    /// Reading or decoding a file failed; the text says how.
    Io(String),
    /// The file at this path does not exist.
    FileNotFound(String),
    /// The key file holds no PKCS#8 private key.
    NoPrivateKey,
    /// The certificate file holds no certificate.
    NoCertificates,
}

/// The mathematical content of a [`TlsError`].
pub enum TlsErrorView {
    Io(Seq<char>),
    FileNotFound(Seq<char>),
    NoPrivateKey,
    NoCertificates,
}

impl View for TlsError {
    type V = TlsErrorView;

    open spec fn view(&self) -> TlsErrorView {
        match self {
            TlsError::Io(text) => TlsErrorView::Io(text@),
            TlsError::FileNotFound(path) => TlsErrorView::FileNotFound(path@),
            TlsError::NoPrivateKey => TlsErrorView::NoPrivateKey,
            TlsError::NoCertificates => TlsErrorView::NoCertificates,
        }
    }
}

/// The text shown for an error.
pub open spec fn tls_error_text(e: TlsErrorView) -> Seq<char> {
    match e {
        TlsErrorView::Io(text) => text,
        TlsErrorView::FileNotFound(path) => "File not found: "@ + path,
        TlsErrorView::NoPrivateKey => "The provided private key file contains no PKCS8 private key"@,
        TlsErrorView::NoCertificates => "The provided certificate file containers no certificate"@,
    }
}

impl TlsError {
    /// The text shown for this error.
    pub fn message(&self) -> (r: String)
        ensures
            r@ == tls_error_text(self@),
    {
        match self {
            TlsError::Io(text) => text.clone(),
            TlsError::FileNotFound(path) => String::from_str("File not found: ").concat(
                path.as_str(),
            ),
            TlsError::NoPrivateKey => String::from_str(
                "The provided private key file contains no PKCS8 private key",
            ),
            TlsError::NoCertificates => String::from_str(
                "The provided certificate file containers no certificate",
            ),
        }
    }
}

/// What serving over TLS needs from the two files.
#[derive(Debug, Clone, PartialEq, Eq)]
pub struct TlsMaterial {
    /// The certificate chain, each certificate as its DER bytes.
    pub certificates: Vec<Vec<u8>>,
    /// The private key, as its DER bytes.
    pub private_key: Vec<u8>,
}

/// Accepts the decoded certificate file when it holds a certificate.
pub fn checked_certificates(decoded: Result<Vec<Vec<u8>>, std::io::Error>) -> (r: Result<
    Vec<Vec<u8>>,
    TlsError,
>)
    ensures
        match decoded {
            Ok(found) => if found@.len() == 0 {
                r matches Err(TlsError::NoCertificates)
            } else {
                r == Ok::<Vec<Vec<u8>>, TlsError>(found)
            },
            Err(_) => r matches Err(TlsError::Io(_)),
        },
{
    match decoded {
        Ok(found) => if found.len() == 0 {
            Err(TlsError::NoCertificates)
        } else {
            Ok(found)
        },
        Err(error) => Err(TlsError::Io(describe(&error))),
    }
}

/// Takes the first private key of the decoded key file.
pub fn first_private_key(decoded: Result<Vec<Vec<u8>>, std::io::Error>) -> (r: Result<
    Vec<u8>,
    TlsError,
>)
    ensures
        match decoded {
            Ok(found) => if found@.len() == 0 {
                r matches Err(TlsError::NoPrivateKey)
            } else {
                r == Ok::<Vec<u8>, TlsError>(found@[0])
            },
            Err(_) => r matches Err(TlsError::Io(_)),
        },
{
    match decoded {
        Ok(found) => {
            let mut found = found;
            if found.len() == 0 {
                Err(TlsError::NoPrivateKey)
            } else {
                Ok(found.remove(0))
            }
        },
        Err(error) => Err(TlsError::Io(describe(&error))),
    }
}

/// What the two files come to.
pub enum TlsVerdict {
    /// Both files are in order: the chain and the key to serve with.
    Material { chain: Seq<Seq<u8>>, key: Seq<u8> },
    /// A file could not be decoded.
    Undecodable,
    /// The certificate file holds no certificate.
    NoCertificates,
    /// The key file holds no PKCS#8 private key.
    NoPrivateKey,
}

/// What the two files come to, given what decoding them gives. The
/// certificate file is judged first.
pub open spec fn tls_verdict(
    certificates: Option<Seq<Seq<u8>>>,
    keys: Option<Seq<Seq<u8>>>,
) -> TlsVerdict {
    match certificates {
        None => TlsVerdict::Undecodable,
        Some(chain) => if chain.len() == 0 {
            TlsVerdict::NoCertificates
        } else {
            match keys {
                None => TlsVerdict::Undecodable,
                Some(found) => if found.len() == 0 {
                    TlsVerdict::NoPrivateKey
                } else {
                    TlsVerdict::Material { chain, key: found[0] }
                },
            }
        },
    }
}

/// Picks the certificate chain and the private key out of the bytes of the
/// certificate file and of the key file.
///
/// Succeeds exactly when both files can be decoded, the first holds at least
/// one certificate and the second at least one PKCS#8 private key; the chain
/// is all certificates of the first file, the key is the first key of the
/// second. A file that cannot be decoded gives `Io`, with a text that depends
/// on the decoder.
pub fn configure_tls(certificate_pem: &[u8], privkey_pem: &[u8]) -> (r: Result<
    TlsMaterial,
    TlsError,
>)
    ensures
        match tls_verdict(pem_certificates(certificate_pem@), pem_private_keys(privkey_pem@)) {
            TlsVerdict::Material { chain, key } => r matches Ok(material)
                && material.certificates.deep_view() == chain && material.private_key@ == key,
            TlsVerdict::Undecodable => r matches Err(TlsError::Io(_)),
            TlsVerdict::NoCertificates => r matches Err(TlsError::NoCertificates),
            TlsVerdict::NoPrivateKey => r matches Err(TlsError::NoPrivateKey),
        },
{
    let certificates = match checked_certificates(read_certificates(certificate_pem)) {
        Ok(chain) => chain,
        Err(e) => {
            return Err(e);
        },
    };
    let private_key = match first_private_key(read_private_keys(privkey_pem)) {
        Ok(key) => key,
        Err(e) => {
            return Err(e);
        },
    };
    Ok(TlsMaterial { certificates, private_key })
}

} // verus!
