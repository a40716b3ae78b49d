//! TLS material from configuration: certificates and private keys in PEM
//! form, and the choice of the certificate to present.

use rustls_pemfile::{certs, read_one, Item};
use std::io::Cursor;
use vstd::prelude::*;
use vstd::string::StringExecFns;

verus! {

/// The kind of a PEM section, as far as loading a private key cares.
#[derive(Debug, Clone, Copy, PartialEq, Eq)]
pub enum PemKind {
    /// `PRIVATE KEY`: a PKCS #8 private key.
    Pkcs8Key,
    /// `RSA PRIVATE KEY`: a PKCS #1 private key.
    Pkcs1Key,
    /// `EC PRIVATE KEY`: a SEC1 private key.
    Sec1Key,
    /// Any other section.
    Other,
}

/// The form of a private key.
#[derive(Debug, Clone, Copy, PartialEq, Eq)]
pub enum KeyKind {
    Pkcs8,
    Pkcs1,
    Sec1,
}

/// A private key in DER form.
#[derive(Debug, Clone, PartialEq, Eq)]
pub struct PrivateKey {
    pub kind: KeyKind,
    pub der: Vec<u8>,
}

/// The certificates that `rustls_pemfile::certs` reads from `pem`, in DER
/// form, or the text of the error it stops at.
pub uninterp spec fn pem_certificates(pem: Seq<u8>) -> Result<Seq<Seq<u8>>, Seq<char>>;

/// The first section that `rustls_pemfile::read_one` reads from `pem`:
/// its kind and, for a private key, its DER form; or the text of the
/// error.
pub uninterp spec fn pem_first_item(pem: Seq<u8>) -> Result<Option<(PemKind, Seq<u8>)>, Seq<char>>;

/// The DER forms of a list of certificates.
pub open spec fn ders(list: Seq<Vec<u8>>) -> Seq<Seq<u8>> {
    list.map_values(|der: Vec<u8>| der@)
}

/// `rustls_pemfile::certs` on bytes held in memory: every certificate of
/// the PEM text, or the first error.
#[verifier::external_body]
fn read_certificates(pem: &[u8]) -> (read: Result<Vec<Vec<u8>>, String>)
    ensures
        match read {
            Ok(list) => pem_certificates(pem@) == Ok::<Seq<Seq<u8>>, Seq<char>>(ders(list@)),
            Err(err) => pem_certificates(pem@) == Err::<Seq<Seq<u8>>, Seq<char>>(err@),
        },
{
    certs(&mut Cursor::new(pem)).map(
        |cert| cert.map(|der| der.as_ref().to_vec()).map_err(|err| err.to_string()),
    ).collect()
}

/// `rustls_pemfile::read_one` on bytes held in memory: the first section
/// of the PEM text, if there is one, or the error.
#[verifier::external_body]
fn read_first_item(pem: &[u8]) -> (read: Result<Option<(PemKind, Vec<u8>)>, String>)
    ensures
        match read {
            Ok(Some((kind, der))) => pem_first_item(pem@) == Ok::<
                Option<(PemKind, Seq<u8>)>,
                Seq<char>,
            >(Some((kind, der@))),
            Ok(None) => pem_first_item(pem@) == Ok::<Option<(PemKind, Seq<u8>)>, Seq<char>>(None),
            Err(err) => pem_first_item(pem@) == Err::<Option<(PemKind, Seq<u8>)>, Seq<char>>(err@),
        },
{
    match read_one(&mut Cursor::new(pem)) {
        Ok(Some(Item::Pkcs8Key(key))) => Ok(Some((PemKind::Pkcs8Key, key.secret_pkcs8_der().to_vec()))),
        Ok(Some(Item::Pkcs1Key(key))) => Ok(Some((PemKind::Pkcs1Key, key.secret_pkcs1_der().to_vec()))),
        Ok(Some(Item::Sec1Key(key))) => Ok(Some((PemKind::Sec1Key, key.secret_sec1_der().to_vec()))),
        Ok(Some(_)) => Ok(Some((PemKind::Other, Vec::new()))),
        Ok(None) => Ok(None),
        Err(err) => Err(err.to_string()),
    }
}

/// The name of a setting of the certificate `cert_id`, in quotes.
pub open spec fn setting(cert_id: Seq<char>, name: Seq<char>) -> Seq<char> {
    "\"certificate."@ + cert_id + "."@ + name + "\""@
}

/// `result` is what reading the certificates of `cert_id` comes to: the
/// certificates, if any were read, and otherwise a message that names the
/// setting.
pub open spec fn certificates_loaded(
    cert_id: Seq<char>,
    read: Result<Seq<Seq<u8>>, Seq<char>>,
    result: Result<Vec<Vec<u8>>, String>,
) -> bool {
    match read {
        Err(err) => result matches Err(message) && message@ == "Failed to read certificates in "@
            + setting(cert_id, "cert"@) + ": "@ + err,
        Ok(list) => if list.len() > 0 {
            result matches Ok(certs) && ders(certs@) == list
        } else {
            result matches Err(message) && message@ == "No certificates found in "@ + setting(
                cert_id,
                "cert"@,
            ) + "."@
        },
    }
}

/// `result` is what reading the private key of `cert_id` comes to: the key
/// in the first section, if that is a private key, and otherwise a message
/// that names the setting.
pub open spec fn private_key_loaded(
    cert_id: Seq<char>,
    read: Result<Option<(PemKind, Seq<u8>)>, Seq<char>>,
    result: Result<PrivateKey, String>,
) -> bool {
    match read {
        Err(err) => result matches Err(message) && message@ == "Failed to read private keys in "@
            + setting(cert_id, "private-key"@) + ": "@ + err,
        Ok(Some((PemKind::Pkcs8Key, der))) => result matches Ok(key) && key.kind == KeyKind::Pkcs8
            && key.der@ == der,
        Ok(Some((PemKind::Pkcs1Key, der))) => result matches Ok(key) && key.kind == KeyKind::Pkcs1
            && key.der@ == der,
        Ok(Some((PemKind::Sec1Key, der))) => result matches Ok(key) && key.kind == KeyKind::Sec1
            && key.der@ == der,
        Ok(Some((PemKind::Other, _))) => result matches Err(message) && message@
            == "Unsupported private keys found in "@ + setting(cert_id, "private-key"@) + "."@,
        Ok(None) => result matches Err(message) && message@ == "No private keys found in "@
            + setting(cert_id, "private-key"@) + "."@,
    }
}

/// `start`, the quoted name of a setting of `cert_id`, and `end`.
fn message(start: &str, cert_id: &str, name: &str, end: &str) -> (text: String)
    ensures
        text@ == start@ + setting(cert_id@, name@) + end@,
{
    let mut text = String::from_str(start);
    text.append("\"certificate.");
    text.append(cert_id);
    text.append(".");
    text.append(name);
    text.append("\"");
    text.append(end);
    assert(text@ =~= start@ + setting(cert_id@, name@) + end@);
    text
}

/// What the certificates read for `cert_id` come to.
pub fn certificates_from(cert_id: &str, read: Result<Vec<Vec<u8>>, String>) -> (result: Result<
    Vec<Vec<u8>>,
    String,
>)
    ensures
        certificates_loaded(
            cert_id@,
            match read {
                Ok(list) => Ok(ders(list@)),
                Err(err) => Err(err@),
            },
            result,
        ),
{
    match read {
        Ok(certs) => {
            if certs.len() > 0 {
                Ok(certs)
            } else {
                assert(ders(certs@).len() == 0);
                Err(message("No certificates found in ", cert_id, "cert", "."))
            }
        },
        Err(err) => {
            let mut text = message("Failed to read certificates in ", cert_id, "cert", ": ");
            text.append(err.as_str());
            Err(text)
        },
    }
}

/// What the first PEM section read for `cert_id` comes to as a private
/// key.
pub fn private_key_from(cert_id: &str, read: Result<Option<(PemKind, Vec<u8>)>, String>) -> (result:
    Result<PrivateKey, String>)
    ensures
        private_key_loaded(
            cert_id@,
            match read {
                Ok(Some((kind, der))) => Ok(Some((kind, der@))),
                Ok(None) => Ok(None),
                Err(err) => Err(err@),
            },
            result,
        ),
{
    match read {
        Ok(Some((PemKind::Pkcs8Key, der))) => Ok(PrivateKey { kind: KeyKind::Pkcs8, der }),
        Ok(Some((PemKind::Pkcs1Key, der))) => Ok(PrivateKey { kind: KeyKind::Pkcs1, der }),
        Ok(Some((PemKind::Sec1Key, der))) => Ok(PrivateKey { kind: KeyKind::Sec1, der }),
        Ok(Some((PemKind::Other, _))) => Err(
            message("Unsupported private keys found in ", cert_id, "private-key", "."),
        ),
        Ok(None) => Err(message("No private keys found in ", cert_id, "private-key", ".")),
        Err(err) => {
            let mut text = message("Failed to read private keys in ", cert_id, "private-key", ": ");
            text.append(err.as_str());
            Err(text)
        },
    }
}

/// The certificates of `cert_id`, read from the PEM text `pem` of its
/// `cert` setting.
pub fn rustls_certificate(cert_id: &str, pem: &[u8]) -> (result: Result<Vec<Vec<u8>>, String>)
    ensures
        certificates_loaded(cert_id@, pem_certificates(pem@), result),
{
    certificates_from(cert_id, read_certificates(pem))
}

/// The private key of `cert_id`, read from the PEM text `pem` of its
/// `private-key` setting.
pub fn rustls_private_key(cert_id: &str, pem: &[u8]) -> (result: Result<PrivateKey, String>)
    ensures
        private_key_loaded(cert_id@, pem_first_item(pem@), result),
{
    private_key_from(cert_id, read_first_item(pem))
}

/// The certificate to present: the one that matches the name the client
/// asked for, or else the default.
pub fn select_certificate<T>(by_name: Option<T>, default_cert: Option<T>) -> (chosen: Option<T>)
    ensures
        chosen == if by_name is Some {
            by_name
        } else {
            default_cert
        },
{
    match by_name {
        Some(cert) => Some(cert),
        None => default_cert,
    }
}

} // verus!
