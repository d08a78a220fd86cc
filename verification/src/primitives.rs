//! What the crate takes from `base64`, `ring`, `rustls` and `rustls_pemfile`,
//! as functions from octets to octets.

use base64::Engine;
use vstd::prelude::*;

verus! {

/// The most octets that a digest is asked for.
pub const MAX_DIGEST_BYTES: u64 = 0x0fff_ffff_ffff_ffff;

/// Octets in standard base64, padded.
pub uninterp spec fn base64_text(bytes: Seq<u8>) -> Seq<char>;

/// `base64`'s standard engine encodes octets; the text depends on them alone.
/// It panics where the length of the text would overflow, which the bound
/// rules out.
#[verifier::external_body]
pub(crate) fn encode_base64(bytes: &[u8]) -> (text: String)
    requires
        bytes@.len() <= usize::MAX / 4,
    ensures
        text@ == base64_text(bytes@),
{
    base64::engine::general_purpose::STANDARD.encode(bytes)
}

/// The octets that a text is in standard base64, where it is base64.
pub uninterp spec fn base64_octets(text: Seq<char>) -> Option<Seq<u8>>;

/// `base64`'s standard engine decodes a text or refuses it, by the text alone.
/// There are never more octets than characters.
#[verifier::external_body]
pub(crate) fn decode_base64(text: &str) -> (bytes: Option<Vec<u8>>)
    ensures
        match bytes {
            Some(b) => base64_octets(text@) == Some(b@) && b@.len() <= text@.len(),
            None => base64_octets(text@) is None,
        },
{
    base64::engine::general_purpose::STANDARD.decode(text).ok()
}

/// The SHA-256 digest of octets.
pub uninterp spec fn sha256(bytes: Seq<u8>) -> Seq<u8>;

/// `ring::digest::digest` with `SHA256`: thirty-two octets that depend on the
/// data alone. It panics on data longer than the digest admits, which the bound
/// rules out.
#[verifier::external_body]
pub(crate) fn sha256_of(bytes: &[u8]) -> (digest: Vec<u8>)
    requires
        bytes@.len() <= MAX_DIGEST_BYTES,
    ensures
        digest@ == sha256(bytes@),
        digest@.len() == 32,
{
    ring::digest::digest(&ring::digest::SHA256, bytes).as_ref().to_vec()
}

/// Whether a DER-encoded ECDSA P-256 signature over the SHA-256 digest of a
/// message is the key's.
pub uninterp spec fn ecdsa_asn1_holds(key: Seq<u8>, message: Seq<u8>, signature: Seq<u8>) -> bool;

/// `ring::signature::UnparsedPublicKey::verify` with `ECDSA_P256_SHA256_ASN1`,
/// which goes by the key, the message and the signature alone. It digests the
/// message, so the message is bounded as a digest's data are.
#[verifier::external_body]
pub(crate) fn verify_ecdsa_asn1(key: &[u8], message: &[u8], signature: &[u8]) -> (holds: bool)
    requires
        message@.len() <= MAX_DIGEST_BYTES,
    ensures
        holds == ecdsa_asn1_holds(key@, message@, signature@),
{
    ring::signature::UnparsedPublicKey::new(&ring::signature::ECDSA_P256_SHA256_ASN1, key)
        .verify(message, signature)
        .is_ok()
}

/// Whether an ECDSA P-256 signature, written as two numbers of thirty-two
/// octets, over the SHA-256 digest of a message is the key's.
pub uninterp spec fn ecdsa_fixed_holds(key: Seq<u8>, message: Seq<u8>, signature: Seq<u8>) -> bool;

/// `ring::signature::UnparsedPublicKey::verify` with `ECDSA_P256_SHA256_FIXED`,
/// which goes by the key, the message and the signature alone. It digests the
/// message, so the message is bounded as a digest's data are.
#[verifier::external_body]
pub(crate) fn verify_ecdsa_fixed(key: &[u8], message: &[u8], signature: &[u8]) -> (holds: bool)
    requires
        message@.len() <= MAX_DIGEST_BYTES,
    ensures
        holds == ecdsa_fixed_holds(key@, message@, signature@),
{
    ring::signature::UnparsedPublicKey::new(&ring::signature::ECDSA_P256_SHA256_FIXED, key)
        .verify(message, signature)
        .is_ok()
}

/// The certificates in a PEM text, or why the first bad section cannot be read.
pub uninterp spec fn pem_certificates_in(bytes: Seq<u8>) -> Result<Seq<Seq<u8>>, Seq<char>>;

/// What each octet string is.
pub open spec fn octet_strings(list: Seq<Vec<u8>>) -> Seq<Seq<u8>> {
    list.map_values(|bytes: Vec<u8>| bytes@)
}

/// `rustls_pemfile::certs` yields the certificates of a PEM text in order, up
/// to the first section it cannot read; which ones they are, and what that
/// failure says, depends on the text alone. No certificate is longer than the
/// text.
#[verifier::external_body]
pub(crate) fn read_pem(bytes: &[u8]) -> (certificates: Result<Vec<Vec<u8>>, String>)
    ensures
        match certificates {
            Ok(list) => pem_certificates_in(bytes@) == Ok::<Seq<Seq<u8>>, Seq<char>>(
                octet_strings(list@),
            ) && forall|i: int| 0 <= i < list@.len() ==> (#[trigger] list@[i])@.len()
                <= bytes@.len(),
            Err(reason) => pem_certificates_in(bytes@) == Err::<Seq<Seq<u8>>, Seq<char>>(reason@),
        },
{
    let mut reader: &[u8] = bytes;
    rustls_pemfile::certs(&mut reader)
        .map(|item| item.map(|der| der.as_ref().to_vec()).map_err(|error| error.to_string()))
        .collect()
}

/// Why `rustls` does not take a certificate as a root, where it does not.
pub uninterp spec fn root_fault(der: Seq<u8>) -> Option<Seq<char>>;

/// `rustls::RootCertStore::add` takes a certificate as a root or refuses it, by
/// the certificate alone.
#[verifier::external_body]
pub(crate) fn find_root_fault(der: &[u8]) -> (fault: Option<String>)
    ensures
        crate::text::opt_text(fault) == root_fault(der@),
{
    let der = rustls::pki_types::CertificateDer::from(der.to_vec());
    rustls::RootCertStore::empty().add(der).err().map(|error| error.to_string())
}

/// Whether a host can be named in a TLS handshake.
pub uninterp spec fn server_name_holds(host: Seq<char>) -> bool;

/// `rustls::pki_types::ServerName::try_from` takes a host name or an address
/// and refuses anything else, by the text alone.
#[verifier::external_body]
pub(crate) fn is_server_name(host: &str) -> (usable: bool)
    ensures
        usable == server_name_holds(host@),
{
    rustls::pki_types::ServerName::try_from(host).is_ok()
}

} // verus!
