//! ES9+: the HTTPS interface between this device and an SM-DP+.
//!
//! `InitiateAuthentication` is the single ES9+ function that needs no
//! activation code and has no effect on anyone's account: it hands an SM-DP+ a
//! challenge the chip just generated and gets back a signed answer.
//!
//! An SM-DP+ does not present a browser-trusted certificate. Its chain ends in
//! a GSMA CI root, and those roots are supplied as files rather than compiled
//! in: they expire, they rotate, and a fleet that has to be rebuilt to accept
//! a new CI is a fleet that stops downloading profiles on a date nobody wrote
//! down. Turning verification off is not an option this module offers.

use crate::ber::{element_in, lemma_element, read, rest_after, tag_is, tag_is_pair, Element};
use crate::aka::hex_upper;
use crate::certificate::{
    certificate_in, describe_fault, fault_text, lemma_signed_part_fits, Certificate,
    CertificateModel,
};
use crate::http::{header_value, response_in, HttpModel, HttpResponse};
use crate::json::{find_json_fault, find_json_text, json_fault, json_text};
use crate::octets::{copy_of, push_all};
use crate::primitives::{
    base64_octets, base64_text, decode_base64, ecdsa_asn1_holds, ecdsa_fixed_holds,
    encode_base64, find_root_fault, is_server_name, octet_strings, pem_certificates_in, read_pem,
    root_fault, server_name_holds, sha256, sha256_of, verify_ecdsa_asn1, verify_ecdsa_fixed,
    MAX_DIGEST_BYTES,
};
use crate::text::{
    chars_of, clone_text, contains_text, decimal, hex_text, hex_text_upper, holds_text, lossy,
    lossy_text, lower, opt_text, owned, push_decimal, push_hex_text, push_hex_text_upper,
    same_ignoring_case, same_text, string_of, trim, trimmed, upper, uppered,
};
use vstd::prelude::*;
use vstd::utf8::encode_utf8;

verus! {

/// Where the GSMA CI roots live when nothing overrides it.
///
/// Outside the binary on purpose: a CI root is an asset with an expiry date,
/// and replacing one should be dropping a file next to the others rather than
/// a release.
pub const DEFAULT_TRUST_DIR: &'static str = "/etc/vodoge/rsp-trust";

/// Environment variable that moves the trust directory, for a bring-up box
/// that is not laid out like the fleet.
pub const TRUST_DIR_ENV: &'static str = "VODOGE_RSP_TRUST_DIR";

/// SGP.22 ES9+ path for `InitiateAuthentication`.
pub const INITIATE_AUTHENTICATION_PATH: &'static str = "/gsma/rsp2/es9plus/initiateAuthentication";

/// The `X-Admin-Protocol` an SGP.22 v2.2 LPA announces.
pub const ADMIN_PROTOCOL: &'static str = "gsma/rsp/v2.2.0";

/// The `User-Agent` SGP.22 section 6.1 prescribes for an LPA in the device.
pub const USER_AGENT: &'static str = "gsma-rsp-lpad";

pub const HTTPS_PORT: u16 = 443;

pub const CONNECT_TIMEOUT_MS: u64 = 10000;

pub const IO_TIMEOUT_MS: u64 = 30000;

/// A refusal from an SM-DP+ is small and a signed answer is a couple of
/// kilobytes. Anything past this is not an ES9+ answer.
pub const MAX_RESPONSE_BYTES: usize = 1048576;

/// An ECDSA P-256 signature as `r || s`.
pub const P256_SIGNATURE_BYTES: usize = 64;

/// How much of a refused answer's body a report quotes.
pub const QUOTED_BODY_CHARS: usize = 400;

/// Everything that can go wrong between here and an SM-DP+.
#[allow(inconsistent_fields)]
#[derive(Clone, Debug, PartialEq, Eq)]
pub enum Es9pError {
    /// No CI roots on disk. Reported by name so the fix is obvious.
    NoTrustAnchors { dir: String },
    TrustDirUnreadable { dir: String, reason: String },
    /// A file in the trust directory is not a certificate.
    TrustAnchorUnusable { file: String, reason: String },
    InvalidHost { host: String },
    ResolveFailed { host: String, reason: String },
    ConnectFailed { host: String, reason: String },
    /// The TLS handshake failed. On this path that usually means the server
    /// certificate did not chain to any CI root we hold, which is the check
    /// working rather than the network being broken.
    TlsFailed { host: String, reason: String },
    IoFailed { reason: String },
    /// The response was not HTTP the way this client can read it.
    MalformedHttp { reason: String },
    HttpStatus { status: u16, body: String },
    MalformedJson { reason: String },
    /// The SM-DP+ understood the request and refused it.
    FunctionFailed {
        status: String,
        subject_code: Option<String>,
        reason_code: Option<String>,
        message: Option<String>,
    },
    MissingField { name: &'static str },
    BadBase64 { field: &'static str },
    /// The `ServerSigned1` structure did not decode.
    MalformedServerSigned { reason: String },
    /// The server echoed a challenge that is not the one this chip produced.
    ///
    /// A replayed answer from an earlier session would pass every other check
    /// here, so this one is what ties the exchange to this card, right now.
    ChallengeMismatch { sent: String, echoed: String },
    /// The server signed an address other than the one we asked.
    AddressMismatch { asked: String, signed: String },
    /// The signing certificate names an authority that is not among the CI
    /// roots we trust.
    UntrustedCertificateAuthority { authority_key_id: String },
    /// A certificate could not be read far enough to check it.
    MalformedCertificate { reason: String },
    /// The CI root did not sign this certificate.
    CertificateSignatureInvalid,
    /// The certificate's key did not sign `ServerSigned1`.
    ServerSignatureInvalid,
}

/// What an error says.
#[allow(inconsistent_fields)]
pub enum Es9pFault {
    NoTrustAnchors { dir: Seq<char> },
    TrustDirUnreadable { dir: Seq<char>, reason: Seq<char> },
    TrustAnchorUnusable { file: Seq<char>, reason: Seq<char> },
    InvalidHost { host: Seq<char> },
    ResolveFailed { host: Seq<char>, reason: Seq<char> },
    ConnectFailed { host: Seq<char>, reason: Seq<char> },
    TlsFailed { host: Seq<char>, reason: Seq<char> },
    IoFailed { reason: Seq<char> },
    MalformedHttp { reason: Seq<char> },
    HttpStatus { status: u16, body: Seq<char> },
    MalformedJson { reason: Seq<char> },
    FunctionFailed {
        status: Seq<char>,
        subject_code: Option<Seq<char>>,
        reason_code: Option<Seq<char>>,
        message: Option<Seq<char>>,
    },
    MissingField { name: &'static str },
    BadBase64 { field: &'static str },
    MalformedServerSigned { reason: Seq<char> },
    ChallengeMismatch { sent: Seq<char>, echoed: Seq<char> },
    AddressMismatch { asked: Seq<char>, signed: Seq<char> },
    UntrustedCertificateAuthority { authority_key_id: Seq<char> },
    MalformedCertificate { reason: Seq<char> },
    CertificateSignatureInvalid,
    ServerSignatureInvalid,
}

impl View for Es9pError {
    type V = Es9pFault;

    open spec fn view(&self) -> Es9pFault {
        match *self {
            Es9pError::NoTrustAnchors { dir } => Es9pFault::NoTrustAnchors { dir: dir@ },
            Es9pError::TrustDirUnreadable { dir, reason } => Es9pFault::TrustDirUnreadable {
                dir: dir@,
                reason: reason@,
            },
            Es9pError::TrustAnchorUnusable { file, reason } => Es9pFault::TrustAnchorUnusable {
                file: file@,
                reason: reason@,
            },
            Es9pError::InvalidHost { host } => Es9pFault::InvalidHost { host: host@ },
            Es9pError::ResolveFailed { host, reason } => Es9pFault::ResolveFailed {
                host: host@,
                reason: reason@,
            },
            Es9pError::ConnectFailed { host, reason } => Es9pFault::ConnectFailed {
                host: host@,
                reason: reason@,
            },
            Es9pError::TlsFailed { host, reason } => Es9pFault::TlsFailed {
                host: host@,
                reason: reason@,
            },
            Es9pError::IoFailed { reason } => Es9pFault::IoFailed { reason: reason@ },
            Es9pError::MalformedHttp { reason } => Es9pFault::MalformedHttp { reason: reason@ },
            Es9pError::HttpStatus { status, body } => Es9pFault::HttpStatus { status, body: body@ },
            Es9pError::MalformedJson { reason } => Es9pFault::MalformedJson { reason: reason@ },
            Es9pError::FunctionFailed { status, subject_code, reason_code, message } => Es9pFault::FunctionFailed {
                status: status@,
                subject_code: opt_text(subject_code),
                reason_code: opt_text(reason_code),
                message: opt_text(message),
            },
            Es9pError::MissingField { name } => Es9pFault::MissingField { name },
            Es9pError::BadBase64 { field } => Es9pFault::BadBase64 { field },
            Es9pError::MalformedServerSigned { reason } => Es9pFault::MalformedServerSigned { reason: reason@ },
            Es9pError::ChallengeMismatch { sent, echoed } => Es9pFault::ChallengeMismatch {
                sent: sent@,
                echoed: echoed@,
            },
            Es9pError::AddressMismatch { asked, signed } => Es9pFault::AddressMismatch {
                asked: asked@,
                signed: signed@,
            },
            Es9pError::UntrustedCertificateAuthority { authority_key_id } => Es9pFault::UntrustedCertificateAuthority {
                authority_key_id: authority_key_id@,
            },
            Es9pError::MalformedCertificate { reason } => Es9pFault::MalformedCertificate { reason: reason@ },
            Es9pError::CertificateSignatureInvalid => Es9pFault::CertificateSignatureInvalid,
            Es9pError::ServerSignatureInvalid => Es9pFault::ServerSignatureInvalid,
        }
    }
}

impl Es9pFault {
    /// What the error says.
    pub open spec fn text(self) -> Seq<char> {
        match self {
            Es9pFault::NoTrustAnchors { dir } => "no GSMA CI root certificates in "@ + dir
                + "; an SM-DP+ cannot be verified without one"@,
            Es9pFault::TrustDirUnreadable { dir, reason } => "cannot read trust directory "@ + dir
                + ": "@ + reason,
            Es9pFault::TrustAnchorUnusable { file, reason } => "trust anchor "@ + file + ": "@
                + reason,
            Es9pFault::InvalidHost { host } => host + " is not a usable host name"@,
            Es9pFault::ResolveFailed { host, reason } => "cannot resolve "@ + host + ": "@ + reason,
            Es9pFault::ConnectFailed { host, reason } => "cannot connect to "@ + host + ": "@
                + reason,
            Es9pFault::TlsFailed { host, reason } => "TLS to "@ + host
                + " failed against the GSMA CI roots: "@ + reason,
            Es9pFault::IoFailed { reason } => "transfer failed: "@ + reason,
            Es9pFault::MalformedHttp { reason } => "malformed HTTP response: "@ + reason,
            Es9pFault::HttpStatus { status, body } => "SM-DP+ answered HTTP "@
                + decimal(status as nat) + ": "@ + body,
            Es9pFault::MalformedJson { reason } => "malformed ES9+ JSON: "@ + reason,
            Es9pFault::FunctionFailed { status, subject_code, reason_code, message } => "SM-DP+ refused the request: "@ + status + (match subject_code {
                Some(t) => " subject "@ + t,
                None => Seq::empty(),
            }) + (match reason_code {
                Some(t) => " reason "@ + t,
                None => Seq::empty(),
            }) + (match message {
                Some(t) => " ("@ + t + ")"@,
                None => Seq::empty(),
            }),
            Es9pFault::MissingField { name } => "ES9+ answer has no "@ + name@,
            Es9pFault::BadBase64 { field } => field@ + " is not valid base64"@,
            Es9pFault::MalformedServerSigned { reason } => "malformed serverSigned1: "@ + reason,
            Es9pFault::ChallengeMismatch { sent, echoed } => "SM-DP+ echoed challenge "@ + echoed
                + ", this eUICC produced "@ + sent,
            Es9pFault::AddressMismatch { asked, signed } => "SM-DP+ signed the address "@ + signed
                + " for a request sent to "@ + asked,
            Es9pFault::UntrustedCertificateAuthority { authority_key_id } => "SM-DP+ certificate names CI key "@
                + authority_key_id + ", which is not among the roots we hold"@,
            Es9pFault::MalformedCertificate { reason } => "malformed certificate: "@ + reason,
            Es9pFault::CertificateSignatureInvalid => "the GSMA CI root did not sign the SM-DP+ certificate"@,
            Es9pFault::ServerSignatureInvalid => "serverSignature1 does not match serverSigned1"@,
        }
    }
}

impl Es9pError {
    pub fn push_to(&self, out: &mut String)
        ensures
            final(out)@ == old(out)@ + self@.text(),
    {
        match self {
            Es9pError::NoTrustAnchors { dir } => {
                out.append("no GSMA CI root certificates in ");
                out.append(dir.as_str());
                out.append("; an SM-DP+ cannot be verified without one");
            },
            Es9pError::TrustDirUnreadable { dir, reason } => {
                out.append("cannot read trust directory ");
                out.append(dir.as_str());
                out.append(": ");
                out.append(reason.as_str());
            },
            Es9pError::TrustAnchorUnusable { file, reason } => {
                out.append("trust anchor ");
                out.append(file.as_str());
                out.append(": ");
                out.append(reason.as_str());
            },
            Es9pError::InvalidHost { host } => {
                out.append(host.as_str());
                out.append(" is not a usable host name");
            },
            Es9pError::ResolveFailed { host, reason } => {
                out.append("cannot resolve ");
                out.append(host.as_str());
                out.append(": ");
                out.append(reason.as_str());
            },
            Es9pError::ConnectFailed { host, reason } => {
                out.append("cannot connect to ");
                out.append(host.as_str());
                out.append(": ");
                out.append(reason.as_str());
            },
            Es9pError::TlsFailed { host, reason } => {
                out.append("TLS to ");
                out.append(host.as_str());
                out.append(" failed against the GSMA CI roots: ");
                out.append(reason.as_str());
            },
            Es9pError::IoFailed { reason } => {
                out.append("transfer failed: ");
                out.append(reason.as_str());
            },
            Es9pError::MalformedHttp { reason } => {
                out.append("malformed HTTP response: ");
                out.append(reason.as_str());
            },
            Es9pError::HttpStatus { status, body } => {
                out.append("SM-DP+ answered HTTP ");
                push_decimal(out, *status as u64);
                out.append(": ");
                out.append(body.as_str());
            },
            Es9pError::MalformedJson { reason } => {
                out.append("malformed ES9+ JSON: ");
                out.append(reason.as_str());
            },
            Es9pError::FunctionFailed { status, subject_code, reason_code, message } => {
                out.append("SM-DP+ refused the request: ");
                out.append(status.as_str());
                if let Some(t) = subject_code {
                    out.append(" subject ");
                    out.append(t.as_str());
                }
                if let Some(t) = reason_code {
                    out.append(" reason ");
                    out.append(t.as_str());
                }
                if let Some(t) = message {
                    out.append(" (");
                    out.append(t.as_str());
                    out.append(")");
                }
            },
            Es9pError::MissingField { name } => {
                out.append("ES9+ answer has no ");
                out.append(name);
            },
            Es9pError::BadBase64 { field } => {
                out.append(field);
                out.append(" is not valid base64");
            },
            Es9pError::MalformedServerSigned { reason } => {
                out.append("malformed serverSigned1: ");
                out.append(reason.as_str());
            },
            Es9pError::ChallengeMismatch { sent, echoed } => {
                out.append("SM-DP+ echoed challenge ");
                out.append(echoed.as_str());
                out.append(", this eUICC produced ");
                out.append(sent.as_str());
            },
            Es9pError::AddressMismatch { asked, signed } => {
                out.append("SM-DP+ signed the address ");
                out.append(signed.as_str());
                out.append(" for a request sent to ");
                out.append(asked.as_str());
            },
            Es9pError::UntrustedCertificateAuthority { authority_key_id } => {
                out.append("SM-DP+ certificate names CI key ");
                out.append(authority_key_id.as_str());
                out.append(", which is not among the roots we hold");
            },
            Es9pError::MalformedCertificate { reason } => {
                out.append("malformed certificate: ");
                out.append(reason.as_str());
            },
            Es9pError::CertificateSignatureInvalid => {
                out.append("the GSMA CI root did not sign the SM-DP+ certificate");
            },
            Es9pError::ServerSignatureInvalid => {
                out.append("serverSignature1 does not match serverSigned1");
            },
        }
        proof {
            assert(out@ =~= old(out)@ + self@.text());
        }
    }

    pub fn to_string(&self) -> (text: String)
        ensures
            text@ == self@.text(),
    {
        let mut text: String = String::new();
        self.push_to(&mut text);
        proof {
            assert(text@ =~= self@.text());
        }
        text
    }
}

// ---------------------------------------------------------------------------
// Trust anchors
// ---------------------------------------------------------------------------

/// One GSMA CI root, with the facts an operator needs to recognise it.
///
/// The fingerprint and expiry are carried rather than derived at the point of
/// use so a console can render *which* root a session was verified against.
#[derive(Clone, Debug, PartialEq, Eq)]
pub struct TrustAnchor {
    /// File name it was loaded from.
    pub label: String,
    /// SHA-256 of the DER, lowercase hex.
    pub sha256: String,
    /// Subject key identifier, uppercase hex. This is the value an eUICC
    /// reports in `euiccCiPKIdListForVerification` and an SM-DP+ returns as
    /// `euiccCiPKIdToBeUsed`, so it is what makes the three agree or not.
    pub key_id: String,
    /// `notAfter` as ASN.1 wrote it, for example `20520221235959Z`.
    pub not_after: String,
    pub der: Vec<u8>,
}

/// A root, by what its texts say.
#[verifier::ext_equal]
pub struct AnchorModel {
    pub label: Seq<char>,
    pub sha256: Seq<char>,
    pub key_id: Seq<char>,
    pub not_after: Seq<char>,
    pub der: Seq<u8>,
}

impl View for TrustAnchor {
    type V = AnchorModel;

    open spec fn view(&self) -> AnchorModel {
        AnchorModel {
            label: self.label@,
            sha256: self.sha256@,
            key_id: self.key_id@,
            not_after: self.not_after@,
            der: self.der@,
        }
    }
}

/// The models of roots.
pub open spec fn anchor_models(anchors: Seq<TrustAnchor>) -> Seq<AnchorModel> {
    anchors.map_values(|anchor: TrustAnchor| anchor@)
}

/// The trust directory in force: the configured one where it is not blank,
/// else the default.
pub fn trust_dir(configured: Option<&str>) -> (dir: String)
    ensures
        dir@ == (match configured {
            Some(value) => if trimmed(value@).len() > 0 {
                value@
            } else {
                DEFAULT_TRUST_DIR@
            },
            None => DEFAULT_TRUST_DIR@,
        }),
{
    if let Some(value) = configured {
        let chars: Vec<char> = chars_of(value);
        if trim(&chars).len() > 0 {
            return owned(value);
        }
    }
    owned(DEFAULT_TRUST_DIR)
}

/// The certificates in one file of the trust directory, given what reading it as
/// PEM came to.
pub open spec fn certificates_of(label: Seq<char>, read: Result<Seq<Seq<u8>>, Seq<char>>) -> Result<
    Seq<Seq<u8>>,
    Es9pFault,
> {
    match read {
        Err(reason) => Err(Es9pFault::TrustAnchorUnusable { file: label, reason }),
        Ok(list) => if list.len() == 0 {
            Err(
                Es9pFault::TrustAnchorUnusable {
                    file: label,
                    reason: "no CERTIFICATE block"@,
                },
            )
        } else {
            Ok(list)
        },
    }
}

/// The certificates in one file of the trust directory.
pub open spec fn file_certificates(label: Seq<char>, bytes: Seq<u8>) -> Result<
    Seq<Seq<u8>>,
    Es9pFault,
> {
    certificates_of(label, pem_certificates_in(bytes))
}

/// Requires a file of the trust directory to hold certificates, given what reading
/// it as PEM came to.
pub fn require_certificates(label: &str, read: Result<Vec<Vec<u8>>, String>) -> (list: Result<
    Vec<Vec<u8>>,
    Es9pError,
>)
    ensures
        ({
            let wanted = certificates_of(
                label@,
                match read {
                    Ok(l) => Ok(octet_strings(l@)),
                    Err(reason) => Err(reason@),
                },
            );
            match list {
                Ok(l) => wanted == Ok::<Seq<Seq<u8>>, Es9pFault>(octet_strings(l@)) && read
                    == Ok::<Vec<Vec<u8>>, String>(l),
                Err(e) => wanted == Err::<Seq<Seq<u8>>, Es9pFault>(e@),
            }
        }),
{
    match read {
        Err(reason) => Err(Es9pError::TrustAnchorUnusable { file: owned(label), reason }),
        Ok(list) => {
            if list.len() == 0 {
                return Err(
                    Es9pError::TrustAnchorUnusable {
                        file: owned(label),
                        reason: owned("no CERTIFICATE block"),
                    },
                );
            }
            Ok(list)
        },
    }
}

fn pem_certificates(bytes: &[u8], label: &str) -> (list: Result<Vec<Vec<u8>>, Es9pError>)
    ensures
        match list {
            Ok(l) => file_certificates(label@, bytes@) == Ok::<Seq<Seq<u8>>, Es9pFault>(
                octet_strings(l@),
            ) && forall|i: int| 0 <= i < l@.len() ==> (#[trigger] l@[i])@.len() <= bytes@.len(),
            Err(e) => file_certificates(label@, bytes@) == Err::<Seq<Seq<u8>>, Es9pFault>(e@),
        },
{
    require_certificates(label, read_pem(bytes))
}

/// A text, or another where it is absent.
pub open spec fn text_or(text: Option<Seq<char>>, otherwise: Seq<char>) -> Seq<char> {
    match text {
        Some(t) => t,
        None => otherwise,
    }
}

fn owned_or(text: &Option<String>, otherwise: &str) -> (result: String)
    ensures
        result@ == text_or(opt_text(*text), otherwise@),
{
    match text {
        Some(t) => owned(t.as_str()),
        None => owned(otherwise),
    }
}

fn sha256_hex(bytes: &[u8]) -> (text: String)
    requires
        bytes@.len() <= MAX_DIGEST_BYTES,
    ensures
        text@ == hex_text(sha256(bytes@)),
{
    let digest: Vec<u8> = sha256_of(bytes);
    let mut text: String = String::new();
    push_hex_text(&mut text, &digest);
    proof {
        assert(text@ =~= hex_text(sha256(bytes@)));
    }
    text
}

/// The hash of a confirmation code that a card compares: the digest of the
/// code's digest and the transaction together, as SGP.22 defines `hashCc`.
pub open spec fn confirmation_hash(code: Seq<char>, transaction_id: Seq<u8>) -> Seq<u8> {
    sha256(sha256(encode_utf8(code)) + transaction_id)
}

/// SGP.22 `hashCc`.
pub fn hash_confirmation_code(code: &str, transaction_id: &[u8]) -> (hash: Vec<u8>)
    requires
        encode_utf8(code@).len() <= MAX_DIGEST_BYTES,
        transaction_id@.len() + 32 <= MAX_DIGEST_BYTES,
    ensures
        hash@ == confirmation_hash(code@, transaction_id@),
{
    let mut inner: Vec<u8> = sha256_of(code.as_bytes());
    push_all(&mut inner, transaction_id);
    sha256_of(&inner)
}

/// The root that a certificate of the trust directory is.
pub open spec fn anchor_in(label: Seq<char>, der: Seq<u8>) -> Result<AnchorModel, Es9pFault> {
    match certificate_in(der) {
        Err(reason) => Err(Es9pFault::MalformedCertificate { reason }),
        Ok(parsed) => Ok(
            AnchorModel {
                label,
                sha256: hex_text(sha256(der)),
                key_id: text_or(parsed.subject_key_id, "unknown"@),
                not_after: parsed.not_after,
                der,
            },
        ),
    }
}

fn describe_anchor(label: &str, der: &[u8]) -> (anchor: Result<TrustAnchor, Es9pError>)
    requires
        der@.len() <= MAX_DIGEST_BYTES,
    ensures
        match anchor {
            Ok(a) => anchor_in(label@, der@) == Ok::<AnchorModel, Es9pFault>(a@),
            Err(e) => anchor_in(label@, der@) == Err::<AnchorModel, Es9pFault>(e@),
        },
{
    let parsed: Certificate = match Certificate::parse(der) {
        Ok(parsed) => parsed,
        Err(e) => return Err(e),
    };
    let anchor = TrustAnchor {
        label: owned(label),
        sha256: sha256_hex(der),
        key_id: owned_or(&parsed.subject_key_id, "unknown"),
        not_after: owned(parsed.not_after.as_str()),
        der: copy_of(der),
    };
    proof {
        assert(anchor@ =~= anchor_in(label@, der@)->Ok_0);
    }
    Ok(anchor)
}

/// The roots that certificates are, or the first fault among them.
pub open spec fn anchors_of(label: Seq<char>, ders: Seq<Seq<u8>>) -> Result<
    Seq<AnchorModel>,
    Es9pFault,
>
    decreases ders.len(),
{
    if ders.len() == 0 {
        Ok(Seq::empty())
    } else {
        match anchors_of(label, ders.drop_last()) {
            Err(e) => Err(e),
            Ok(before) => match anchor_in(label, ders.last()) {
                Err(e) => Err(e),
                Ok(anchor) => Ok(before.push(anchor)),
            },
        }
    }
}

/// One file of the trust directory: its name, and what is in it or why that
/// could not be read.
pub struct TrustFile {
    pub label: String,
    pub bytes: Result<Vec<u8>, String>,
}

/// A file, by what it says.
#[verifier::ext_equal]
pub struct TrustFileModel {
    pub label: Seq<char>,
    pub bytes: Result<Seq<u8>, Seq<char>>,
}

impl TrustFileModel {
    /// Whether what was read of the file can be digested.
    pub open spec fn fits(self) -> bool {
        self.bytes matches Ok(bytes) ==> bytes.len() <= MAX_DIGEST_BYTES
    }
}

impl View for TrustFile {
    type V = TrustFileModel;

    open spec fn view(&self) -> TrustFileModel {
        TrustFileModel {
            label: self.label@,
            bytes: match self.bytes {
                Ok(bytes) => Ok(bytes@),
                Err(reason) => Err(reason@),
            },
        }
    }
}

/// The models of files.
pub open spec fn file_models(files: Seq<TrustFile>) -> Seq<TrustFileModel> {
    files.map_values(|file: TrustFile| file@)
}

/// The roots in one file.
pub open spec fn file_anchors(file: TrustFileModel) -> Result<Seq<AnchorModel>, Es9pFault> {
    match file.bytes {
        Err(reason) => Err(Es9pFault::TrustAnchorUnusable { file: file.label, reason }),
        Ok(bytes) => match file_certificates(file.label, bytes) {
            Err(e) => Err(e),
            Ok(ders) => anchors_of(file.label, ders),
        },
    }
}

/// The roots in files, or the first fault among them. A file that cannot be read,
/// or that holds no certificate, is a fault rather than skipped.
pub open spec fn anchors_in(files: Seq<TrustFileModel>) -> Result<Seq<AnchorModel>, Es9pFault>
    decreases files.len(),
{
    if files.len() == 0 {
        Ok(Seq::empty())
    } else {
        match anchors_in(files.drop_last()) {
            Err(e) => Err(e),
            Ok(before) => match file_anchors(files.last()) {
                Err(e) => Err(e),
                Ok(more) => Ok(before + more),
            },
        }
    }
}

/// The roots of a trust directory, which has to have some.
pub open spec fn trust_anchors_in(dir: Seq<char>, files: Seq<TrustFileModel>) -> Result<
    Seq<AnchorModel>,
    Es9pFault,
> {
    match anchors_in(files) {
        Err(e) => Err(e),
        Ok(anchors) => if anchors.len() == 0 {
            Err(Es9pFault::NoTrustAnchors { dir })
        } else {
            Ok(anchors)
        },
    }
}

proof fn lemma_anchors_of_prefix(label: Seq<char>, ders: Seq<Seq<u8>>, n: int)
    requires
        0 <= n <= ders.len(),
        anchors_of(label, ders.take(n)) is Err,
    ensures
        anchors_of(label, ders) == anchors_of(label, ders.take(n)),
    decreases ders.len() - n,
{
    if n < ders.len() {
        assert(ders.take(n + 1).drop_last() =~= ders.take(n));
        lemma_anchors_of_prefix(label, ders, n + 1);
    } else {
        assert(ders.take(n) =~= ders);
    }
}

proof fn lemma_anchors_in_prefix(files: Seq<TrustFileModel>, n: int)
    requires
        0 <= n <= files.len(),
        anchors_in(files.take(n)) is Err,
    ensures
        anchors_in(files) == anchors_in(files.take(n)),
    decreases files.len() - n,
{
    if n < files.len() {
        assert(files.take(n + 1).drop_last() =~= files.take(n));
        lemma_anchors_in_prefix(files, n + 1);
    } else {
        assert(files.take(n) =~= files);
    }
}

fn read_file_anchors(file: &TrustFile, anchors: &mut Vec<TrustAnchor>) -> (done: Result<
    (),
    Es9pError,
>)
    requires
        file@.fits(),
    ensures
        match done {
            Ok(_) => file_anchors(file@) is Ok && anchor_models(final(anchors)@) == anchor_models(
                old(anchors)@,
            ) + file_anchors(file@)->Ok_0,
            Err(e) => file_anchors(file@) == Err::<Seq<AnchorModel>, Es9pFault>(e@),
        },
{
    let label: &str = file.label.as_str();
    let bytes: &Vec<u8> = match &file.bytes {
        Ok(bytes) => bytes,
        Err(reason) => return Err(
            Es9pError::TrustAnchorUnusable { file: owned(label), reason: owned(reason.as_str()) },
        ),
    };
    let ders: Vec<Vec<u8>> = match pem_certificates(bytes, label) {
        Ok(ders) => ders,
        Err(e) => return Err(e),
    };
    let ghost all = octet_strings(ders@);
    let ghost before = anchor_models(anchors@);
    let mut i: usize = 0;
    proof {
        assert(all.take(0) =~= Seq::empty());
        assert(before + Seq::<AnchorModel>::empty() =~= before);
    }
    while i < ders.len()
        invariant
            i <= ders@.len(),
            all == octet_strings(ders@),
            label@ == file.label@,
            file_anchors(file@) == anchors_of(label@, all),
            forall|j: int| 0 <= j < ders@.len() ==> (#[trigger] ders@[j])@.len()
                <= MAX_DIGEST_BYTES,
            anchors_of(label@, all.take(i as int)) is Ok,
            anchor_models(anchors@) == before + anchors_of(label@, all.take(i as int))->Ok_0,
        decreases ders@.len() - i,
    {
        proof {
            assert(all.take(i + 1).drop_last() =~= all.take(i as int));
            assert(all.take(i + 1).last() == ders@[i as int]@);
        }
        match describe_anchor(label, &ders[i]) {
            Err(e) => {
                proof {
                    lemma_anchors_of_prefix(label@, all, i + 1);
                }
                return Err(e);
            },
            Ok(anchor) => {
                let ghost so_far = anchor_models(anchors@);
                let ghost shown = anchor@;
                anchors.push(anchor);
                proof {
                    assert(anchor_models(anchors@) =~= so_far.push(shown));
                    assert(anchor_models(anchors@) =~= before + anchors_of(
                        label@,
                        all.take(i + 1),
                    )->Ok_0);
                }
            },
        }
        i = i + 1;
    }
    proof {
        assert(all.take(i as int) =~= all);
    }
    Ok(())
}

/// Read every root certificate of a trust directory, given all of its files in
/// order, whatever their names.
///
/// An unreadable or non-certificate file is an error rather than a skip. A trust
/// directory that silently ignored the file someone just installed would fail
/// later, at a server, with a message about TLS.
pub fn load_trust_anchors(dir: &str, files: &[TrustFile]) -> (anchors: Result<
    Vec<TrustAnchor>,
    Es9pError,
>)
    requires
        forall|i: int| 0 <= i < files@.len() ==> (#[trigger] files@[i])@.fits(),
    ensures
        match anchors {
            Ok(a) => trust_anchors_in(dir@, file_models(files@)) == Ok::<
                Seq<AnchorModel>,
                Es9pFault,
            >(anchor_models(a@)),
            Err(e) => trust_anchors_in(dir@, file_models(files@)) == Err::<
                Seq<AnchorModel>,
                Es9pFault,
            >(e@),
        },
{
    let mut anchors: Vec<TrustAnchor> = Vec::new();
    let ghost all = file_models(files@);
    let mut i: usize = 0;
    proof {
        assert(all.take(0) =~= Seq::empty());
        assert(anchor_models(anchors@) =~= Seq::empty());
    }
    while i < files.len()
        invariant
            i <= files@.len(),
            all == file_models(files@),
            forall|j: int| 0 <= j < files@.len() ==> (#[trigger] files@[j])@.fits(),
            anchors_in(all.take(i as int)) == Ok::<Seq<AnchorModel>, Es9pFault>(
                anchor_models(anchors@),
            ),
        decreases files@.len() - i,
    {
        proof {
            assert(all.take(i + 1).drop_last() =~= all.take(i as int));
            assert(all.take(i + 1).last() == files@[i as int]@);
        }
        match read_file_anchors(&files[i], &mut anchors) {
            Ok(_) => {},
            Err(e) => {
                proof {
                    lemma_anchors_in_prefix(all, i + 1);
                }
                return Err(e);
            },
        }
        i = i + 1;
    }
    proof {
        assert(all.take(i as int) =~= all);
    }
    if anchors.len() == 0 {
        return Err(Es9pError::NoTrustAnchors { dir: owned(dir) });
    }
    Ok(anchors)
}

/// Why a client cannot be pinned to roots, where it cannot: there are none, or
/// the first that TLS does not take.
pub open spec fn client_fault(anchors: Seq<AnchorModel>) -> Option<Es9pFault> {
    if anchors.len() == 0 {
        Some(Es9pFault::NoTrustAnchors { dir: "(none supplied)"@ })
    } else {
        unusable_root(anchors)
    }
}

/// The first root that TLS does not take.
pub open spec fn unusable_root(anchors: Seq<AnchorModel>) -> Option<Es9pFault>
    decreases anchors.len(),
{
    if anchors.len() == 0 {
        None
    } else {
        match root_fault(anchors[0].der) {
            Some(reason) => Some(
                Es9pFault::TrustAnchorUnusable { file: anchors[0].label, reason },
            ),
            None => unusable_root(anchors.skip(1)),
        }
    }
}

/// An ES9+ client pinned to a set of GSMA CI roots.
pub struct Es9pClient {
    anchors: Vec<TrustAnchor>,
}

impl View for Es9pClient {
    type V = Seq<AnchorModel>;

    closed spec fn view(&self) -> Seq<AnchorModel> {
        anchor_models(self.anchors@)
    }
}

impl Es9pClient {
    /// Build a client that will only talk to servers these roots vouch for.
    pub fn new(anchors: Vec<TrustAnchor>) -> (client: Result<Self, Es9pError>)
        ensures
            match client {
                Ok(c) => client_fault(anchor_models(anchors@)) is None && c@ == anchor_models(
                    anchors@,
                ),
                Err(e) => client_fault(anchor_models(anchors@)) == Some(e@),
            },
    {
        if anchors.len() == 0 {
            return Err(Es9pError::NoTrustAnchors { dir: owned("(none supplied)") });
        }
        let ghost models = anchor_models(anchors@);
        let mut i: usize = 0;
        proof {
            assert(models.skip(0) =~= models);
        }
        while i < anchors.len()
            invariant
                i <= anchors@.len(),
                models == anchor_models(anchors@),
                models.len() > 0,
                unusable_root(models.skip(i as int)) == unusable_root(models),
            decreases anchors@.len() - i,
        {
            proof {
                assert(models.skip(i as int).skip(1) =~= models.skip(i + 1));
                assert(models.skip(i as int)[0] == anchors@[i as int]@);
            }
            if let Some(reason) = find_root_fault(&anchors[i].der) {
                return Err(
                    Es9pError::TrustAnchorUnusable {
                        file: owned(anchors[i].label.as_str()),
                        reason,
                    },
                );
            }
            i = i + 1;
        }
        Ok(Es9pClient { anchors })
    }

    /// Build a client from the files of the trust directory in force.
    pub fn from_trust_dir(dir: &str, files: &[TrustFile]) -> (client: Result<Self, Es9pError>)
        requires
            forall|i: int| 0 <= i < files@.len() ==> (#[trigger] files@[i])@.fits(),
        ensures
            match trust_anchors_in(dir@, file_models(files@)) {
                Err(fault) => client matches Err(e) && e@ == fault,
                Ok(anchors) => match client {
                    Ok(c) => client_fault(anchors) is None && c@ == anchors,
                    Err(e) => client_fault(anchors) == Some(e@),
                },
            },
    {
        match load_trust_anchors(dir, files) {
            Ok(anchors) => Es9pClient::new(anchors),
            Err(e) => Err(e),
        }
    }

    pub fn anchors(&self) -> (anchors: &[TrustAnchor])
        ensures
            anchor_models(anchors@) == self@,
    {
        self.anchors.as_slice()
    }

    /// ES9+ `InitiateAuthentication`, given the SM-DP+'s answer to the request
    /// and how long it took.
    ///
    /// Read-only at both ends: the chip supplied the challenge beforehand, and
    /// the server is being asked to identify itself, not to prepare or release
    /// anything.
    pub fn initiate_authentication(
        &self,
        host: &str,
        euicc_challenge: &[u8],
        response: &HttpResponse,
        elapsed_ms: u64,
    ) -> (start: Result<AuthenticationStart, Es9pError>)
        requires
            response.body@.len() <= MAX_DIGEST_BYTES,
        ensures
            match start {
                Ok(s) => authenticated(self@, host@, euicc_challenge@, response@, elapsed_ms)
                    == Ok::<StartModel, Es9pFault>(s@),
                Err(e) => authenticated(self@, host@, euicc_challenge@, response@, elapsed_ms)
                    == Err::<StartModel, Es9pFault>(e@),
            },
    {
        let mut start: AuthenticationStart = match parse_initiate_authentication(&response.body) {
            Ok(start) => start,
            Err(e) => return Err(e),
        };
        start.smdp_address = owned(host);
        start.http_status = response.status;
        start.admin_protocol = response.header("x-admin-protocol");
        start.elapsed_ms = elapsed_ms;
        start.negotiated_tls = clone_text(&response.tls_version);
        proof {
            assert(start@ =~= answered(
                started_in(response.body@)->Ok_0,
                host@,
                response@,
                elapsed_ms,
            ));
        }
        let verified: Verification = match verify_server_credentials(
            &start,
            host,
            euicc_challenge,
            self.anchors.as_slice(),
        ) {
            Ok(verified) => verified,
            Err(e) => return Err(e),
        };
        let ghost unverified = start@;
        let ghost verdict = verified@;
        start.verification = verified;
        proof {
            assert(start@ =~= (StartModel { verification: verdict, ..unverified }));
        }
        Ok(start)
    }
}

// ---------------------------------------------------------------------------
// The exchange
// ---------------------------------------------------------------------------

/// The head of an ES9+ POST. `Connection: close` on purpose: one exchange per
/// session, and the server closing is what marks the end of the body when a
/// proxy decides to answer without a Content-Length.
pub open spec fn request_head(host: Seq<char>, path: Seq<char>, length: nat) -> Seq<char> {
    "POST "@ + path + " HTTP/1.1\r\nHost: "@ + host + "\r\nUser-Agent: "@ + USER_AGENT@
        + "\r\nX-Admin-Protocol: "@ + ADMIN_PROTOCOL@
        + "\r\nContent-Type: application/json\r\nAccept: application/json\r\nContent-Length: "@
        + decimal(length) + "\r\nConnection: close\r\n\r\n"@
}

/// The octets of an ES9+ POST to a host that TLS can name.
pub fn post_request(host: &str, path: &str, body: &[u8]) -> (request: Result<Vec<u8>, Es9pError>)
    ensures
        match request {
            Ok(r) => server_name_holds(host@) && r@ == encode_utf8(
                request_head(host@, path@, body@.len()),
            ) + body@,
            Err(e) => !server_name_holds(host@) && e@ == (Es9pFault::InvalidHost { host: host@ }),
        },
{
    if !is_server_name(host) {
        return Err(Es9pError::InvalidHost { host: owned(host) });
    }
    let mut head: String = String::new();
    head.append("POST ");
    head.append(path);
    head.append(" HTTP/1.1\r\nHost: ");
    head.append(host);
    head.append("\r\nUser-Agent: ");
    head.append(USER_AGENT);
    head.append("\r\nX-Admin-Protocol: ");
    head.append(ADMIN_PROTOCOL);
    head.append(
        "\r\nContent-Type: application/json\r\nAccept: application/json\r\nContent-Length: ",
    );
    push_decimal(&mut head, body.len() as u64);
    head.append("\r\nConnection: close\r\n\r\n");
    proof {
        assert(head@ =~= request_head(host@, path@, body@.len()));
    }
    let mut request: Vec<u8> = copy_of(head.as_str().as_bytes());
    push_all(&mut request, body);
    Ok(request)
}

/// An answer as it arrives, chunk by chunk.
pub struct AnswerReader {
    pub raw: Vec<u8>,
}

impl AnswerReader {
    pub fn new() -> (reader: Self)
        ensures
            reader.raw@ == Seq::<u8>::empty(),
    {
        AnswerReader { raw: Vec::new() }
    }

    /// Takes up one chunk. An answer that has grown past what an ES9+ answer
    /// can be is refused.
    pub fn take(&mut self, chunk: &[u8]) -> (taken: Result<(), Es9pError>)
        ensures
            final(self).raw@ == old(self).raw@ + chunk@,
            match taken {
                Ok(_) => final(self).raw@.len() <= MAX_RESPONSE_BYTES,
                Err(e) => final(self).raw@.len() > MAX_RESPONSE_BYTES && e@ == (
                Es9pFault::MalformedHttp {
                    reason: "answer exceeded "@ + decimal(MAX_RESPONSE_BYTES as nat) + " bytes"@,
                }),
            },
    {
        push_all(&mut self.raw, chunk);
        if self.raw.len() > MAX_RESPONSE_BYTES {
            let mut reason: String = owned("answer exceeded ");
            push_decimal(&mut reason, MAX_RESPONSE_BYTES as u64);
            reason.append(" bytes");
            return Err(Es9pError::MalformedHttp { reason });
        }
        Ok(())
    }
}

/// The front of a text, at most so many characters.
pub open spec fn front(text: Seq<char>, most: nat) -> Seq<char> {
    if text.len() <= most {
        text
    } else {
        text.take(most as int)
    }
}

/// The answer that was received whole. Any status but 200 is an error.
pub open spec fn answer_in(raw: Seq<u8>, tls_version: Option<Seq<char>>) -> Result<
    HttpModel,
    Es9pFault,
> {
    match response_in(raw) {
        Err(reason) => Err(Es9pFault::MalformedHttp { reason }),
        Ok(response) => if response.status != 200 {
            Err(
                Es9pFault::HttpStatus {
                    status: response.status,
                    body: front(lossy(response.body), QUOTED_BODY_CHARS as nat),
                },
            )
        } else {
            Ok(HttpModel { tls_version, ..response })
        },
    }
}

/// Reads an answer that was received whole.
pub fn read_answer(raw: &[u8], tls_version: Option<String>) -> (response: Result<
    HttpResponse,
    Es9pError,
>)
    ensures
        match response {
            Ok(r) => answer_in(raw@, opt_text(tls_version)) == Ok::<HttpModel, Es9pFault>(r@),
            Err(e) => answer_in(raw@, opt_text(tls_version)) == Err::<HttpModel, Es9pFault>(e@),
        },
{
    let mut response: HttpResponse = match HttpResponse::parse(raw) {
        Ok(response) => response,
        Err(e) => return Err(e),
    };
    if response.status != 200 {
        let text: String = lossy_text(&response.body);
        let chars: Vec<char> = chars_of(text.as_str());
        let body: String = if chars.len() <= QUOTED_BODY_CHARS {
            text
        } else {
            proof {
                assert(chars@.subrange(0, QUOTED_BODY_CHARS as int) =~= chars@.take(
                    QUOTED_BODY_CHARS as int,
                ));
            }
            string_of(&chars[0..QUOTED_BODY_CHARS])
        };
        return Err(Es9pError::HttpStatus { status: response.status, body });
    }
    let ghost read = response@;
    response.tls_version = tls_version;
    proof {
        assert(response@ =~= (HttpModel { tls_version: opt_text(tls_version), ..read }));
    }
    Ok(response)
}

/// Whether a transfer error tells of a rejected certificate.
pub open spec fn tells_of_tls(reason: Seq<char>) -> bool {
    ||| holds_text(reason, "certificate"@)
    ||| holds_text(reason, "CaUsedAsEndEntity"@)
    ||| holds_text(reason, "UnknownIssuer"@)
    ||| holds_text(reason, "invalid peer"@)
    ||| holds_text(reason, "HandshakeFailure"@)
}

/// What a failed read or write is. A rejected certificate is reported through
/// the first read or write, so the distinction has to be made by looking.
pub fn tls_or_io(host: &str, reason: &str) -> (error: Es9pError)
    ensures
        error@ == (if tells_of_tls(reason@) {
            Es9pFault::TlsFailed { host: host@, reason: reason@ }
        } else {
            Es9pFault::IoFailed { reason: reason@ }
        }),
{
    let chars: Vec<char> = chars_of(reason);
    if contains_text(&chars, "certificate") || contains_text(&chars, "CaUsedAsEndEntity")
        || contains_text(&chars, "UnknownIssuer") || contains_text(&chars, "invalid peer")
        || contains_text(&chars, "HandshakeFailure") {
        return Es9pError::TlsFailed { host: owned(host), reason: owned(reason) };
    }
    Es9pError::IoFailed { reason: owned(reason) }
}

/// The ES9+ request body, exactly the three fields SGP.22 defines.
pub open spec fn initiate_request(host: Seq<char>, challenge: Seq<u8>, info1: Seq<u8>) -> Seq<
    char,
> {
    "{\"euiccChallenge\":\""@ + base64_text(challenge) + "\",\"euiccInfo1\":\""@ + base64_text(
        info1,
    ) + "\",\"smdpAddress\":\""@ + host + "\"}"@
}

/// The ES9+ request body, exactly the three fields SGP.22 defines.
pub fn initiate_authentication_request(
    host: &str,
    euicc_challenge: &[u8],
    euicc_info1: &[u8],
) -> (body: String)
    requires
        euicc_challenge@.len() <= usize::MAX / 4,
        euicc_info1@.len() <= usize::MAX / 4,
    ensures
        body@ == initiate_request(host@, euicc_challenge@, euicc_info1@),
{
    let mut body: String = String::new();
    body.append("{\"euiccChallenge\":\"");
    body.append(encode_base64(euicc_challenge).as_str());
    body.append("\",\"euiccInfo1\":\"");
    body.append(encode_base64(euicc_info1).as_str());
    body.append("\",\"smdpAddress\":\"");
    body.append(host);
    body.append("\"}");
    proof {
        assert(body@ =~= initiate_request(host@, euicc_challenge@, euicc_info1@));
    }
    body
}

// ---------------------------------------------------------------------------
// What the server said
// ---------------------------------------------------------------------------

/// The checks that were made on the answer, each one named.
///
/// A boolean called `verified` would be the wrong shape here. Three separate
/// things are being asserted — the CI signed the certificate, the certificate
/// signed the answer, and the answer is about this chip's challenge — and
/// collapsing them means a failure of any one reads as a failure of all.
#[derive(Clone, Debug, PartialEq, Eq)]
pub struct Verification {
    /// Label of the CI root the certificate chained to.
    pub trust_anchor_label: String,
    /// That root's key identifier, uppercase hex.
    pub trust_anchor_key_id: String,
    /// The certificate's own key identifier.
    pub certificate_key_id: String,
    /// The authority key identifier it names.
    pub certificate_authority_key_id: String,
    pub certificate_sha256: String,
    pub certificate_not_after: String,
    /// The CI root's key verified the certificate's signature.
    pub certificate_signed_by_ci: bool,
    /// The certificate's key verified `serverSignature1`.
    pub server_signature_valid: bool,
    /// The echoed challenge is the one this chip produced.
    pub challenge_echoed: bool,
}

/// The checks, by what their texts say.
#[verifier::ext_equal]
pub struct VerificationModel {
    pub trust_anchor_label: Seq<char>,
    pub trust_anchor_key_id: Seq<char>,
    pub certificate_key_id: Seq<char>,
    pub certificate_authority_key_id: Seq<char>,
    pub certificate_sha256: Seq<char>,
    pub certificate_not_after: Seq<char>,
    pub certificate_signed_by_ci: bool,
    pub server_signature_valid: bool,
    pub challenge_echoed: bool,
}

impl View for Verification {
    type V = VerificationModel;

    open spec fn view(&self) -> VerificationModel {
        VerificationModel {
            trust_anchor_label: self.trust_anchor_label@,
            trust_anchor_key_id: self.trust_anchor_key_id@,
            certificate_key_id: self.certificate_key_id@,
            certificate_authority_key_id: self.certificate_authority_key_id@,
            certificate_sha256: self.certificate_sha256@,
            certificate_not_after: self.certificate_not_after@,
            certificate_signed_by_ci: self.certificate_signed_by_ci,
            server_signature_valid: self.server_signature_valid,
            challenge_echoed: self.challenge_echoed,
        }
    }
}

/// No check made yet.
pub open spec fn unverified() -> VerificationModel {
    VerificationModel {
        trust_anchor_label: Seq::empty(),
        trust_anchor_key_id: Seq::empty(),
        certificate_key_id: Seq::empty(),
        certificate_authority_key_id: Seq::empty(),
        certificate_sha256: Seq::empty(),
        certificate_not_after: Seq::empty(),
        certificate_signed_by_ci: false,
        server_signature_valid: false,
        challenge_echoed: false,
    }
}

impl Default for Verification {
    fn default() -> (value: Self)
        ensures
            value@ == unverified(),
    {
        let value = Verification {
            trust_anchor_label: String::new(),
            trust_anchor_key_id: String::new(),
            certificate_key_id: String::new(),
            certificate_authority_key_id: String::new(),
            certificate_sha256: String::new(),
            certificate_not_after: String::new(),
            certificate_signed_by_ci: false,
            server_signature_valid: false,
            challenge_echoed: false,
        };
        proof {
            assert(value@ =~= unverified());
        }
        value
    }
}

/// What an SM-DP+ returns from `InitiateAuthentication`, plus what was checked.
#[derive(Clone, Debug, PartialEq, Eq)]
pub struct AuthenticationStart {
    /// The host this was asked of.
    pub smdp_address: String,
    /// The identifier that names this RSP session at the server, uppercase hex.
    pub transaction_id: String,
    /// The same identifier as the server wrote it.
    pub transaction_id_raw: String,
    /// `ServerSigned1`, the signed bytes verbatim.
    pub server_signed1: Vec<u8>,
    /// `ServerSignature1` with its `5F37` wrapper.
    pub server_signature1: Vec<u8>,
    /// `CERT.DPauth.ECDSA`, DER.
    pub server_certificate: Vec<u8>,
    /// The CI key the server expects this eUICC to verify with, uppercase hex.
    pub euicc_ci_pkid_to_be_used: String,
    /// The same key identifier in the DER wrapper it arrived in.
    pub euicc_ci_pkid_der: Vec<u8>,
    /// The address inside the signed structure.
    pub server_address: String,
    /// The server's own random, uppercase hex.
    pub server_challenge: String,
    /// The eUICC challenge as the server echoed it, uppercase hex.
    pub echoed_euicc_challenge: String,
    pub http_status: u16,
    pub admin_protocol: Option<String>,
    pub negotiated_tls: Option<String>,
    pub elapsed_ms: u64,
    pub verification: Verification,
}

/// The answer, by what its texts say.
#[verifier::ext_equal]
pub struct StartModel {
    pub smdp_address: Seq<char>,
    pub transaction_id: Seq<char>,
    pub transaction_id_raw: Seq<char>,
    pub server_signed1: Seq<u8>,
    pub server_signature1: Seq<u8>,
    pub server_certificate: Seq<u8>,
    pub euicc_ci_pkid_to_be_used: Seq<char>,
    pub euicc_ci_pkid_der: Seq<u8>,
    pub server_address: Seq<char>,
    pub server_challenge: Seq<char>,
    pub echoed_euicc_challenge: Seq<char>,
    pub http_status: u16,
    pub admin_protocol: Option<Seq<char>>,
    pub negotiated_tls: Option<Seq<char>>,
    pub elapsed_ms: u64,
    pub verification: VerificationModel,
}

impl View for AuthenticationStart {
    type V = StartModel;

    open spec fn view(&self) -> StartModel {
        StartModel {
            smdp_address: self.smdp_address@,
            transaction_id: self.transaction_id@,
            transaction_id_raw: self.transaction_id_raw@,
            server_signed1: self.server_signed1@,
            server_signature1: self.server_signature1@,
            server_certificate: self.server_certificate@,
            euicc_ci_pkid_to_be_used: self.euicc_ci_pkid_to_be_used@,
            euicc_ci_pkid_der: self.euicc_ci_pkid_der@,
            server_address: self.server_address@,
            server_challenge: self.server_challenge@,
            echoed_euicc_challenge: self.echoed_euicc_challenge@,
            http_status: self.http_status,
            admin_protocol: opt_text(self.admin_protocol),
            negotiated_tls: opt_text(self.negotiated_tls),
            elapsed_ms: self.elapsed_ms,
            verification: self.verification@,
        }
    }
}

/// An answer of which nothing is known.
pub open spec fn blank_start() -> StartModel {
    StartModel {
        smdp_address: Seq::empty(),
        transaction_id: Seq::empty(),
        transaction_id_raw: Seq::empty(),
        server_signed1: Seq::empty(),
        server_signature1: Seq::empty(),
        server_certificate: Seq::empty(),
        euicc_ci_pkid_to_be_used: Seq::empty(),
        euicc_ci_pkid_der: Seq::empty(),
        server_address: Seq::empty(),
        server_challenge: Seq::empty(),
        echoed_euicc_challenge: Seq::empty(),
        http_status: 0,
        admin_protocol: None,
        negotiated_tls: None,
        elapsed_ms: 0,
        verification: unverified(),
    }
}

impl Default for AuthenticationStart {
    fn default() -> (value: Self)
        ensures
            value@ == blank_start(),
    {
        let value = AuthenticationStart {
            smdp_address: String::new(),
            transaction_id: String::new(),
            transaction_id_raw: String::new(),
            server_signed1: Vec::new(),
            server_signature1: Vec::new(),
            server_certificate: Vec::new(),
            euicc_ci_pkid_to_be_used: String::new(),
            euicc_ci_pkid_der: Vec::new(),
            server_address: String::new(),
            server_challenge: String::new(),
            echoed_euicc_challenge: String::new(),
            http_status: 0,
            admin_protocol: None,
            negotiated_tls: None,
            elapsed_ms: 0,
            verification: Verification::default(),
        };
        proof {
            assert(value@ =~= blank_start());
        }
        value
    }
}

/// The fields of `ServerSigned1` that were found.
#[verifier::ext_equal]
pub struct SignedModel {
    pub transaction_id: Option<Seq<u8>>,
    pub euicc_challenge: Option<Seq<u8>>,
    pub server_address: Option<Seq<char>>,
    pub server_challenge: Option<Seq<u8>>,
}

/// Fields with one element taken up.
pub open spec fn signed_field(state: SignedModel, tag: Seq<u8>, value: Seq<u8>) -> SignedModel {
    if tag == seq![0x80u8] {
        SignedModel { transaction_id: Some(value), ..state }
    } else if tag == seq![0x81u8] {
        SignedModel { euicc_challenge: Some(value), ..state }
    } else if tag == seq![0x83u8] {
        SignedModel { server_address: Some(lossy(value)), ..state }
    } else if tag == seq![0x84u8] {
        SignedModel { server_challenge: Some(value), ..state }
    } else {
        state
    }
}

/// Fields with each element of a list taken up in turn.
pub open spec fn signed_fields(state: SignedModel, bytes: Seq<u8>) -> Result<
    SignedModel,
    Es9pFault,
>
    decreases bytes.len(),
{
    if bytes.len() == 0 {
        Ok(state)
    } else {
        match element_in(bytes) {
            Err(f) => Err(Es9pFault::MalformedServerSigned { reason: fault_text(f) }),
            Ok(field) => {
                proof {
                    lemma_element(bytes);
                }
                signed_fields(signed_field(state, field.tag, field.value), rest_after(bytes))
            },
        }
    }
}

/// The fields of a `ServerSigned1`, every one of which has to be there.
pub open spec fn server_signed_in(bytes: Seq<u8>) -> Result<SignedModel, Es9pFault> {
    match element_in(bytes) {
        Err(f) => Err(Es9pFault::MalformedServerSigned { reason: fault_text(f) }),
        Ok(sequence) => if sequence.tag != seq![0x30u8] {
            Err(
                Es9pFault::MalformedServerSigned {
                    reason: "expected a SEQUENCE, got tag "@ + hex_text_upper(sequence.tag),
                },
            )
        } else {
            let blank = SignedModel {
                transaction_id: None,
                euicc_challenge: None,
                server_address: None,
                server_challenge: None,
            };
            match signed_fields(blank, sequence.value) {
                Err(e) => Err(e),
                Ok(found) => if found.transaction_id is None {
                    Err(Es9pFault::MissingField { name: "serverSigned1.transactionId" })
                } else if found.euicc_challenge is None {
                    Err(Es9pFault::MissingField { name: "serverSigned1.euiccChallenge" })
                } else if found.server_address is None {
                    Err(Es9pFault::MissingField { name: "serverSigned1.serverAddress" })
                } else if found.server_challenge is None {
                    Err(Es9pFault::MissingField { name: "serverSigned1.serverChallenge" })
                } else {
                    Ok(found)
                },
            }
        },
    }
}

/// The four fields SGP.22 puts in `ServerSigned1`.
pub struct ServerSigned1 {
    pub transaction_id: Vec<u8>,
    pub euicc_challenge: Vec<u8>,
    pub server_address: String,
    pub server_challenge: Vec<u8>,
}

impl View for ServerSigned1 {
    type V = SignedModel;

    open spec fn view(&self) -> SignedModel {
        SignedModel {
            transaction_id: Some(self.transaction_id@),
            euicc_challenge: Some(self.euicc_challenge@),
            server_address: Some(self.server_address@),
            server_challenge: Some(self.server_challenge@),
        }
    }
}

/// Octets that may be absent.
pub open spec fn opt_bytes(bytes: Option<Vec<u8>>) -> Option<Seq<u8>> {
    match bytes {
        Some(b) => Some(b@),
        None => None,
    }
}

impl ServerSigned1 {
    pub fn parse(bytes: &[u8]) -> (signed: Result<Self, Es9pError>)
        ensures
            match signed {
                Ok(s) => server_signed_in(bytes@) == Ok::<SignedModel, Es9pFault>(s@),
                Err(e) => server_signed_in(bytes@) == Err::<SignedModel, Es9pFault>(e@),
            },
    {
        let sequence: Element = match read(bytes) {
            Ok(sequence) => sequence,
            Err(f) => return Err(
                Es9pError::MalformedServerSigned { reason: describe_fault(f) },
            ),
        };
        if !tag_is(sequence.tag, 0x30) {
            let mut reason: String = owned("expected a SEQUENCE, got tag ");
            push_hex_text_upper(&mut reason, sequence.tag);
            return Err(Es9pError::MalformedServerSigned { reason });
        }
        let mut transaction_id: Option<Vec<u8>> = None;
        let mut euicc_challenge: Option<Vec<u8>> = None;
        let mut server_address: Option<String> = None;
        let mut server_challenge: Option<Vec<u8>> = None;
        let ghost blank = SignedModel {
            transaction_id: None,
            euicc_challenge: None,
            server_address: None,
            server_challenge: None,
        };
        let mut rest: &[u8] = sequence.value;
        while rest.len() > 0
            invariant
                signed_fields(
                    SignedModel {
                        transaction_id: opt_bytes(transaction_id),
                        euicc_challenge: opt_bytes(euicc_challenge),
                        server_address: opt_text(server_address),
                        server_challenge: opt_bytes(server_challenge),
                    },
                    rest@,
                ) == signed_fields(blank, sequence.value@),
                element_in(bytes@) matches Ok(s) && s == sequence@,
                sequence.tag@ == seq![0x30u8],
                blank == (SignedModel {
                    transaction_id: None,
                    euicc_challenge: None,
                    server_address: None,
                    server_challenge: None,
                }),
            decreases rest@.len(),
        {
            match read(rest) {
                Err(f) => return Err(
                    Es9pError::MalformedServerSigned { reason: describe_fault(f) },
                ),
                Ok(field) => {
                    if tag_is(field.tag, 0x80) {
                        transaction_id = Some(copy_of(field.value));
                    } else if tag_is(field.tag, 0x81) {
                        euicc_challenge = Some(copy_of(field.value));
                    } else if tag_is(field.tag, 0x83) {
                        server_address = Some(lossy_text(field.value));
                    } else if tag_is(field.tag, 0x84) {
                        server_challenge = Some(copy_of(field.value));
                    }
                    rest = field.rest;
                },
            }
        }
        let transaction_id: Vec<u8> = match transaction_id {
            Some(value) => value,
            None => return Err(
                Es9pError::MissingField { name: "serverSigned1.transactionId" },
            ),
        };
        let euicc_challenge: Vec<u8> = match euicc_challenge {
            Some(value) => value,
            None => return Err(
                Es9pError::MissingField { name: "serverSigned1.euiccChallenge" },
            ),
        };
        let server_address: String = match server_address {
            Some(value) => value,
            None => return Err(
                Es9pError::MissingField { name: "serverSigned1.serverAddress" },
            ),
        };
        let server_challenge: Vec<u8> = match server_challenge {
            Some(value) => value,
            None => return Err(
                Es9pError::MissingField { name: "serverSigned1.serverChallenge" },
            ),
        };
        Ok(ServerSigned1 { transaction_id, euicc_challenge, server_address, server_challenge })
    }
}

/// The key identifier in an OCTET STRING, or the octets themselves.
pub open spec fn key_identifier(bytes: Seq<u8>) -> Seq<char> {
    match element_in(bytes) {
        Ok(field) => if field.tag == seq![0x04u8] {
            hex_text_upper(field.value)
        } else {
            hex_text_upper(bytes)
        },
        Err(_) => hex_text_upper(bytes),
    }
}

/// A DER OCTET STRING around a key identifier, or the identifier itself.
fn unwrap_key_identifier(bytes: &[u8]) -> (text: String)
    ensures
        text@ == key_identifier(bytes@),
{
    match read(bytes) {
        Ok(field) => {
            if tag_is(field.tag, 0x04) {
                hex_upper(field.value)
            } else {
                hex_upper(bytes)
            }
        },
        Err(_) => hex_upper(bytes),
    }
}

/// Where the execution status of an ES9+ function stands.
pub const STATUS_POINTER: &'static str = "/header/functionExecutionStatus/status";

/// What stands in a field that carries octets in base64.
#[derive(Clone, Debug, PartialEq, Eq)]
pub enum OctetField {
    Missing,
    /// There is a text, and it is not base64.
    NotBase64,
    Octets(Vec<u8>),
}

/// What stands in such a field, by what it says.
#[verifier::ext_equal]
pub enum OctetFieldModel {
    Missing,
    NotBase64,
    Octets(Seq<u8>),
}

impl View for OctetField {
    type V = OctetFieldModel;

    open spec fn view(&self) -> OctetFieldModel {
        match *self {
            OctetField::Missing => OctetFieldModel::Missing,
            OctetField::NotBase64 => OctetFieldModel::NotBase64,
            OctetField::Octets(bytes) => OctetFieldModel::Octets(bytes@),
        }
    }
}

impl OctetFieldModel {
    /// The octets that a field has to carry.
    pub open spec fn required(self, name: &'static str) -> Result<Seq<u8>, Es9pFault> {
        match self {
            OctetFieldModel::Missing => Err(Es9pFault::MissingField { name }),
            OctetFieldModel::NotBase64 => Err(Es9pFault::BadBase64 { field: name }),
            OctetFieldModel::Octets(bytes) => Ok(bytes),
        }
    }

    /// Whether the octets are no more than so many.
    pub open spec fn within(self, limit: nat) -> bool {
        self matches OctetFieldModel::Octets(bytes) ==> bytes.len() <= limit
    }
}

impl OctetField {
    /// The octets that a field has to carry.
    pub fn require(self, name: &'static str) -> (bytes: Result<Vec<u8>, Es9pError>)
        ensures
            match bytes {
                Ok(b) => self@.required(name) == Ok::<Seq<u8>, Es9pFault>(b@),
                Err(e) => self@.required(name) == Err::<Seq<u8>, Es9pFault>(e@),
            },
    {
        match self {
            OctetField::Missing => Err(Es9pError::MissingField { name }),
            OctetField::NotBase64 => Err(Es9pError::BadBase64 { field: name }),
            OctetField::Octets(bytes) => Ok(bytes),
        }
    }
}

/// What an ES9+ answer says of how the function went: why it is no JSON, where it
/// is none, and what stands in the fields that are looked at.
#[derive(Clone, Debug, PartialEq, Eq)]
pub struct ExecutionFields {
    pub fault: Option<String>,
    pub status: Option<String>,
    pub subject_code: Option<String>,
    pub reason_code: Option<String>,
    pub message: Option<String>,
}

/// What an answer says of how the function went, by what it says.
#[verifier::ext_equal]
pub struct ExecutionModel {
    pub fault: Option<Seq<char>>,
    pub status: Option<Seq<char>>,
    pub subject_code: Option<Seq<char>>,
    pub reason_code: Option<Seq<char>>,
    pub message: Option<Seq<char>>,
}

impl View for ExecutionFields {
    type V = ExecutionModel;

    open spec fn view(&self) -> ExecutionModel {
        ExecutionModel {
            fault: opt_text(self.fault),
            status: opt_text(self.status),
            subject_code: opt_text(self.subject_code),
            reason_code: opt_text(self.reason_code),
            message: opt_text(self.message),
        }
    }
}

impl ExecutionModel {
    /// Whether success is reported, and if not, what is reported.
    pub open spec fn failure(self) -> Option<Es9pFault> {
        match self.fault {
            Some(reason) => Some(Es9pFault::MalformedJson { reason }),
            None => match self.status {
                None => Some(
                    Es9pFault::MissingField { name: "header.functionExecutionStatus.status" },
                ),
                Some(status) => if status != "Executed-Success"@ {
                    Some(
                        Es9pFault::FunctionFailed {
                            status,
                            subject_code: self.subject_code,
                            reason_code: self.reason_code,
                            message: self.message,
                        },
                    )
                } else {
                    None
                },
            },
        }
    }
}

impl ExecutionFields {
    /// Whether success is reported, and if not, what is reported.
    pub fn check(self) -> (fault: Option<Es9pError>)
        ensures
            match fault {
                Some(e) => self@.failure() == Some(e@),
                None => self@.failure() is None,
            },
    {
        if let Some(reason) = self.fault {
            return Some(Es9pError::MalformedJson { reason });
        }
        match self.status {
            None => Some(Es9pError::MissingField { name: "header.functionExecutionStatus.status" }),
            Some(status) => {
                if same_text(status.as_str(), "Executed-Success") {
                    return None;
                }
                Some(
                    Es9pError::FunctionFailed {
                        status,
                        subject_code: self.subject_code,
                        reason_code: self.reason_code,
                        message: self.message,
                    },
                )
            },
        }
    }
}

/// What an `InitiateAuthentication` answer holds, before anything is made of it.
#[derive(Clone, Debug, PartialEq, Eq)]
pub struct AuthenticationFields {
    pub execution: ExecutionFields,
    pub transaction_id: Option<String>,
    pub server_signed1: OctetField,
    pub server_signature1: OctetField,
    pub server_certificate: OctetField,
    pub euicc_ci_pkid: OctetField,
}

/// What an answer holds, by what it says.
#[verifier::ext_equal]
pub struct AuthenticationFieldsModel {
    pub execution: ExecutionModel,
    pub transaction_id: Option<Seq<char>>,
    pub server_signed1: OctetFieldModel,
    pub server_signature1: OctetFieldModel,
    pub server_certificate: OctetFieldModel,
    pub euicc_ci_pkid: OctetFieldModel,
}

impl View for AuthenticationFields {
    type V = AuthenticationFieldsModel;

    open spec fn view(&self) -> AuthenticationFieldsModel {
        AuthenticationFieldsModel {
            execution: self.execution@,
            transaction_id: opt_text(self.transaction_id),
            server_signed1: self.server_signed1@,
            server_signature1: self.server_signature1@,
            server_certificate: self.server_certificate@,
            euicc_ci_pkid: self.euicc_ci_pkid@,
        }
    }
}

/// What an answer says of how the function went.
pub open spec fn execution_in(body: Seq<u8>) -> ExecutionModel {
    ExecutionModel {
        fault: json_fault(body),
        status: json_text(body, STATUS_POINTER@),
        subject_code: json_text(
            body,
            "/header/functionExecutionStatus/statusCodeData/subjectCode"@,
        ),
        reason_code: json_text(
            body,
            "/header/functionExecutionStatus/statusCodeData/reasonCode"@,
        ),
        message: json_text(body, "/header/functionExecutionStatus/statusCodeData/message"@),
    }
}

/// Reads what an answer says of how the function went.
pub fn read_execution(body: &[u8]) -> (fields: ExecutionFields)
    ensures
        fields@ == execution_in(body@),
{
    let fields = ExecutionFields {
        fault: find_json_fault(body),
        status: find_json_text(body, STATUS_POINTER),
        subject_code: find_json_text(
            body,
            "/header/functionExecutionStatus/statusCodeData/subjectCode",
        ),
        reason_code: find_json_text(
            body,
            "/header/functionExecutionStatus/statusCodeData/reasonCode",
        ),
        message: find_json_text(body, "/header/functionExecutionStatus/statusCodeData/message"),
    };
    proof {
        assert(fields@ =~= execution_in(body@));
    }
    fields
}

/// What a field of an answer carries in base64.
pub open spec fn octets_in(body: Seq<u8>, pointer: Seq<char>) -> OctetFieldModel {
    match json_text(body, pointer) {
        None => OctetFieldModel::Missing,
        Some(text) => match base64_octets(text) {
            None => OctetFieldModel::NotBase64,
            Some(bytes) => OctetFieldModel::Octets(bytes),
        },
    }
}

/// Reads a field that carries octets in base64.
pub fn read_octets(body: &[u8], pointer: &str) -> (field: OctetField)
    ensures
        field@ == octets_in(body@, pointer@),
        field@.within(body@.len()),
{
    match find_json_text(body, pointer) {
        None => OctetField::Missing,
        Some(text) => match decode_base64(text.as_str()) {
            None => OctetField::NotBase64,
            Some(bytes) => OctetField::Octets(bytes),
        },
    }
}

/// What an `InitiateAuthentication` answer holds.
pub open spec fn authentication_fields_in(body: Seq<u8>) -> AuthenticationFieldsModel {
    AuthenticationFieldsModel {
        execution: execution_in(body),
        transaction_id: json_text(body, "/transactionId"@),
        server_signed1: octets_in(body, "/serverSigned1"@),
        server_signature1: octets_in(body, "/serverSignature1"@),
        server_certificate: octets_in(body, "/serverCertificate"@),
        euicc_ci_pkid: octets_in(body, "/euiccCiPKIdToBeUsed"@),
    }
}

/// What the fields of an `InitiateAuthentication` answer say, no signature checked.
pub open spec fn started_from(fields: AuthenticationFieldsModel) -> Result<StartModel, Es9pFault> {
    match fields.execution.failure() {
        Some(fault) => Err(fault),
        None => match fields.transaction_id {
            None => Err(Es9pFault::MissingField { name: "transactionId" }),
            Some(transaction) => match fields.server_signed1.required("serverSigned1") {
                Err(e) => Err(e),
                Ok(signed1) => match fields.server_signature1.required("serverSignature1") {
                    Err(e) => Err(e),
                    Ok(signature1) => match fields.server_certificate.required(
                        "serverCertificate",
                    ) {
                        Err(e) => Err(e),
                        Ok(certificate) => match fields.euicc_ci_pkid.required(
                            "euiccCiPKIdToBeUsed",
                        ) {
                            Err(e) => Err(e),
                            Ok(key) => match server_signed_in(signed1) {
                                Err(e) => Err(e),
                                Ok(signed) => Ok(
                                    StartModel {
                                        transaction_id: upper(transaction),
                                        transaction_id_raw: transaction,
                                        server_signed1: signed1,
                                        server_signature1: signature1,
                                        server_certificate: certificate,
                                        euicc_ci_pkid_to_be_used: key_identifier(key),
                                        euicc_ci_pkid_der: key,
                                        server_address: signed.server_address->0,
                                        server_challenge: hex_text_upper(
                                            signed.server_challenge->0,
                                        ),
                                        echoed_euicc_challenge: hex_text_upper(
                                            signed.euicc_challenge->0,
                                        ),
                                        ..blank_start()
                                    },
                                ),
                            },
                        },
                    },
                },
            },
        },
    }
}

/// What the JSON of an `InitiateAuthentication` answer says, no signature
/// checked.
pub open spec fn started_in(body: Seq<u8>) -> Result<StartModel, Es9pFault> {
    started_from(authentication_fields_in(body))
}

/// What the fields of an `InitiateAuthentication` answer say, without checking any
/// signature yet.
///
/// The CI key arrives as a DER OCTET STRING around the twenty-byte key
/// identifier. It is reported unwrapped as well, so it can be compared against
/// what GetEUICCInfo1 reports without either side knowing about the wrapper.
pub fn start_from_fields(fields: AuthenticationFields) -> (start: Result<
    AuthenticationStart,
    Es9pError,
>)
    ensures
        match start {
            Ok(s) => started_from(fields@) == Ok::<StartModel, Es9pFault>(s@),
            Err(e) => started_from(fields@) == Err::<StartModel, Es9pFault>(e@),
        },
{
    let ghost wanted = started_from(fields@);
    if let Some(fault) = fields.execution.check() {
        return Err(fault);
    }
    let transaction: String = match fields.transaction_id {
        Some(text) => text,
        None => return Err(Es9pError::MissingField { name: "transactionId" }),
    };
    let server_signed1: Vec<u8> = match fields.server_signed1.require("serverSigned1") {
        Ok(bytes) => bytes,
        Err(e) => return Err(e),
    };
    let server_signature1: Vec<u8> = match fields.server_signature1.require("serverSignature1") {
        Ok(bytes) => bytes,
        Err(e) => return Err(e),
    };
    let server_certificate: Vec<u8> = match fields.server_certificate.require(
        "serverCertificate",
    ) {
        Ok(bytes) => bytes,
        Err(e) => return Err(e),
    };
    let key: Vec<u8> = match fields.euicc_ci_pkid.require("euiccCiPKIdToBeUsed") {
        Ok(bytes) => bytes,
        Err(e) => return Err(e),
    };
    let signed: ServerSigned1 = match ServerSigned1::parse(&server_signed1) {
        Ok(signed) => signed,
        Err(e) => return Err(e),
    };
    let mut start: AuthenticationStart = AuthenticationStart::default();
    start.transaction_id = uppered(transaction.as_str());
    start.transaction_id_raw = transaction;
    start.server_signed1 = server_signed1;
    start.server_signature1 = server_signature1;
    start.server_certificate = server_certificate;
    start.euicc_ci_pkid_to_be_used = unwrap_key_identifier(&key);
    start.euicc_ci_pkid_der = key;
    start.server_address = signed.server_address;
    start.server_challenge = hex_upper(&signed.server_challenge);
    start.echoed_euicc_challenge = hex_upper(&signed.euicc_challenge);
    proof {
        assert(start@ =~= wanted->Ok_0);
    }
    Ok(start)
}

/// Read the JSON an SM-DP+ returns, without checking any signature yet.
pub fn parse_initiate_authentication(body: &[u8]) -> (start: Result<
    AuthenticationStart,
    Es9pError,
>)
    ensures
        match start {
            Ok(s) => started_in(body@) == Ok::<StartModel, Es9pFault>(s@)
                && s.server_certificate@.len() <= body@.len() && s.server_signed1@.len()
                <= body@.len(),
            Err(e) => started_in(body@) == Err::<StartModel, Es9pFault>(e@),
        },
{
    let fields = AuthenticationFields {
        execution: read_execution(body),
        transaction_id: find_json_text(body, "/transactionId"),
        server_signed1: read_octets(body, "/serverSigned1"),
        server_signature1: read_octets(body, "/serverSignature1"),
        server_certificate: read_octets(body, "/serverCertificate"),
        euicc_ci_pkid: read_octets(body, "/euiccCiPKIdToBeUsed"),
    };
    proof {
        assert(fields@ =~= authentication_fields_in(body@));
        assert(fields@.server_certificate.within(body@.len()));
        assert(fields@.server_signed1.within(body@.len()));
    }
    start_from_fields(fields)
}

// ---------------------------------------------------------------------------
// Checking what the server said
// ---------------------------------------------------------------------------

/// What stands inside the `5F37` wrapper, where there is one.
pub open spec fn wrapped_signature(bytes: Seq<u8>) -> Option<Seq<u8>> {
    match element_in(bytes) {
        Ok(field) => if field.tag == seq![0x5fu8, 0x37u8] {
            Some(field.value)
        } else {
            None
        },
        Err(_) => None,
    }
}

/// The signature in `serverSignature1`: inside the `5F37` wrapper, or bare.
/// Accepting both is safe because the length is what decides, and a wrong
/// guess fails the signature check rather than passing it.
pub open spec fn signature_in(bytes: Seq<u8>) -> Result<Seq<u8>, Es9pFault> {
    let wrapped = wrapped_signature(bytes);
    if wrapped is Some && wrapped->0.len() == P256_SIGNATURE_BYTES {
        Ok(wrapped->0)
    } else if bytes.len() == P256_SIGNATURE_BYTES {
        Ok(bytes)
    } else {
        Err(
            Es9pFault::MalformedServerSigned {
                reason: match element_in(bytes) {
                    Err(f) => "serverSignature1: "@ + fault_text(f),
                    Ok(_) => "serverSignature1 carries "@ + decimal(
                        match wrapped {
                            Some(value) => value.len(),
                            None => bytes.len(),
                        },
                    ) + " bytes, expected "@ + decimal(P256_SIGNATURE_BYTES as nat),
                },
            },
        )
    }
}

/// Strip the `5F37` wrapper SGP.22 puts around `r || s`.
fn unwrap_signature(signature: &[u8]) -> (raw: Result<Vec<u8>, Es9pError>)
    ensures
        match raw {
            Ok(r) => signature_in(signature@) == Ok::<Seq<u8>, Es9pFault>(r@),
            Err(e) => signature_in(signature@) == Err::<Seq<u8>, Es9pFault>(e@),
        },
{
    let field: Element = match read(signature) {
        Ok(field) => field,
        Err(f) => {
            if signature.len() == P256_SIGNATURE_BYTES {
                return Ok(copy_of(signature));
            }
            let mut reason: String = owned("serverSignature1: ");
            reason.append(describe_fault(f).as_str());
            return Err(Es9pError::MalformedServerSigned { reason });
        },
    };
    let body: &[u8] = if tag_is_pair(field.tag, 0x5f, 0x37) {
        field.value
    } else {
        signature
    };
    if body.len() == P256_SIGNATURE_BYTES {
        return Ok(copy_of(body));
    }
    if signature.len() == P256_SIGNATURE_BYTES {
        return Ok(copy_of(signature));
    }
    let mut reason: String = owned("serverSignature1 carries ");
    push_decimal(&mut reason, body.len() as u64);
    reason.append(" bytes, expected ");
    push_decimal(&mut reason, P256_SIGNATURE_BYTES as u64);
    Err(Es9pError::MalformedServerSigned { reason })
}

/// The first root with a key identifier.
pub open spec fn first_anchor(anchors: Seq<AnchorModel>, key_id: Seq<char>) -> Option<AnchorModel>
    decreases anchors.len(),
{
    if anchors.len() == 0 {
        None
    } else if anchors[0].key_id == key_id {
        Some(anchors[0])
    } else {
        first_anchor(anchors.skip(1), key_id)
    }
}

fn find_anchor<'a>(anchors: &'a [TrustAnchor], key_id: &str) -> (anchor: Option<&'a TrustAnchor>)
    ensures
        match anchor {
            Some(a) => first_anchor(anchor_models(anchors@), key_id@) == Some(a@),
            None => first_anchor(anchor_models(anchors@), key_id@) is None,
        },
{
    let ghost models = anchor_models(anchors@);
    let mut i: usize = 0;
    proof {
        assert(models.skip(0) =~= models);
    }
    while i < anchors.len()
        invariant
            i <= anchors@.len(),
            models == anchor_models(anchors@),
            first_anchor(models.skip(i as int), key_id@) == first_anchor(models, key_id@),
        decreases anchors@.len() - i,
    {
        proof {
            assert(models.skip(i as int).skip(1) =~= models.skip(i + 1));
            assert(models.skip(i as int)[0] == anchors@[i as int]@);
        }
        if same_text(anchors[i].key_id.as_str(), key_id) {
            return Some(&anchors[i]);
        }
        i = i + 1;
    }
    None
}

/// The checks on an answer, once it is known whether the root's key signed the
/// certificate and whether the certificate's key signed the answer: both did, and
/// the answer is about this challenge and this host.
pub open spec fn credential_verdict(
    start: StartModel,
    host: Seq<char>,
    challenge: Seq<u8>,
    certificate_signed: bool,
    answer_signed: bool,
) -> Option<Es9pFault> {
    if !certificate_signed {
        Some(Es9pFault::CertificateSignatureInvalid)
    } else {
        match signature_in(start.server_signature1) {
            Err(e) => Some(e),
            Ok(_) => if !answer_signed {
                Some(Es9pFault::ServerSignatureInvalid)
            } else if hex_text_upper(challenge) != start.echoed_euicc_challenge {
                Some(
                    Es9pFault::ChallengeMismatch {
                        sent: hex_text_upper(challenge),
                        echoed: start.echoed_euicc_challenge,
                    },
                )
            } else if lower(start.server_address) != lower(host) {
                Some(
                    Es9pFault::AddressMismatch { asked: host, signed: start.server_address },
                )
            } else {
                None
            },
        }
    }
}

/// Whether the certificate's key signed the answer.
pub open spec fn answer_signed(start: StartModel, certificate: CertificateModel) -> bool {
    signature_in(start.server_signature1) matches Ok(signature) && ecdsa_fixed_holds(
        certificate.public_key,
        start.server_signed1,
        signature,
    )
}

/// The checks on what an answer signed, once its certificate and root are
/// known.
pub open spec fn credential_fault(
    start: StartModel,
    host: Seq<char>,
    challenge: Seq<u8>,
    certificate: CertificateModel,
    root: CertificateModel,
) -> Option<Es9pFault> {
    credential_verdict(
        start,
        host,
        challenge,
        ecdsa_asn1_holds(root.public_key, certificate.tbs, certificate.signature),
        answer_signed(start, certificate),
    )
}

/// What checking an answer end to end comes to.
pub open spec fn verified_in(
    start: StartModel,
    host: Seq<char>,
    challenge: Seq<u8>,
    anchors: Seq<AnchorModel>,
) -> Result<VerificationModel, Es9pFault> {
    match certificate_in(start.server_certificate) {
        Err(reason) => Err(Es9pFault::MalformedCertificate { reason }),
        Ok(certificate) => match certificate.authority_key_id {
            None => Err(
                Es9pFault::MalformedCertificate { reason: "no authority key identifier"@ },
            ),
            Some(authority) => match first_anchor(anchors, authority) {
                None => Err(
                    Es9pFault::UntrustedCertificateAuthority { authority_key_id: authority },
                ),
                Some(anchor) => match certificate_in(anchor.der) {
                    Err(reason) => Err(Es9pFault::MalformedCertificate { reason }),
                    Ok(root) => match credential_fault(
                        start,
                        host,
                        challenge,
                        certificate,
                        root,
                    ) {
                        Some(fault) => Err(fault),
                        None => Ok(
                            VerificationModel {
                                trust_anchor_label: anchor.label,
                                trust_anchor_key_id: anchor.key_id,
                                certificate_key_id: text_or(
                                    certificate.subject_key_id,
                                    "unknown"@,
                                ),
                                certificate_authority_key_id: authority,
                                certificate_sha256: hex_text(sha256(start.server_certificate)),
                                certificate_not_after: certificate.not_after,
                                certificate_signed_by_ci: true,
                                server_signature_valid: true,
                                challenge_echoed: true,
                            },
                        ),
                    },
                },
            },
        },
    }
}

/// Judges an answer, once it is known whether the root's key signed the certificate
/// and whether the certificate's key signed the answer.
pub fn judge_credentials(
    start: &AuthenticationStart,
    host: &str,
    euicc_challenge: &[u8],
    certificate_signed: bool,
    answer_signed: bool,
) -> (fault: Option<Es9pError>)
    ensures
        ({
            let wanted = credential_verdict(
                start@,
                host@,
                euicc_challenge@,
                certificate_signed,
                answer_signed,
            );
            match fault {
                Some(e) => wanted == Some(e@),
                None => wanted is None,
            }
        }),
{
    if !certificate_signed {
        return Some(Es9pError::CertificateSignatureInvalid);
    }
    if let Err(e) = unwrap_signature(&start.server_signature1) {
        return Some(e);
    }
    if !answer_signed {
        return Some(Es9pError::ServerSignatureInvalid);
    }
    let sent: String = hex_upper(euicc_challenge);
    if !same_text(sent.as_str(), start.echoed_euicc_challenge.as_str()) {
        return Some(
            Es9pError::ChallengeMismatch {
                sent,
                echoed: owned(start.echoed_euicc_challenge.as_str()),
            },
        );
    }
    if !same_ignoring_case(start.server_address.as_str(), host) {
        return Some(
            Es9pError::AddressMismatch {
                asked: owned(host),
                signed: owned(start.server_address.as_str()),
            },
        );
    }
    None
}

fn check_credentials(
    start: &AuthenticationStart,
    host: &str,
    euicc_challenge: &[u8],
    certificate: &Certificate,
    root: &Certificate,
) -> (fault: Option<Es9pError>)
    requires
        certificate.tbs@.len() <= MAX_DIGEST_BYTES,
        start.server_signed1@.len() <= MAX_DIGEST_BYTES,
    ensures
        match fault {
            Some(e) => credential_fault(start@, host@, euicc_challenge@, certificate@, root@)
                == Some(e@),
            None => credential_fault(start@, host@, euicc_challenge@, certificate@, root@) is None,
        },
{
    let certificate_signed: bool = verify_ecdsa_asn1(
        &root.public_key,
        &certificate.tbs,
        &certificate.signature,
    );
    let answer_signed: bool = match unwrap_signature(&start.server_signature1) {
        Ok(signature) => verify_ecdsa_fixed(
            &certificate.public_key,
            &start.server_signed1,
            &signature,
        ),
        Err(_) => false,
    };
    judge_credentials(start, host, euicc_challenge, certificate_signed, answer_signed)
}

/// Check the answer end to end: CI root, certificate, signature, challenge.
///
/// Every step is fatal. The alternative — reporting an unverified answer with
/// a flag saying so — produces a console page that looks like a success and a
/// field nobody reads. The certificate SGP.22 calls CERT.DPauth is not the one
/// TLS presented; it is a separate credential the eUICC itself will check.
pub fn verify_server_credentials(
    start: &AuthenticationStart,
    host: &str,
    euicc_challenge: &[u8],
    anchors: &[TrustAnchor],
) -> (verification: Result<Verification, Es9pError>)
    requires
        start.server_certificate@.len() <= MAX_DIGEST_BYTES,
        start.server_signed1@.len() <= MAX_DIGEST_BYTES,
    ensures
        match verification {
            Ok(v) => verified_in(start@, host@, euicc_challenge@, anchor_models(anchors@)) == Ok::<
                VerificationModel,
                Es9pFault,
            >(v@),
            Err(e) => verified_in(start@, host@, euicc_challenge@, anchor_models(anchors@))
                == Err::<VerificationModel, Es9pFault>(e@),
        },
{
    let certificate: Certificate = match Certificate::parse(&start.server_certificate) {
        Ok(certificate) => certificate,
        Err(e) => return Err(e),
    };
    let authority: String = match &certificate.authority_key_id {
        Some(authority) => owned(authority.as_str()),
        None => return Err(
            Es9pError::MalformedCertificate { reason: owned("no authority key identifier") },
        ),
    };
    let anchor: &TrustAnchor = match find_anchor(anchors, authority.as_str()) {
        Some(anchor) => anchor,
        None => return Err(
            Es9pError::UntrustedCertificateAuthority { authority_key_id: authority },
        ),
    };
    let root: Certificate = match Certificate::parse(&anchor.der) {
        Ok(root) => root,
        Err(e) => return Err(e),
    };
    proof {
        lemma_signed_part_fits(start.server_certificate@);
    }
    if let Some(fault) = check_credentials(start, host, euicc_challenge, &certificate, &root) {
        return Err(fault);
    }
    let verification = Verification {
        trust_anchor_label: owned(anchor.label.as_str()),
        trust_anchor_key_id: owned(anchor.key_id.as_str()),
        certificate_key_id: owned_or(&certificate.subject_key_id, "unknown"),
        certificate_authority_key_id: authority,
        certificate_sha256: sha256_hex(&start.server_certificate),
        certificate_not_after: owned(certificate.not_after.as_str()),
        certificate_signed_by_ci: true,
        server_signature_valid: true,
        challenge_echoed: true,
    };
    proof {
        assert(verification@ =~= verified_in(
            start@,
            host@,
            euicc_challenge@,
            anchor_models(anchors@),
        )->Ok_0);
    }
    Ok(verification)
}

/// An answer with what is known of the exchange it came by.
pub open spec fn answered(
    start: StartModel,
    host: Seq<char>,
    response: HttpModel,
    elapsed_ms: u64,
) -> StartModel {
    StartModel {
        smdp_address: host,
        http_status: response.status,
        admin_protocol: header_value(response.headers, "x-admin-protocol"@),
        elapsed_ms,
        negotiated_tls: response.tls_version,
        ..start
    }
}

/// What `InitiateAuthentication` comes to, given the server's answer.
pub open spec fn authenticated(
    anchors: Seq<AnchorModel>,
    host: Seq<char>,
    challenge: Seq<u8>,
    response: HttpModel,
    elapsed_ms: u64,
) -> Result<StartModel, Es9pFault> {
    match started_in(response.body) {
        Err(e) => Err(e),
        Ok(read) => {
            let start = answered(read, host, response, elapsed_ms);
            match verified_in(start, host, challenge, anchors) {
                Err(e) => Err(e),
                Ok(verification) => Ok(StartModel { verification, ..start }),
            }
        },
    }
}

proof fn lemma_first_anchor(anchors: Seq<AnchorModel>, key_id: Seq<char>)
    ensures
        first_anchor(anchors, key_id) matches Some(a) ==> anchors.contains(a) && a.key_id
            == key_id,
    decreases anchors.len(),
{
    if anchors.len() > 0 {
        if anchors[0].key_id == key_id {
            assert(anchors.contains(anchors[0]));
        } else {
            lemma_first_anchor(anchors.skip(1), key_id);
            if let Some(a) = first_anchor(anchors.skip(1), key_id) {
                let i = choose|i: int| 0 <= i < anchors.skip(1).len() && anchors.skip(1)[i] == a;
                assert(anchors[i + 1] == a);
            }
        }
    }
}

/// An answer passes only if one of the trusted roots signed its certificate,
/// that certificate's key signed the answer, the answer echoes the challenge
/// this chip produced, and it names the host that was asked.
pub proof fn law_only_a_checked_answer_passes(
    start: StartModel,
    host: Seq<char>,
    challenge: Seq<u8>,
    anchors: Seq<AnchorModel>,
)
    requires
        verified_in(start, host, challenge, anchors) is Ok,
    ensures
        exists|anchor: AnchorModel| #[trigger]
            anchors.contains(anchor) && ({
                let certificate = certificate_in(start.server_certificate)->Ok_0;
                let root = certificate_in(anchor.der)->Ok_0;
                &&& certificate_in(start.server_certificate) is Ok
                &&& certificate_in(anchor.der) is Ok
                &&& certificate.authority_key_id == Some(anchor.key_id)
                &&& ecdsa_asn1_holds(root.public_key, certificate.tbs, certificate.signature)
                &&& signature_in(start.server_signature1) is Ok
                &&& ecdsa_fixed_holds(
                    certificate.public_key,
                    start.server_signed1,
                    signature_in(start.server_signature1)->Ok_0,
                )
            }),
        start.echoed_euicc_challenge == hex_text_upper(challenge),
        lower(start.server_address) == lower(host),
{
    let certificate = certificate_in(start.server_certificate)->Ok_0;
    let authority = certificate.authority_key_id->0;
    lemma_first_anchor(anchors, authority);
    let anchor = first_anchor(anchors, authority)->0;
    assert(anchors.contains(anchor));
}

/// An answer that echoes another challenge, one from an earlier session, never
/// passes, whatever it is signed with.
pub proof fn law_a_replayed_answer_is_refused(
    start: StartModel,
    host: Seq<char>,
    challenge: Seq<u8>,
    anchors: Seq<AnchorModel>,
)
    requires
        start.echoed_euicc_challenge != hex_text_upper(challenge),
    ensures
        verified_in(start, host, challenge, anchors) is Err,
{
}

} // verus!
