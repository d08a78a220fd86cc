//! The smallest X.509 reader that answers what the ES9+ checks ask: which
//! octets were signed, with what signature, by which key, and until when.
//!
//! Written out rather than left to a TLS library, and the reason is specific:
//! an SM-DP+ signing certificate may mark its `certificatePolicies` extension
//! critical, and a TLS library rejects any critical extension it does not
//! implement. That is right for a TLS server certificate and wrong here: this
//! credential is the one the eUICC verifies under SGP.22 rules.

use crate::ber::{
    element_in, element_models, elements_in, lemma_element, lemma_elements_fit, read, read_all,
    tag_is, BerFault, Element, ElementModel,
};
use crate::es9p::{Es9pError, Es9pFault};
use crate::octets::copy_range;
use crate::text::{
    decimal, hex_pair, hex_text_upper, lossy, lossy_text, opt_text, owned, push_decimal,
    push_hex_pair, push_hex_text_upper,
};
use crate::aka::hex_upper;
use vstd::prelude::*;

verus! {

/// What is wrong with octets that are no element.
pub open spec fn fault_text(fault: BerFault) -> Seq<char> {
    match fault {
        BerFault::NoTag => "truncated tag"@,
        BerFault::TagCutShort => "truncated multi-byte tag"@,
        BerFault::NoLength => "truncated length"@,
        BerFault::LengthForm(octet) => "unsupported length form 0x"@ + hex_pair(octet),
        BerFault::LengthCutShort => "truncated long length"@,
        BerFault::Overrun { length } => "value of "@ + decimal(length as nat)
            + " bytes runs past the buffer"@,
    }
}

pub fn describe_fault(fault: BerFault) -> (text: String)
    ensures
        text@ == fault_text(fault),
{
    let mut text: String = String::new();
    match fault {
        BerFault::NoTag => {
            text.append("truncated tag");
        },
        BerFault::TagCutShort => {
            text.append("truncated multi-byte tag");
        },
        BerFault::NoLength => {
            text.append("truncated length");
        },
        BerFault::LengthForm(octet) => {
            text.append("unsupported length form 0x");
            push_hex_pair(&mut text, octet);
        },
        BerFault::LengthCutShort => {
            text.append("truncated long length");
        },
        BerFault::Overrun { length } => {
            text.append("value of ");
            push_decimal(&mut text, length as u64);
            text.append(" bytes runs past the buffer");
        },
    }
    proof {
        assert(text@ =~= fault_text(fault));
    }
    text
}

/// The parts of a certificate that are asked for.
#[derive(Clone, Debug, PartialEq, Eq)]
pub struct Certificate {
    /// `tbsCertificate` with its own tag and length: the signed bytes.
    pub tbs: Vec<u8>,
    /// ECDSA signature over `tbs`, DER encoded.
    pub signature: Vec<u8>,
    /// Uncompressed EC point from `subjectPublicKeyInfo`.
    pub public_key: Vec<u8>,
    pub subject_key_id: Option<String>,
    pub authority_key_id: Option<String>,
    pub not_after: String,
}

/// A certificate, by what its texts say.
#[verifier::ext_equal]
pub struct CertificateModel {
    pub tbs: Seq<u8>,
    pub signature: Seq<u8>,
    pub public_key: Seq<u8>,
    pub subject_key_id: Option<Seq<char>>,
    pub authority_key_id: Option<Seq<char>>,
    pub not_after: Seq<char>,
}

impl View for Certificate {
    type V = CertificateModel;

    open spec fn view(&self) -> CertificateModel {
        CertificateModel {
            tbs: self.tbs@,
            signature: self.signature@,
            public_key: self.public_key@,
            subject_key_id: opt_text(self.subject_key_id),
            authority_key_id: opt_text(self.authority_key_id),
            not_after: self.not_after@,
        }
    }
}

/// The elements inside a value, or what is wrong with it.
pub open spec fn children_in(value: Seq<u8>) -> Result<Seq<ElementModel>, Seq<char>> {
    match elements_in(value) {
        Ok(list) => Ok(list),
        Err(f) => Err(fault_text(f)),
    }
}

/// A BIT STRING's payload, without the count of unused bits.
pub open spec fn bit_string_in(field: ElementModel) -> Result<Seq<u8>, Seq<char>> {
    if field.tag != seq![0x03u8] {
        Err("expected a BIT STRING, got tag "@ + hex_text_upper(field.tag))
    } else if field.value.len() == 0 {
        Err("empty BIT STRING"@)
    } else {
        Ok(field.value.skip(1))
    }
}

/// The first element with a one-octet tag.
pub open spec fn first_tagged(list: Seq<ElementModel>, tag: u8) -> Option<ElementModel>
    decreases list.len(),
{
    if list.len() == 0 {
        None
    } else if list[0].tag == seq![tag] {
        Some(list[0])
    } else {
        first_tagged(list.skip(1), tag)
    }
}

/// id-ce-subjectKeyIdentifier.
pub open spec fn subject_key_oid() -> Seq<u8> {
    seq![0x55u8, 0x1du8, 0x0eu8]
}

/// id-ce-authorityKeyIdentifier.
pub open spec fn authority_key_oid() -> Seq<u8> {
    seq![0x55u8, 0x1du8, 0x23u8]
}

/// A subject key identifier: an OCTET STRING around the identifier.
pub open spec fn subject_key_in(payload: Seq<u8>) -> Option<Seq<char>> {
    match element_in(payload) {
        Ok(inner) => Some(hex_text_upper(inner.value)),
        Err(_) => None,
    }
}

/// An authority key identifier: the `[0]` inside a SEQUENCE.
pub open spec fn authority_key_in(payload: Seq<u8>) -> Option<Seq<char>> {
    match element_in(payload) {
        Err(_) => None,
        Ok(inner) => match elements_in(inner.value) {
            Err(_) => None,
            Ok(fields) => match first_tagged(fields, 0x80) {
                Some(field) => Some(hex_text_upper(field.value)),
                None => None,
            },
        },
    }
}

/// The key identifiers that a certificate's extensions name.
#[verifier::ext_equal]
pub struct KeyIds {
    pub subject: Option<Seq<char>>,
    pub authority: Option<Seq<char>>,
}

/// Key identifiers with one extension taken up.
pub open spec fn with_extension(ids: KeyIds, parts: Seq<ElementModel>) -> KeyIds {
    if parts.len() == 0 {
        ids
    } else if parts[0].value == subject_key_oid() {
        KeyIds { subject: subject_key_in(parts.last().value), ..ids }
    } else if parts[0].value == authority_key_oid() {
        KeyIds { authority: authority_key_in(parts.last().value), ..ids }
    } else {
        ids
    }
}

/// Key identifiers with each of a list of extensions taken up in turn.
pub open spec fn key_ids_from(ids: KeyIds, extensions: Seq<ElementModel>) -> Result<
    KeyIds,
    Seq<char>,
>
    decreases extensions.len(),
{
    if extensions.len() == 0 {
        Ok(ids)
    } else {
        match children_in(extensions[0].value) {
            Err(e) => Err(e),
            Ok(parts) => key_ids_from(with_extension(ids, parts), extensions.skip(1)),
        }
    }
}

/// The key identifiers in the fields behind the public key.
pub open spec fn key_ids_in(fields: Seq<ElementModel>) -> Result<KeyIds, Seq<char>> {
    let none = KeyIds { subject: None, authority: None };
    match first_tagged(fields, 0xa3) {
        None => Ok(none),
        Some(extensions) => match element_in(extensions.value) {
            Err(f) => Err(fault_text(f)),
            Ok(list) => match children_in(list.value) {
                Err(e) => Err(e),
                Ok(all) => key_ids_from(none, all),
            },
        },
    }
}

/// Where the fields behind the version start: the version is optional, and
/// everything behind it shifts.
pub open spec fn fields_base(fields: Seq<ElementModel>) -> int {
    if fields.len() > 0 && fields[0].tag == seq![0xa0u8] {
        1
    } else {
        0
    }
}

/// When a certificate stops being valid, as ASN.1 wrote it.
pub open spec fn not_after_in(validity: ElementModel) -> Result<Seq<char>, Seq<char>> {
    match children_in(validity.value) {
        Err(e) => Err(e),
        Ok(fields) => if fields.len() < 2 {
            Err("no notAfter"@)
        } else {
            Ok(lossy(fields[1].value))
        },
    }
}

/// The key in a `subjectPublicKeyInfo`.
pub open spec fn public_key_in(info: ElementModel) -> Result<Seq<u8>, Seq<char>> {
    match children_in(info.value) {
        Err(e) => Err(e),
        Ok(fields) => if fields.len() < 2 {
            Err("no public key"@)
        } else {
            bit_string_in(fields[1])
        },
    }
}

/// A certificate from its signed part, its signature and the fields of the
/// signed part.
pub open spec fn from_fields(
    tbs: ElementModel,
    signature: Seq<u8>,
    fields: Seq<ElementModel>,
) -> Result<CertificateModel, Seq<char>> {
    let base = fields_base(fields);
    if fields.len() <= base + 3 {
        Err("no validity"@)
    } else if fields.len() <= base + 5 {
        Err("no subjectPublicKeyInfo"@)
    } else {
        match not_after_in(fields[base + 3]) {
            Err(e) => Err(e),
            Ok(not_after) => match public_key_in(fields[base + 5]) {
                Err(e) => Err(e),
                Ok(public_key) => match key_ids_in(fields.skip(base + 6)) {
                    Err(e) => Err(e),
                    Ok(ids) => Ok(
                        CertificateModel {
                            tbs: tbs.whole,
                            signature,
                            public_key,
                            subject_key_id: ids.subject,
                            authority_key_id: ids.authority,
                            not_after,
                        },
                    ),
                },
            },
        }
    }
}

/// The certificate that octets start with, or what is wrong with it.
pub open spec fn certificate_in(der: Seq<u8>) -> Result<CertificateModel, Seq<char>> {
    match element_in(der) {
        Err(f) => Err(fault_text(f)),
        Ok(certificate) => match children_in(certificate.value) {
            Err(e) => Err(e),
            Ok(parts) => if parts.len() != 3 {
                Err(
                    "certificate has "@ + decimal(parts.len()) + " top-level fields, expected 3"@,
                )
            } else {
                match bit_string_in(parts[2]) {
                    Err(e) => Err(e),
                    Ok(signature) => match children_in(parts[0].value) {
                        Err(e) => Err(e),
                        Ok(fields) => from_fields(parts[0], signature, fields),
                    },
                }
            },
        },
    }
}

fn children<'a>(value: &'a [u8]) -> (list: Result<Vec<Element<'a>>, String>)
    ensures
        match list {
            Ok(l) => children_in(value@) == Ok::<Seq<ElementModel>, Seq<char>>(
                element_models(l@),
            ),
            Err(e) => children_in(value@) == Err::<Seq<ElementModel>, Seq<char>>(e@),
        },
{
    match read_all(value) {
        Ok(list) => Ok(list),
        Err(f) => Err(describe_fault(f)),
    }
}

fn bit_string(field: &Element) -> (payload: Result<Vec<u8>, String>)
    ensures
        match payload {
            Ok(p) => bit_string_in(field@) == Ok::<Seq<u8>, Seq<char>>(p@),
            Err(e) => bit_string_in(field@) == Err::<Seq<u8>, Seq<char>>(e@),
        },
{
    if !tag_is(field.tag, 0x03) {
        let mut reason: String = owned("expected a BIT STRING, got tag ");
        push_hex_text_upper(&mut reason, field.tag);
        return Err(reason);
    }
    let total: usize = field.value.len();
    if total == 0 {
        return Err(owned("empty BIT STRING"));
    }
    proof {
        assert(field.value@.subrange(1, total as int) =~= field.value@.skip(1));
    }
    Ok(copy_range(field.value, 1, total))
}

fn find_tagged<'a, 'b>(list: &'b [Element<'a>], tag: u8) -> (found: Option<&'a [u8]>)
    ensures
        match found {
            Some(v) => first_tagged(element_models(list@), tag) is Some && first_tagged(
                element_models(list@),
                tag,
            )->0.value == v@,
            None => first_tagged(element_models(list@), tag) is None,
        },
{
    let ghost models = element_models(list@);
    let mut i: usize = 0;
    proof {
        assert(models.skip(0) =~= models);
    }
    while i < list.len()
        invariant
            i <= list@.len(),
            models == element_models(list@),
            first_tagged(models.skip(i as int), tag) == first_tagged(models, tag),
        decreases list@.len() - i,
    {
        proof {
            assert(models.skip(i as int).skip(1) =~= models.skip(i + 1));
            assert(models.skip(i as int)[0] == list@[i as int]@);
        }
        if tag_is(list[i].tag, tag) {
            return Some(list[i].value);
        }
        i = i + 1;
    }
    None
}

fn subject_key(payload: &[u8]) -> (id: Option<String>)
    ensures
        opt_text(id) == subject_key_in(payload@),
{
    match read(payload) {
        Ok(inner) => Some(hex_upper(inner.value)),
        Err(_) => None,
    }
}

fn authority_key(payload: &[u8]) -> (id: Option<String>)
    ensures
        opt_text(id) == authority_key_in(payload@),
{
    let inner: Element = match read(payload) {
        Ok(inner) => inner,
        Err(_) => return None,
    };
    let fields: Vec<Element> = match read_all(inner.value) {
        Ok(fields) => fields,
        Err(_) => return None,
    };
    match find_tagged(&fields, 0x80) {
        Some(value) => Some(hex_upper(value)),
        None => None,
    }
}

fn is_key_oid(oid: &[u8], last: u8) -> (yes: bool)
    ensures
        yes == (oid@ == seq![0x55u8, 0x1du8, last]),
{
    let yes: bool = oid.len() == 3 && oid[0] == 0x55 && oid[1] == 0x1d && oid[2] == last;
    proof {
        if yes {
            assert(oid@ =~= seq![0x55u8, 0x1du8, last]);
        } else if oid@ == seq![0x55u8, 0x1du8, last] {
            assert(oid@.len() == 3 && oid@[0] == 0x55 && oid@[1] == 0x1d && oid@[2] == last);
        }
    }
    yes
}

fn read_key_ids(extensions: &[Element]) -> (ids: Result<(Option<String>, Option<String>), String>)
    ensures
        ({
            let wanted = key_ids_from(
                KeyIds { subject: None, authority: None },
                element_models(extensions@),
            );
            match ids {
                Ok((s, a)) => wanted == Ok::<KeyIds, Seq<char>>(
                    KeyIds { subject: opt_text(s), authority: opt_text(a) },
                ),
                Err(e) => wanted == Err::<KeyIds, Seq<char>>(e@),
            }
        }),
{
    let mut subject: Option<String> = None;
    let mut authority: Option<String> = None;
    let ghost models = element_models(extensions@);
    let ghost none = KeyIds { subject: None, authority: None };
    let mut i: usize = 0;
    proof {
        assert(models.skip(0) =~= models);
    }
    while i < extensions.len()
        invariant
            i <= extensions@.len(),
            models == element_models(extensions@),
            key_ids_from(
                KeyIds { subject: opt_text(subject), authority: opt_text(authority) },
                models.skip(i as int),
            ) == key_ids_from(none, models),
            none == (KeyIds { subject: None, authority: None }),
        decreases extensions@.len() - i,
    {
        proof {
            assert(models.skip(i as int).skip(1) =~= models.skip(i + 1));
            assert(models.skip(i as int)[0] == extensions@[i as int]@);
        }
        let parts: Vec<Element> = match children(extensions[i].value) {
            Ok(parts) => parts,
            Err(e) => return Err(e),
        };
        let count: usize = parts.len();
        let ghost ids = KeyIds { subject: opt_text(subject), authority: opt_text(authority) };
        let ghost part_models = element_models(parts@);
        if count > 0 {
            let oid: &[u8] = parts[0].value;
            let payload: &[u8] = parts[count - 1].value;
            proof {
                assert(part_models[0] == parts@[0]@);
                assert(part_models.last() == parts@[count - 1]@);
            }
            if is_key_oid(oid, 0x0e) {
                subject = subject_key(payload);
            } else if is_key_oid(oid, 0x23) {
                authority = authority_key(payload);
            }
        }
        proof {
            assert(with_extension(ids, part_models) =~= (KeyIds {
                subject: opt_text(subject),
                authority: opt_text(authority),
            }));
        }
        i = i + 1;
    }
    Ok((subject, authority))
}

fn find_key_ids(fields: &[Element]) -> (ids: Result<(Option<String>, Option<String>), String>)
    ensures
        match ids {
            Ok((s, a)) => key_ids_in(element_models(fields@)) == Ok::<KeyIds, Seq<char>>(
                KeyIds { subject: opt_text(s), authority: opt_text(a) },
            ),
            Err(e) => key_ids_in(element_models(fields@)) == Err::<KeyIds, Seq<char>>(e@),
        },
{
    match find_tagged(fields, 0xa3) {
        None => Ok((None, None)),
        Some(value) => match read(value) {
            Err(f) => Err(describe_fault(f)),
            Ok(list) => match children(list.value) {
                Err(e) => Err(e),
                Ok(all) => read_key_ids(&all),
            },
        },
    }
}

fn read_not_after(validity: &Element) -> (text: Result<String, String>)
    ensures
        match text {
            Ok(t) => not_after_in(validity@) == Ok::<Seq<char>, Seq<char>>(t@),
            Err(e) => not_after_in(validity@) == Err::<Seq<char>, Seq<char>>(e@),
        },
{
    match children(validity.value) {
        Err(e) => Err(e),
        Ok(fields) => {
            if fields.len() < 2 {
                return Err(owned("no notAfter"));
            }
            proof {
                assert(element_models(fields@)[1] == fields@[1]@);
            }
            Ok(lossy_text(fields[1].value))
        },
    }
}

fn read_public_key(info: &Element) -> (key: Result<Vec<u8>, String>)
    ensures
        match key {
            Ok(k) => public_key_in(info@) == Ok::<Seq<u8>, Seq<char>>(k@),
            Err(e) => public_key_in(info@) == Err::<Seq<u8>, Seq<char>>(e@),
        },
{
    match children(info.value) {
        Err(e) => Err(e),
        Ok(fields) => {
            if fields.len() < 2 {
                return Err(owned("no public key"));
            }
            proof {
                assert(element_models(fields@)[1] == fields@[1]@);
            }
            bit_string(&fields[1])
        },
    }
}

fn read_fields(tbs: &Element, signature: Vec<u8>, fields: &[Element]) -> (certificate: Result<
    Certificate,
    String,
>)
    ensures
        match certificate {
            Ok(c) => from_fields(tbs@, signature@, element_models(fields@)) == Ok::<
                CertificateModel,
                Seq<char>,
            >(c@),
            Err(e) => from_fields(tbs@, signature@, element_models(fields@)) == Err::<
                CertificateModel,
                Seq<char>,
            >(e@),
        },
{
    let ghost models = element_models(fields@);
    let count: usize = fields.len();
    let base: usize = if count > 0 && tag_is(fields[0].tag, 0xa0) {
        1
    } else {
        0
    };
    proof {
        if count > 0 {
            assert(models[0] == fields@[0]@);
        }
    }
    if count <= base + 3 {
        return Err(owned("no validity"));
    }
    if count <= base + 5 {
        return Err(owned("no subjectPublicKeyInfo"));
    }
    proof {
        assert(models[base + 3] == fields@[base + 3]@);
        assert(models[base + 5] == fields@[base + 5]@);
        assert(element_models(fields@.subrange(base + 6, count as int)) =~= models.skip(base + 6));
    }
    let not_after: String = match read_not_after(&fields[base + 3]) {
        Ok(text) => text,
        Err(e) => return Err(e),
    };
    let public_key: Vec<u8> = match read_public_key(&fields[base + 5]) {
        Ok(key) => key,
        Err(e) => return Err(e),
    };
    let (subject_key_id, authority_key_id) = match find_key_ids(&fields[base + 6..count]) {
        Ok(ids) => ids,
        Err(e) => return Err(e),
    };
    let certificate = Certificate {
        tbs: crate::octets::copy_of(tbs.whole),
        signature,
        public_key,
        subject_key_id,
        authority_key_id,
        not_after,
    };
    proof {
        assert(certificate@ =~= from_fields(tbs@, signature@, models)->Ok_0);
    }
    Ok(certificate)
}

fn read_certificate(der: &[u8]) -> (certificate: Result<Certificate, String>)
    ensures
        match certificate {
            Ok(c) => certificate_in(der@) == Ok::<CertificateModel, Seq<char>>(c@),
            Err(e) => certificate_in(der@) == Err::<CertificateModel, Seq<char>>(e@),
        },
{
    let whole: Element = match read(der) {
        Ok(whole) => whole,
        Err(f) => return Err(describe_fault(f)),
    };
    let parts: Vec<Element> = match children(whole.value) {
        Ok(parts) => parts,
        Err(e) => return Err(e),
    };
    if parts.len() != 3 {
        let mut reason: String = owned("certificate has ");
        push_decimal(&mut reason, parts.len() as u64);
        reason.append(" top-level fields, expected 3");
        return Err(reason);
    }
    proof {
        assert(element_models(parts@)[0] == parts@[0]@);
        assert(element_models(parts@)[2] == parts@[2]@);
    }
    let signature: Vec<u8> = match bit_string(&parts[2]) {
        Ok(signature) => signature,
        Err(e) => return Err(e),
    };
    let fields: Vec<Element> = match children(parts[0].value) {
        Ok(fields) => fields,
        Err(e) => return Err(e),
    };
    read_fields(&parts[0], signature, &fields)
}

impl Certificate {
    pub fn parse(der: &[u8]) -> (certificate: Result<Self, Es9pError>)
        ensures
            match certificate {
                Ok(c) => certificate_in(der@) == Ok::<CertificateModel, Seq<char>>(c@),
                Err(e) => certificate_in(der@) is Err && e@ == (Es9pFault::MalformedCertificate {
                    reason: certificate_in(der@)->Err_0,
                }),
            },
    {
        match read_certificate(der) {
            Ok(certificate) => Ok(certificate),
            Err(reason) => Err(Es9pError::MalformedCertificate { reason }),
        }
    }
}

/// The signed part of a certificate is no longer than the certificate.
pub proof fn lemma_signed_part_fits(der: Seq<u8>)
    requires
        certificate_in(der) is Ok,
    ensures
        certificate_in(der)->Ok_0.tbs.len() <= der.len(),
{
    lemma_element(der);
    lemma_elements_fit(element_in(der)->Ok_0.value, 0);
}

} // verus!
