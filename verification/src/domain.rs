//! What the crate shares with the planner above it: bearers, the evidence of a
//! registration, and the alphabet of a short message.

use crate::text::owned;
use vstd::prelude::*;

verus! {

/// What carries a short message.
#[derive(Clone, Copy, Debug, PartialEq, Eq)]
pub enum Bearer {
    Cellular,
    /// Any other bearer, by its name.
    Other(&'static str),
}

impl Bearer {
    pub open spec fn text(self) -> &'static str {
        match self {
            Bearer::Cellular => "cellular",
            Bearer::Other(name) => name,
        }
    }

    /// Whether two bearers are the same.
    pub open spec fn same(self, other: Bearer) -> bool {
        match (self, other) {
            (Bearer::Cellular, Bearer::Cellular) => true,
            (Bearer::Other(left), Bearer::Other(right)) => left@ == right@,
            _ => false,
        }
    }

    pub fn name(self) -> (name: &'static str)
        ensures
            name == self.text(),
    {
        match self {
            Bearer::Cellular => "cellular",
            Bearer::Other(name) => name,
        }
    }

    pub fn is(self, other: Bearer) -> (yes: bool)
        ensures
            yes == self.same(other),
    {
        match (self, other) {
            (Bearer::Cellular, Bearer::Cellular) => true,
            (Bearer::Other(left), Bearer::Other(right)) => crate::text::same_text(left, right),
            _ => false,
        }
    }
}

/// Which bearer a message goes out on, which one is tried after it, and why
/// there is none where there is none.
#[derive(Clone, Debug, PartialEq, Eq)]
pub struct SendPlan {
    pub primary: Option<Bearer>,
    pub fallback: Option<Bearer>,
    pub reason: String,
}

/// A network, by its country and network codes as digits.
#[derive(Clone, Debug, PartialEq, Eq)]
pub struct Plmn {
    pub mcc: String,
    pub mnc: String,
}

/// A network, by what its texts say.
#[verifier::ext_equal]
pub struct PlmnModel {
    pub mcc: Seq<char>,
    pub mnc: Seq<char>,
}

impl View for Plmn {
    type V = PlmnModel;

    open spec fn view(&self) -> PlmnModel {
        PlmnModel {
            mcc: self.mcc@,
            mnc: self.mnc@,
        }
    }
}

impl Plmn {
    pub fn new(mcc: String, mnc: String) -> (plmn: Self)
        ensures
            plmn@ == (PlmnModel { mcc: mcc@, mnc: mnc@ }),
    {
        Plmn { mcc, mnc }
    }
}

/// A network that may not be known.
pub open spec fn opt_plmn(plmn: Option<Plmn>) -> Option<PlmnModel> {
    match plmn {
        Some(p) => Some(p@),
        None => None,
    }
}

/// One thing that speaks for a module being registered.
#[derive(Clone, Debug, PartialEq, Eq)]
pub enum RegistrationEvidence {
    ServingSystem { registered: bool, plmn: Option<Plmn> },
    CellLocation { plmn: Option<Plmn>, global_cell_id: Option<u32> },
}

/// One thing that speaks for a module being registered, by what it says.
pub enum EvidenceModel {
    ServingSystem { registered: bool, plmn: Option<PlmnModel> },
    CellLocation { plmn: Option<PlmnModel>, global_cell_id: Option<u32> },
}

impl View for RegistrationEvidence {
    type V = EvidenceModel;

    open spec fn view(&self) -> EvidenceModel {
        match *self {
            RegistrationEvidence::ServingSystem { registered, plmn } => {
                EvidenceModel::ServingSystem { registered, plmn: opt_plmn(plmn) }
            },
            RegistrationEvidence::CellLocation { plmn, global_cell_id } => {
                EvidenceModel::CellLocation { plmn: opt_plmn(plmn), global_cell_id }
            },
        }
    }
}

/// The models of evidence.
pub open spec fn evidence_models(list: Seq<RegistrationEvidence>) -> Seq<EvidenceModel> {
    list.map_values(|evidence: RegistrationEvidence| evidence@)
}

fn copy_plmn(plmn: &Option<Plmn>) -> (copy: Option<Plmn>)
    ensures
        opt_plmn(copy) == opt_plmn(*plmn),
{
    match plmn {
        Some(p) => Some(Plmn { mcc: owned(p.mcc.as_str()), mnc: owned(p.mnc.as_str()) }),
        None => None,
    }
}

pub fn copy_evidence(evidence: &RegistrationEvidence) -> (copy: RegistrationEvidence)
    ensures
        copy@ == evidence@,
{
    match evidence {
        RegistrationEvidence::ServingSystem { registered, plmn } => {
            RegistrationEvidence::ServingSystem { registered: *registered, plmn: copy_plmn(plmn) }
        },
        RegistrationEvidence::CellLocation { plmn, global_cell_id } => {
            RegistrationEvidence::CellLocation {
                plmn: copy_plmn(plmn),
                global_cell_id: *global_cell_id,
            }
        },
    }
}

/// How many septets one short message holds.
pub const GSM7_MAX_SEPTETS: usize = 160;

/// How many UCS-2 characters one short message holds.
pub const UCS2_MAX_CHARS: usize = 70;

/// The septet of a character, for the characters that the GSM 7-bit default
/// alphabet has in the place where ASCII has them.
pub open spec fn septet_of(c: char) -> Option<u8> {
    let n = c as u32;
    if n == 0x0a || n == 0x0d || 0x20 <= n <= 0x23 || 0x25 <= n <= 0x3f || 0x41 <= n <= 0x5a
        || 0x61 <= n <= 0x7a {
        Some(n as u8)
    } else {
        None
    }
}

/// The septet of a character, for the characters that the GSM 7-bit default
/// alphabet has in the place where ASCII has them.
pub fn gsm7_value(c: char) -> (septet: Option<u8>)
    ensures
        septet == septet_of(c),
        septet matches Some(s) ==> s < 128,
{
    let n: u32 = c as u32;
    if n == 0x0a || n == 0x0d || (0x20 <= n && n <= 0x23) || (0x25 <= n && n <= 0x3f) || (0x41 <= n
        && n <= 0x5a) || (0x61 <= n && n <= 0x7a) {
        Some(n as u8)
    } else {
        None
    }
}

} // verus!
