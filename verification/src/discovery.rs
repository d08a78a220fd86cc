//! Finding modems on the host.

use crate::port::TransportKind;
use crate::text::{clone_text, opt_text, owned};
use vstd::prelude::*;

verus! {

/// A candidate control channel found on the host.
#[derive(Clone, Debug, PartialEq, Eq)]
pub struct DiscoveredModem {
    pub kind: TransportKind,
    pub path: String,
    pub net_iface: Option<String>,
}

/// A candidate, by what its texts say.
#[verifier::ext_equal]
pub struct DiscoveredModel {
    pub kind: TransportKind,
    pub path: Seq<char>,
    pub net_iface: Option<Seq<char>>,
}

impl View for DiscoveredModem {
    type V = DiscoveredModel;

    open spec fn view(&self) -> DiscoveredModel {
        DiscoveredModel {
            kind: self.kind,
            path: self.path@,
            net_iface: opt_text(self.net_iface),
        }
    }
}

/// The models of candidates.
pub open spec fn discovered_models(list: Seq<DiscoveredModem>) -> Seq<DiscoveredModel> {
    list.map_values(|modem: DiscoveredModem| modem@)
}

/// Host enumeration. Production reads sysfs; tests inject a fake list.
///
/// Whether a list is one that an enumeration may find is up to the
/// implementation: unless it says more, any list is.
pub trait DeviceEnumerator {
    open spec fn finds_qmi(&self, found: Seq<DiscoveredModel>) -> bool {
        true
    }

    open spec fn finds_mbim(&self, found: Seq<DiscoveredModel>) -> bool {
        true
    }

    open spec fn finds_at(&self, found: Seq<DiscoveredModel>) -> bool {
        true
    }

    fn qmi_candidates(&self) -> (found: Vec<DiscoveredModem>)
        ensures
            self.finds_qmi(discovered_models(found@)),
    ;

    fn mbim_candidates(&self) -> (found: Vec<DiscoveredModem>)
        ensures
            self.finds_mbim(discovered_models(found@)),
    ;

    fn vid_at_candidates(&self) -> (found: Vec<DiscoveredModem>)
        ensures
            self.finds_at(discovered_models(found@)),
    ;
}

/// Whether an enumeration may find nothing over QMI.
pub open spec fn without_qmi<E: DeviceEnumerator>(enumerator: &E) -> bool {
    enumerator.finds_qmi(Seq::empty())
}

/// Whether an enumeration may find nothing over MBIM.
pub open spec fn without_mbim<E: DeviceEnumerator>(enumerator: &E) -> bool {
    enumerator.finds_mbim(Seq::empty())
}

/// Whether a discovery may yield a list: the first step that finds something is
/// the one that counts, and what the last one finds counts in any case.
pub open spec fn may_discover<E: DeviceEnumerator>(
    enumerator: &E,
    found: Seq<DiscoveredModel>,
) -> bool {
    ||| found.len() > 0 && enumerator.finds_qmi(found)
    ||| without_qmi(enumerator) && found.len() > 0 && enumerator.finds_mbim(found)
    ||| without_qmi(enumerator) && without_mbim(enumerator) && enumerator.finds_at(found)
}

/// QMI first, then MBIM, then VID/AT fallback. The first non-empty step wins.
pub fn discover<E: DeviceEnumerator>(enumerator: &E) -> (found: Vec<DiscoveredModem>)
    ensures
        may_discover(enumerator, discovered_models(found@)),
{
    let qmi: Vec<DiscoveredModem> = enumerator.qmi_candidates();
    if qmi.len() > 0 {
        return qmi;
    }
    proof {
        assert(discovered_models(qmi@) =~= Seq::empty());
    }
    let mbim: Vec<DiscoveredModem> = enumerator.mbim_candidates();
    if mbim.len() > 0 {
        return mbim;
    }
    proof {
        assert(discovered_models(mbim@) =~= Seq::empty());
    }
    enumerator.vid_at_candidates()
}

/// In-memory enumerator for the three-step discovery tests.
#[derive(Clone, Debug)]
pub struct FakeEnumerator {
    pub qmi: Vec<DiscoveredModem>,
    pub mbim: Vec<DiscoveredModem>,
    pub at: Vec<DiscoveredModem>,
}

impl Default for FakeEnumerator {
    fn default() -> (enumerator: Self)
        ensures
            enumerator.qmi@.len() == 0,
            enumerator.mbim@.len() == 0,
            enumerator.at@.len() == 0,
    {
        FakeEnumerator { qmi: Vec::new(), mbim: Vec::new(), at: Vec::new() }
    }
}

fn copy_list(list: &Vec<DiscoveredModem>) -> (copy: Vec<DiscoveredModem>)
    ensures
        discovered_models(copy@) == discovered_models(list@),
{
    let mut copy: Vec<DiscoveredModem> = Vec::new();
    let mut i: usize = 0;
    while i < list.len()
        invariant
            i <= list@.len(),
            copy@.len() == i,
            forall|j: int| 0 <= j < i ==> (#[trigger] copy@[j])@ == list@[j]@,
        decreases list@.len() - i,
    {
        copy.push(
            DiscoveredModem {
                kind: list[i].kind,
                path: owned(list[i].path.as_str()),
                net_iface: clone_text(&list[i].net_iface),
            },
        );
        i = i + 1;
    }
    proof {
        assert(discovered_models(copy@) =~= discovered_models(list@));
    }
    copy
}

impl DeviceEnumerator for FakeEnumerator {
    open spec fn finds_qmi(&self, found: Seq<DiscoveredModel>) -> bool {
        found == discovered_models(self.qmi@)
    }

    open spec fn finds_mbim(&self, found: Seq<DiscoveredModel>) -> bool {
        found == discovered_models(self.mbim@)
    }

    open spec fn finds_at(&self, found: Seq<DiscoveredModel>) -> bool {
        found == discovered_models(self.at@)
    }

    fn qmi_candidates(&self) -> (found: Vec<DiscoveredModem>) {
        copy_list(&self.qmi)
    }

    fn mbim_candidates(&self) -> (found: Vec<DiscoveredModem>) {
        copy_list(&self.mbim)
    }

    fn vid_at_candidates(&self) -> (found: Vec<DiscoveredModem>) {
        copy_list(&self.at)
    }
}

/// What is found over QMI hides everything else.
pub proof fn law_qmi_goes_first(enumerator: &FakeEnumerator, found: Seq<DiscoveredModel>)
    requires
        enumerator.qmi@.len() > 0,
        may_discover(enumerator, found),
    ensures
        found == discovered_models(enumerator.qmi@),
{
    assert(discovered_models(enumerator.qmi@).len() == enumerator.qmi@.len());
}

/// What is found over MBIM is taken where nothing is over QMI, and what
/// answers AT commands only where neither is.
pub proof fn law_mbim_goes_second_and_at_last(
    enumerator: &FakeEnumerator,
    found: Seq<DiscoveredModel>,
)
    requires
        enumerator.qmi@.len() == 0,
        may_discover(enumerator, found),
    ensures
        enumerator.mbim@.len() > 0 ==> found == discovered_models(enumerator.mbim@),
        enumerator.mbim@.len() == 0 ==> found == discovered_models(enumerator.at@),
{
    assert(discovered_models(enumerator.qmi@).len() == enumerator.qmi@.len());
    assert(discovered_models(enumerator.mbim@).len() == enumerator.mbim@.len());
}

} // verus!
