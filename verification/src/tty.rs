//! Serial candidates, out of what sysfs says of every tty.

use crate::at::{
    candidate_from_parts, candidate_models, control_port_of_device, goes_before, in_order,
    interface_above, is_port, lemma_path_order, of_device, path_before, probe_policy,
    select_control_ports, tty_kind, usb_interface_path, AtPortCandidate, AtPortKind, CandidateModel,
};
use crate::text::{
    below, chars_of, clone_text, join_path, lower, lowered, opt_text, string_of, texts, trim,
    trimmed,
};
use vstd::prelude::*;

verus! {

/// What sysfs says of one tty. The attributes are as they were read, of the USB
/// interface above the tty and of the USB device above that.
#[derive(Clone, Debug, PartialEq, Eq)]
pub struct TtyEntry {
    pub name: String,
    /// Where the `device` link leads.
    pub resolved: Option<String>,
    /// `idVendor` of the USB device.
    pub vendor: Option<String>,
    /// `idProduct` of the USB device.
    pub product: Option<String>,
    /// `interface` of the USB interface.
    pub label: Option<String>,
    /// The driver of the USB interface.
    pub interface_driver: Option<String>,
    /// The driver of the first component that has one, from the tty upwards.
    pub nearest_driver: Option<String>,
}

/// What sysfs says of a tty, by what its texts say.
#[verifier::ext_equal]
pub struct TtyModel {
    pub name: Seq<char>,
    pub resolved: Option<Seq<char>>,
    pub vendor: Option<Seq<char>>,
    pub product: Option<Seq<char>>,
    pub label: Option<Seq<char>>,
    pub interface_driver: Option<Seq<char>>,
    pub nearest_driver: Option<Seq<char>>,
}

impl View for TtyEntry {
    type V = TtyModel;

    open spec fn view(&self) -> TtyModel {
        TtyModel {
            name: self.name@,
            resolved: opt_text(self.resolved),
            vendor: opt_text(self.vendor),
            product: opt_text(self.product),
            label: opt_text(self.label),
            interface_driver: opt_text(self.interface_driver),
            nearest_driver: opt_text(self.nearest_driver),
        }
    }
}

/// The models of entries.
pub open spec fn tty_models(entries: Seq<TtyEntry>) -> Seq<TtyModel> {
    entries.map_values(|entry: TtyEntry| entry@)
}

// ---------------------------------------------------------------------------
// One candidate
// ---------------------------------------------------------------------------

/// What an attribute says: nothing where it is blank.
pub open spec fn attribute(text: Option<Seq<char>>) -> Option<Seq<char>> {
    match text {
        None => None,
        Some(t) => if trimmed(t).len() == 0 {
            None
        } else {
            Some(trimmed(t))
        },
    }
}

fn read_trimmed(text: &Option<String>) -> (value: Option<String>)
    ensures
        opt_text(value) == attribute(opt_text(*text)),
{
    match text {
        None => None,
        Some(t) => {
            let chars: Vec<char> = chars_of(t.as_str());
            let inner: &[char] = trim(&chars);
            if inner.len() == 0 {
                None
            } else {
                Some(string_of(inner))
            }
        },
    }
}

/// An attribute in lower case.
pub open spec fn lower_attribute(text: Option<Seq<char>>) -> Option<Seq<char>> {
    match attribute(text) {
        None => None,
        Some(t) => Some(lower(t)),
    }
}

fn read_lowered(text: &Option<String>) -> (value: Option<String>)
    ensures
        opt_text(value) == lower_attribute(opt_text(*text)),
{
    match read_trimmed(text) {
        None => None,
        Some(t) => Some(string_of(&lowered(t.as_str()))),
    }
}

/// The candidate that an entry is, if its name is a modem's and it has a device
/// behind it. What belongs to a USB interface is left out where there is none.
pub open spec fn candidate_of(entry: TtyModel, dev_root: Seq<char>) -> Option<CandidateModel> {
    match (tty_kind(entry.name), entry.resolved) {
        (Some(kind), Some(resolved)) => Some(
            match interface_above(resolved) {
                None => candidate_with(
                    below(dev_root, entry.name),
                    kind,
                    None,
                    None,
                    None,
                    entry.nearest_driver,
                    None,
                    None,
                ),
                Some((_, device, interface)) => candidate_with(
                    below(dev_root, entry.name),
                    kind,
                    Some(device),
                    Some(interface),
                    attribute(entry.label),
                    if entry.interface_driver is Some {
                        entry.interface_driver
                    } else {
                        entry.nearest_driver
                    },
                    lower_attribute(entry.vendor),
                    lower_attribute(entry.product),
                ),
            },
        ),
        _ => None,
    }
}

/// A candidate of parts, with the policy that they make.
pub open spec fn candidate_with(
    path: Seq<char>,
    kind: AtPortKind,
    usb_device: Option<Seq<char>>,
    interface: Option<Seq<char>>,
    interface_label: Option<Seq<char>>,
    driver: Option<Seq<char>>,
    vendor_id: Option<Seq<char>>,
    product_id: Option<Seq<char>>,
) -> CandidateModel {
    CandidateModel {
        path,
        kind,
        usb_device,
        interface,
        interface_label,
        driver,
        vendor_id,
        product_id,
        policy: probe_policy(kind, interface, interface_label, driver),
    }
}

fn read_candidate(entry: &TtyEntry, dev_root: &str) -> (candidate: Option<AtPortCandidate>)
    ensures
        match candidate {
            Some(c) => candidate_of(entry@, dev_root@) == Some(c@),
            None => candidate_of(entry@, dev_root@) is None,
        },
{
    let kind: AtPortKind = match AtPortKind::from_tty_name(entry.name.as_str()) {
        Some(kind) => kind,
        None => return None,
    };
    let resolved: &String = match &entry.resolved {
        Some(resolved) => resolved,
        None => return None,
    };
    let path: String = join_path(dev_root, entry.name.as_str());
    match usb_interface_path(resolved.as_str()) {
        None => Some(
            candidate_from_parts(
                path,
                kind,
                None,
                None,
                None,
                clone_text(&entry.nearest_driver),
                None,
                None,
            ),
        ),
        Some(above) => {
            let driver: Option<String> = if entry.interface_driver.is_some() {
                clone_text(&entry.interface_driver)
            } else {
                clone_text(&entry.nearest_driver)
            };
            Some(
                candidate_from_parts(
                    path,
                    kind,
                    Some(above.device),
                    Some(above.interface),
                    read_trimmed(&entry.label),
                    driver,
                    read_lowered(&entry.vendor),
                    read_lowered(&entry.product),
                ),
            )
        },
    }
}

// ---------------------------------------------------------------------------
// All of them, in order
// ---------------------------------------------------------------------------

/// A list in order with one more candidate in its place: behind everything
/// whose path does not stand behind its own.
pub open spec fn placed(list: Seq<CandidateModel>, candidate: CandidateModel) -> Seq<
    CandidateModel,
>
    decreases list.len(),
{
    if list.len() == 0 || !path_before(candidate.path, list.last().path) {
        list.push(candidate)
    } else {
        placed(list.drop_last(), candidate).push(list.last())
    }
}

/// The candidates among entries, sorted by path; those of one path stay in the
/// order in which they came.
pub open spec fn candidates_in(entries: Seq<TtyModel>, dev_root: Seq<char>) -> Seq<CandidateModel>
    decreases entries.len(),
{
    if entries.len() == 0 {
        Seq::empty()
    } else {
        let before = candidates_in(entries.drop_last(), dev_root);
        match candidate_of(entries.last(), dev_root) {
            None => before,
            Some(candidate) => placed(before, candidate),
        }
    }
}

fn place(list: &mut Vec<AtPortCandidate>, candidate: AtPortCandidate)
    ensures
        candidate_models(final(list)@) == placed(candidate_models(old(list)@), candidate@),
{
    let ghost all = candidate_models(list@);
    let ghost new = candidate@;
    let mut i: usize = list.len();
    proof {
        assert(all.take(i as int) =~= all);
        assert(placed(all, new) =~= placed(all.take(i as int), new) + all.skip(i as int));
    }
    while i > 0 && goes_before(candidate.path.as_str(), list[i - 1].path.as_str())
        invariant
            i <= list@.len(),
            list@ == old(list)@,
            all == candidate_models(list@),
            new == candidate@,
            placed(all, new) == placed(all.take(i as int), new) + all.skip(i as int),
        decreases i,
    {
        proof {
            assert(all.take(i as int).last() == list@[i - 1]@);
            assert(all.take(i as int).drop_last() =~= all.take(i - 1));
            assert(all.skip(i - 1) =~= seq![all[i - 1]] + all.skip(i as int));
            assert(placed(all, new) =~= placed(all.take(i - 1), new) + all.skip(i - 1));
        }
        i = i - 1;
    }
    proof {
        if i > 0 {
            assert(all.take(i as int).last() == list@[i - 1]@);
        }
        assert(placed(all.take(i as int), new) == all.take(i as int).push(new));
    }
    list.insert(i, candidate);
    proof {
        assert(candidate_models(list@) =~= all.insert(i as int, new));
        assert(all.insert(i as int, new) =~= all.take(i as int).push(new) + all.skip(i as int));
    }
}

/// Every modem-shaped serial candidate visible in sysfs, sorted by device path.
///
/// This deliberately has a wider surface than `at_control_ports`. A modem may
/// use `ttyUSB`, `ttyACM`, or `ttyHS`, and a new USB composition does not
/// deserve to disappear merely because it is not the EC20 `1.2` layout. The
/// policy tells a caller whether discovery has enough evidence to issue an
/// automatic identifying AT command.
pub fn at_port_candidates(entries: &Vec<TtyEntry>, dev_root: &str) -> (candidates: Vec<
    AtPortCandidate,
>)
    ensures
        candidate_models(candidates@) == candidates_in(tty_models(entries@), dev_root@),
{
    let ghost all = tty_models(entries@);
    let mut candidates: Vec<AtPortCandidate> = Vec::new();
    let mut i: usize = 0;
    proof {
        assert(all.take(0) =~= Seq::empty());
        assert(candidate_models(candidates@) =~= candidates_in(all.take(0), dev_root@));
    }
    while i < entries.len()
        invariant
            i <= entries@.len(),
            all == tty_models(entries@),
            candidate_models(candidates@) == candidates_in(all.take(i as int), dev_root@),
        decreases entries@.len() - i,
    {
        proof {
            assert(all.take(i + 1).drop_last() =~= all.take(i as int));
            assert(all.take(i + 1).last() == entries@[i as int]@);
        }
        if let Some(candidate) = read_candidate(&entries[i], dev_root) {
            place(&mut candidates, candidate);
        }
        i = i + 1;
    }
    proof {
        assert(all.take(i as int) =~= all);
    }
    candidates
}

/// Every serial port safe for the background poller to identify, sorted.
///
/// One control candidate is chosen for each physical USB device. A module in a
/// usbnet mode without `cdc-wdm` therefore remains discoverable, while its DM,
/// NMEA and PPP siblings are not all probed.
pub fn at_control_ports(entries: &Vec<TtyEntry>, dev_root: &str) -> (ports: Vec<String>)
    ensures
        in_order(texts(ports@)),
        forall|path: Seq<char>|
            texts(ports@).contains(path) <==> is_port(
                candidates_in(tty_models(entries@), dev_root@),
                path,
            ),
{
    select_control_ports(&at_port_candidates(entries, dev_root))
}

/// The USB device behind a sysfs target.
pub open spec fn device_behind(resolved: Seq<char>) -> Option<Seq<char>> {
    match interface_above(resolved) {
        Some((_, device, _)) => Some(device),
        None => None,
    }
}

/// USB device identifier, e.g. `2-4.1`, backing an AT control port, out of
/// where the tty's `device` link leads.
///
/// The join key between the two ways a module is found. A stick that answers
/// over QMI is also listed by `at_control_ports`, so without a shared identity
/// it would be reported twice.
pub fn usb_device_of_at(resolved: &str) -> (device: Option<String>)
    ensures
        opt_text(device) == device_behind(resolved@),
{
    match usb_interface_path(resolved) {
        Some(above) => Some(above.device),
        None => None,
    }
}

/// The AT control port of the module whose QMI node's `device` link leads to
/// `resolved`: the two belong together because they hang off the same USB
/// device.
pub fn at_port_for_qmi(entries: &Vec<TtyEntry>, dev_root: &str, resolved: &str) -> (port: Option<
    String,
>)
    ensures
        match device_behind(resolved@) {
            None => port is None,
            Some(usb) => {
                let own = of_device(candidates_in(tty_models(entries@), dev_root@), usb);
                match port {
                    Some(path) => {
                        &&& is_port(own, path@)
                        &&& forall|other: Seq<char>|
                            #[trigger] is_port(own, other) && other != path@ ==> path_before(
                                path@,
                                other,
                            )
                    },
                    None => forall|other: Seq<char>| !#[trigger] is_port(own, other),
                }
            },
        },
{
    match usb_device_of_at(resolved) {
        None => None,
        Some(usb) => control_port_of_device(&at_port_candidates(entries, dev_root), usb.as_str()),
    }
}

// ---------------------------------------------------------------------------
// Laws
// ---------------------------------------------------------------------------

proof fn lemma_placed(list: Seq<CandidateModel>, candidate: CandidateModel)
    requires
        sorted(list),
    ensures
        sorted(placed(list, candidate)),
        placed(list, candidate).to_multiset() == list.to_multiset().insert(candidate),
        list.len() > 0 ==> (placed(list, candidate).last() == candidate || placed(
            list,
            candidate,
        ).last() == list.last()),
        placed(list, candidate).len() == list.len() + 1,
    decreases list.len(),
{
    broadcast use vstd::seq_lib::group_to_multiset_ensures;

    if list.len() == 0 || !path_before(candidate.path, list.last().path) {
        let new = list.push(candidate);
        assert forall|i: int, j: int| 0 <= i < j < new.len() implies !path_before(
            (#[trigger] new[j]).path,
            (#[trigger] new[i]).path,
        ) by {
            if j == list.len() && i < list.len() - 1 {
                assert(!path_before(list.last().path, list[i].path));
                lemma_path_order(candidate.path, list[i].path, list.last().path);
                lemma_path_order(list.last().path, list[i].path, list[i].path);
                lemma_path_order(list[i].path, list.last().path, list[i].path);
                lemma_path_order(list.last().path, candidate.path, list[i].path);
            }
        }
    } else {
        let front = list.drop_last();
        lemma_placed(front, candidate);
        let inner = placed(front, candidate);
        let new = inner.push(list.last());
        assert(list =~= front.push(list.last()));
        assert(new.to_multiset() =~= list.to_multiset().insert(candidate));
        assert forall|i: int, j: int| 0 <= i < j < new.len() implies !path_before(
            (#[trigger] new[j]).path,
            (#[trigger] new[i]).path,
        ) by {
            if j == inner.len() {
                assert(inner.to_multiset().contains(inner[i]));
                if inner[i] == candidate {
                    lemma_path_order(candidate.path, list.last().path, candidate.path);
                } else {
                    assert(front.to_multiset().contains(inner[i]));
                    assert(front.contains(inner[i]));
                    let k = choose|k: int| 0 <= k < front.len() && front[k] == inner[i];
                    assert(list[k] == inner[i]);
                }
            }
        }
    }
}

/// Whether no candidate stands behind one whose path is behind its own.
pub open spec fn sorted(list: Seq<CandidateModel>) -> bool {
    forall|i: int, j: int|
        0 <= i < j < list.len() ==> !path_before(
            (#[trigger] list[j]).path,
            (#[trigger] list[i]).path,
        )
}

/// Candidates come sorted by path.
pub proof fn law_candidates_come_sorted(entries: Seq<TtyModel>, dev_root: Seq<char>)
    ensures
        sorted(candidates_in(entries, dev_root)),
    decreases entries.len(),
{
    if entries.len() > 0 {
        law_candidates_come_sorted(entries.drop_last(), dev_root);
        if let Some(candidate) = candidate_of(entries.last(), dev_root) {
            lemma_placed(candidates_in(entries.drop_last(), dev_root), candidate);
        }
    }
}

/// Every modem-shaped tty with a device behind it is a candidate, whatever its
/// USB composition.
pub proof fn law_no_modem_shaped_tty_disappears(
    entries: Seq<TtyModel>,
    dev_root: Seq<char>,
    i: int,
)
    requires
        0 <= i < entries.len(),
        tty_kind(entries[i].name) is Some,
        entries[i].resolved is Some,
    ensures
        candidates_in(entries, dev_root).to_multiset().contains(
            candidate_of(entries[i], dev_root)->0,
        ),
    decreases entries.len(),
{
    let before = candidates_in(entries.drop_last(), dev_root);
    law_candidates_come_sorted(entries.drop_last(), dev_root);
    if i < entries.len() - 1 {
        law_no_modem_shaped_tty_disappears(entries.drop_last(), dev_root, i);
    }
    if let Some(candidate) = candidate_of(entries.last(), dev_root) {
        lemma_placed(before, candidate);
    }
}

/// A candidate is at its own name under the root of the devices, and its
/// vendor, its product, its label and its driver are each what was read of it.
pub proof fn law_a_candidate_is_what_was_read_of_it(entry: TtyModel, dev_root: Seq<char>)
    requires
        candidate_of(entry, dev_root) is Some,
        interface_above(entry.resolved->0) is Some,
    ensures
        ({
            let candidate = candidate_of(entry, dev_root)->0;
            let (_, device, interface) = interface_above(entry.resolved->0)->0;
            &&& Some(candidate.kind) == tty_kind(entry.name)
            &&& candidate.path == below(dev_root, entry.name)
            &&& candidate.usb_device == Some(device)
            &&& candidate.interface == Some(interface)
            &&& entry.label is Some && trimmed(entry.label->0).len() > 0
                ==> candidate.interface_label == Some(trimmed(entry.label->0))
            &&& entry.vendor is Some && trimmed(entry.vendor->0).len() > 0 ==> candidate.vendor_id
                == Some(lower(trimmed(entry.vendor->0)))
            &&& entry.product is Some && trimmed(entry.product->0).len() > 0
                ==> candidate.product_id == Some(lower(trimmed(entry.product->0)))
            &&& entry.interface_driver is Some ==> candidate.driver == entry.interface_driver
            &&& entry.interface_driver is None ==> candidate.driver == entry.nearest_driver
            &&& candidate.policy == probe_policy(
                candidate.kind,
                candidate.interface,
                candidate.interface_label,
                candidate.driver,
            )
        }),
{
}

} // verus!
