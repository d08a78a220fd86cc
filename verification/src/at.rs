//! AT command channel over a modem's serial interface.
//!
//! QMI covers the structured operations of normal service. Diagnosis is a
//! different job: an operator debugging a stuck module needs to issue arbitrary
//! vendor commands and read exactly what the module answered, including the
//! vendor extensions that have no QMI equivalent at all.
//!
//! An EC20-class module exposes four serial interfaces. Interface `1.2` is the
//! AT control port and `1.3` is the modem/PPP port. Both answer `AT`, but the
//! modem port is where a data session lives, so control traffic belongs on
//! `1.2` and `1.3` is never picked on its own. Other modules use CDC ACM,
//! Qualcomm high-speed serial, a different configuration number, or a
//! vendor-labelled AT port; discovery therefore treats `1.2` as a preference,
//! not as a universal truth.

use crate::text::{
    after_prefix, all_digits, chars_of, clone_text, contains_text, decimal, digit, find,
    first_index, holds_text, is_digit, joined_by, lossy, lossy_text, lower, lowered, opt_text,
    owned, pieces, push_decimal, push_joined, same_chars, same_ignoring_case, same_text, slices,
    split, string_of, strip_prefix, texts, trim, trimmed, upper, uppered,
};
use vstd::prelude::*;

verus! {

/// Legacy Quectel USB interface preferred for an AT control port.
///
/// This remains a preference for the EC20-style layout. Newer USB
/// compositions are selected from their sysfs interface metadata instead of
/// being rejected because they are not exactly `1.2`.
pub const AT_CONTROL_INTERFACE: &'static str = "1.2";

/// USB interface of the modem/PPP port, where a data session lives. Whatever it
/// calls itself, it is for an operator to pick.
pub const MODEM_DATA_INTERFACE: &'static str = "1.3";

/// How long a command may take when nothing else is said, in milliseconds.
pub const DEFAULT_TIMEOUT: u64 = 10_000;

// ---------------------------------------------------------------------------
// Candidates
// ---------------------------------------------------------------------------

/// Serial transport exposed by a possible modem control channel.
#[derive(Clone, Copy, Debug, PartialEq, Eq, PartialOrd, Ord, Structural)]
pub enum AtPortKind {
    /// A vendor USB serial port such as Quectel `option` or Qualcomm
    /// `qcserial`.
    Usb,
    /// USB CDC ACM.
    Acm,
    /// Qualcomm high-speed serial. These can be platform-attached instead of
    /// hanging directly below a USB interface.
    HighSpeed,
}

/// Whether the agent may send its identifying AT probe to a serial candidate.
///
/// `Manual` candidates are deliberately returned to callers so an operator can
/// see a newly attached module and choose a profile for it. They are not sent
/// `AT+CGSN` by the background poller: a generic USB serial adapter can expose
/// the same kernel node names and its traffic must not be treated as modem AT
/// traffic merely because it is a tty.
#[derive(Clone, Copy, Debug, PartialEq, Eq, Structural)]
pub enum AtProbePolicy {
    Automatic,
    Manual,
}

/// A serial port that could belong to a modem.
///
/// `usb_device` is the stable sysfs topology key when the port is USB-backed.
/// It is absent for platform-attached high-speed serial, where no USB reset or
/// QMI pairing can be inferred from the tty alone.
#[derive(Clone, Debug, PartialEq, Eq)]
pub struct AtPortCandidate {
    pub path: String,
    pub kind: AtPortKind,
    pub usb_device: Option<String>,
    /// USB configuration and interface number, for example `1.2`.
    pub interface: Option<String>,
    /// USB interface string, when the firmware provides one.
    pub interface_label: Option<String>,
    /// Kernel driver bound to the USB interface or high-speed tty.
    pub driver: Option<String>,
    /// USB vendor ID from the parent device, normalized as lowercase hex.
    pub vendor_id: Option<String>,
    /// USB product ID from the parent device, normalized as lowercase hex.
    pub product_id: Option<String>,
    pub policy: AtProbePolicy,
}

/// A candidate, by what its texts say.
#[verifier::ext_equal]
pub struct CandidateModel {
    pub path: Seq<char>,
    pub kind: AtPortKind,
    pub usb_device: Option<Seq<char>>,
    pub interface: Option<Seq<char>>,
    pub interface_label: Option<Seq<char>>,
    pub driver: Option<Seq<char>>,
    pub vendor_id: Option<Seq<char>>,
    pub product_id: Option<Seq<char>>,
    pub policy: AtProbePolicy,
}

impl View for AtPortCandidate {
    type V = CandidateModel;

    open spec fn view(&self) -> CandidateModel {
        CandidateModel {
            path: self.path@,
            kind: self.kind,
            usb_device: opt_text(self.usb_device),
            interface: opt_text(self.interface),
            interface_label: opt_text(self.interface_label),
            driver: opt_text(self.driver),
            vendor_id: opt_text(self.vendor_id),
            product_id: opt_text(self.product_id),
            policy: self.policy,
        }
    }
}

/// Failures from opening or talking to an AT port.
#[allow(inconsistent_fields)]
#[derive(Clone, Debug, PartialEq, Eq)]
pub enum AtError {
    Open { path: String, reason: String },
    Io(String),
    Timeout { command: String, elapsed_ms: u64 },
    /// The module answered, but with a terminal error result code.
    Rejected { command: String, response: String },
}

/// What an error says.
#[allow(inconsistent_fields)]
pub enum AtFault {
    Open { path: Seq<char>, reason: Seq<char> },
    Io(Seq<char>),
    Timeout { command: Seq<char>, elapsed_ms: u64 },
    Rejected { command: Seq<char>, response: Seq<char> },
}

impl View for AtError {
    type V = AtFault;

    open spec fn view(&self) -> AtFault {
        match *self {
            AtError::Open { path, reason } => AtFault::Open { path: path@, reason: reason@ },
            AtError::Io(e) => AtFault::Io(e@),
            AtError::Timeout { command, elapsed_ms } => AtFault::Timeout {
                command: command@,
                elapsed_ms,
            },
            AtError::Rejected { command, response } => AtFault::Rejected {
                command: command@,
                response: response@,
            },
        }
    }
}

impl AtFault {
    /// What the error says.
    pub open spec fn text(self) -> Seq<char> {
        match self {
            AtFault::Open { path, reason } => "open "@ + path + ": "@ + reason,
            AtFault::Io(e) => e,
            AtFault::Timeout { command, elapsed_ms } => command + " did not terminate within "@
                + decimal(elapsed_ms as nat) + "ms"@,
            AtFault::Rejected { command, response } => command + " rejected: "@ + response,
        }
    }
}

impl AtError {
    pub fn push_to(&self, out: &mut String)
        ensures
            final(out)@ == old(out)@ + self@.text(),
    {
        match self {
            AtError::Open { path, reason } => {
                out.append("open ");
                out.append(path.as_str());
                out.append(": ");
                out.append(reason.as_str());
            },
            AtError::Io(e) => {
                out.append(e.as_str());
            },
            AtError::Timeout { command, elapsed_ms } => {
                out.append(command.as_str());
                out.append(" did not terminate within ");
                push_decimal(out, *elapsed_ms as u64);
                out.append("ms");
            },
            AtError::Rejected { command, response } => {
                out.append(command.as_str());
                out.append(" rejected: ");
                out.append(response.as_str());
            },
        }
        proof {
            assert(out@ =~= old(out)@ + self@.text());
        }
    }

    pub fn to_string(&self) -> (text: String)
        ensures
            text@ == self@.text(),
    {
        let mut text: String = String::new();
        self.push_to(&mut text);
        proof {
            assert(text@ =~= self@.text());
        }
        text
    }
}

/// The models of candidates.
pub open spec fn candidate_models(list: Seq<AtPortCandidate>) -> Seq<CandidateModel> {
    list.map_values(|candidate: AtPortCandidate| candidate@)
}

/// Whether a name is a prefix and a number.
pub open spec fn is_numbered(name: Seq<char>, prefix: Seq<char>) -> bool {
    match after_prefix(name, prefix) {
        Some(number) => number.len() > 0 && all_digits(number),
        None => false,
    }
}

fn only_digits(s: &[char]) -> (yes: bool)
    ensures
        yes == all_digits(s@),
{
    let mut i: usize = 0;
    while i < s.len()
        invariant
            i <= s@.len(),
            forall|j: int| 0 <= j < i ==> is_digit(#[trigger] s@[j]),
        decreases s@.len() - i,
    {
        if !digit(s[i]) {
            proof {
                assert(!is_digit(s@[i as int]));
            }
            return false;
        }
        i = i + 1;
    }
    true
}

fn numbered_tty(name: &str, prefix: &str) -> (yes: bool)
    ensures
        yes == is_numbered(name@, prefix@),
{
    let chars: Vec<char> = chars_of(name);
    match strip_prefix(&chars, prefix) {
        None => false,
        Some(number) => number.len() > 0 && only_digits(number),
    }
}

/// The transport that a tty name stands for.
pub open spec fn tty_kind(name: Seq<char>) -> Option<AtPortKind> {
    if is_numbered(name, "ttyUSB"@) {
        Some(AtPortKind::Usb)
    } else if is_numbered(name, "ttyACM"@) {
        Some(AtPortKind::Acm)
    } else if is_numbered(name, "ttyHS"@) {
        Some(AtPortKind::HighSpeed)
    } else {
        None
    }
}

impl AtPortKind {
    /// The transport that a tty name stands for.
    pub fn from_tty_name(name: &str) -> (kind: Option<Self>)
        ensures
            kind == tty_kind(name@),
    {
        if numbered_tty(name, "ttyUSB") {
            Some(AtPortKind::Usb)
        } else if numbered_tty(name, "ttyACM") {
            Some(AtPortKind::Acm)
        } else if numbered_tty(name, "ttyHS") {
            Some(AtPortKind::HighSpeed)
        } else {
            None
        }
    }
}

/// Whether an interface has the number 2 in its configuration.
pub open spec fn control_interface(interface: Option<Seq<char>>) -> bool {
    match interface {
        Some(text) => pieces(text, '.').len() > 1 && pieces(text, '.').last() == "2"@,
        None => false,
    }
}

fn is_control_interface(interface: &Option<String>) -> (yes: bool)
    ensures
        yes == control_interface(opt_text(*interface)),
{
    match interface {
        None => false,
        Some(text) => {
            let chars: Vec<char> = chars_of(text.as_str());
            let parts: Vec<&[char]> = split(&chars, '.');
            let two: Vec<char> = chars_of("2");
            proof {
                assert(slices(parts@)[parts@.len() - 1] == parts@[parts@.len() - 1]@);
            }
            parts.len() > 1 && same_chars(parts[parts.len() - 1], &two)
        },
    }
}

/// Whether an interface says of itself that it takes AT commands.
pub open spec fn explicit_label(label: Option<Seq<char>>) -> bool {
    match label {
        None => false,
        Some(text) => {
            let name = upper(trimmed(text));
            ||| name == "AT"@
            ||| holds_text(name, "AT PORT"@)
            ||| holds_text(name, "AT COMMAND"@)
            ||| holds_text(name, "MODEM"@)
        },
    }
}

fn is_explicit_at_label(label: &Option<String>) -> (yes: bool)
    ensures
        yes == explicit_label(opt_text(*label)),
{
    match label {
        None => false,
        Some(text) => {
            let chars: Vec<char> = chars_of(text.as_str());
            let name: String = uppered(string_of(trim(&chars)).as_str());
            let upper_name: Vec<char> = chars_of(name.as_str());
            same_text(name.as_str(), "AT") || contains_text(&upper_name, "AT PORT")
                || contains_text(&upper_name, "AT COMMAND") || contains_text(&upper_name, "MODEM")
        },
    }
}

/// Whether a driver is one of a modem's serial ports.
pub open spec fn modem_driver(driver: Option<Seq<char>>) -> bool {
    match driver {
        None => false,
        Some(text) => {
            let name = lower(text);
            ||| name == "option"@
            ||| name == "option1"@
            ||| name == "qcserial"@
            ||| name == "qcaux"@
            ||| name == "sierra"@
            ||| name == "hso"@
            ||| name == "usb_wwan"@
        },
    }
}

fn is_modem_serial_driver(driver: &Option<String>) -> (yes: bool)
    ensures
        yes == modem_driver(opt_text(*driver)),
{
    match driver {
        None => false,
        Some(text) => {
            let name: String = string_of(&lowered(text.as_str()));
            same_text(name.as_str(), "option") || same_text(name.as_str(), "option1") || same_text(
                name.as_str(),
                "qcserial",
            ) || same_text(name.as_str(), "qcaux") || same_text(name.as_str(), "sierra")
                || same_text(name.as_str(), "hso") || same_text(name.as_str(), "usb_wwan")
        },
    }
}

/// Whether a driver is one of a modem's high-speed serial ports.
pub open spec fn high_speed_driver(driver: Option<Seq<char>>) -> bool {
    match driver {
        None => false,
        Some(text) => {
            let name = lower(text);
            ||| name == "msm_serial_hs"@
            ||| name == "msm_serial_hsl"@
            ||| name == "hsuart"@
        },
    }
}

fn is_high_speed_modem_driver(driver: &Option<String>) -> (yes: bool)
    ensures
        yes == high_speed_driver(opt_text(*driver)),
{
    match driver {
        None => false,
        Some(text) => {
            let name: String = string_of(&lowered(text.as_str()));
            same_text(name.as_str(), "msm_serial_hs") || same_text(name.as_str(), "msm_serial_hsl")
                || same_text(name.as_str(), "hsuart")
        },
    }
}

/// Whether there is enough evidence for an automatic probe.
///
/// A vendor serial driver plus interface ordinal 2 survives a configuration
/// number change but still avoids probing every sibling serial endpoint. CDC
/// ACM is also used by development boards and instruments, so its firmware must
/// call the interface an AT/modem port. `ttyHS` is a Qualcomm modem-specific
/// name only when the backing high-speed driver confirms it. The interface of the
/// modem/PPP port is never probed on its own, however it is labelled.
pub open spec fn probe_policy(
    kind: AtPortKind,
    interface: Option<Seq<char>>,
    label: Option<Seq<char>>,
    driver: Option<Seq<char>>,
) -> AtProbePolicy {
    let automatic = interface != Some(MODEM_DATA_INTERFACE@) && match kind {
        AtPortKind::Usb => explicit_label(label) || (control_interface(interface) && modem_driver(
            driver,
        )),
        AtPortKind::Acm => explicit_label(label),
        AtPortKind::HighSpeed => explicit_label(label) || high_speed_driver(driver),
    };
    if automatic {
        AtProbePolicy::Automatic
    } else {
        AtProbePolicy::Manual
    }
}

fn automatic_probe_policy(
    kind: AtPortKind,
    interface: &Option<String>,
    label: &Option<String>,
    driver: &Option<String>,
) -> (policy: AtProbePolicy)
    ensures
        policy == probe_policy(kind, opt_text(*interface), opt_text(*label), opt_text(*driver)),
{
    let explicit: bool = is_explicit_at_label(label);
    let automatic: bool = !is_text(interface, MODEM_DATA_INTERFACE) && match kind {
        AtPortKind::Usb => explicit || (is_control_interface(interface) && is_modem_serial_driver(
            driver,
        )),
        AtPortKind::Acm => explicit,
        AtPortKind::HighSpeed => explicit || is_high_speed_modem_driver(driver),
    };
    if automatic {
        AtProbePolicy::Automatic
    } else {
        AtProbePolicy::Manual
    }
}

/// A candidate, out of what sysfs says of it.
pub fn candidate_from_parts(
    path: String,
    kind: AtPortKind,
    usb_device: Option<String>,
    interface: Option<String>,
    interface_label: Option<String>,
    driver: Option<String>,
    vendor_id: Option<String>,
    product_id: Option<String>,
) -> (candidate: AtPortCandidate)
    ensures
        candidate@ == (CandidateModel {
            path: path@,
            kind,
            usb_device: opt_text(usb_device),
            interface: opt_text(interface),
            interface_label: opt_text(interface_label),
            driver: opt_text(driver),
            vendor_id: opt_text(vendor_id),
            product_id: opt_text(product_id),
            policy: probe_policy(
                kind,
                opt_text(interface),
                opt_text(interface_label),
                opt_text(driver),
            ),
        }),
{
    let policy: AtProbePolicy = automatic_probe_policy(
        kind,
        &interface,
        &interface_label,
        &driver,
    );
    AtPortCandidate {
        path,
        kind,
        usb_device,
        interface,
        interface_label,
        driver,
        vendor_id,
        product_id,
        policy,
    }
}

// ---------------------------------------------------------------------------
// Choosing a control port
// ---------------------------------------------------------------------------

/// How good a control port a candidate is; less is better. Based on sysfs
/// meaning rather than tty number: tty numbers are recycled every time a USB
/// serial driver rebinds.
pub open spec fn rank_of(candidate: CandidateModel) -> u8 {
    if explicit_label(candidate.interface_label) {
        0
    } else if candidate.interface == Some(AT_CONTROL_INTERFACE@) {
        1
    } else if control_interface(candidate.interface) {
        2
    } else {
        match candidate.kind {
            AtPortKind::HighSpeed => 3,
            AtPortKind::Acm => 4,
            AtPortKind::Usb => 5,
        }
    }
}

fn is_text(text: &Option<String>, wanted: &str) -> (yes: bool)
    ensures
        yes == (opt_text(*text) == Some(wanted@)),
{
    match text {
        Some(t) => same_text(t.as_str(), wanted),
        None => false,
    }
}

fn control_rank(candidate: &AtPortCandidate) -> (rank: u8)
    ensures
        rank == rank_of(candidate@),
{
    if is_explicit_at_label(&candidate.interface_label) {
        0
    } else if is_text(&candidate.interface, AT_CONTROL_INTERFACE) {
        1
    } else if is_control_interface(&candidate.interface) {
        2
    } else {
        match candidate.kind {
            AtPortKind::HighSpeed => 3,
            AtPortKind::Acm => 4,
            AtPortKind::Usb => 5,
        }
    }
}

/// Whether one candidate of a USB device goes before another: by rank, and by
/// place where the ranks are equal.
pub open spec fn beats(list: Seq<CandidateModel>, i: int, j: int) -> bool {
    rank_of(list[i]) < rank_of(list[j]) || (rank_of(list[i]) == rank_of(list[j]) && i <= j)
}

/// Whether a candidate is a control port: one that may be probed, and the best
/// one of its USB device where it has one.
pub open spec fn is_chosen(list: Seq<CandidateModel>, i: int) -> bool {
    &&& list[i].policy == AtProbePolicy::Automatic
    &&& list[i].usb_device is Some ==> forall|j: int|
        0 <= j < list.len() && (#[trigger] list[j]).policy == AtProbePolicy::Automatic
            && list[j].usb_device == list[i].usb_device ==> beats(list, i, j)
}

/// Whether a path is that of a control port.
pub open spec fn is_port(list: Seq<CandidateModel>, path: Seq<char>) -> bool {
    exists|i: int| 0 <= i < list.len() && is_chosen(list, i) && (#[trigger] list[i]).path == path
}

fn same_device(left: &Option<String>, right: &Option<String>) -> (same: bool)
    ensures
        same == (opt_text(*left) == opt_text(*right)),
{
    match left {
        None => right.is_none(),
        Some(l) => match right {
            None => false,
            Some(r) => same_text(l.as_str(), r.as_str()),
        },
    }
}

fn is_control_port(candidates: &Vec<AtPortCandidate>, index: usize) -> (yes: bool)
    requires
        index < candidates@.len(),
    ensures
        yes == is_chosen(candidate_models(candidates@), index as int),
{
    let ghost list = candidate_models(candidates@);
    let candidate: &AtPortCandidate = &candidates[index];
    proof {
        assert(list[index as int] == candidate@);
    }
    if candidate.policy != AtProbePolicy::Automatic {
        return false;
    }
    if candidate.usb_device.is_none() {
        return true;
    }
    let rank: u8 = control_rank(candidate);
    let mut j: usize = 0;
    while j < candidates.len()
        invariant
            j <= candidates@.len(),
            index < candidates@.len(),
            list == candidate_models(candidates@),
            candidate == candidates@[index as int],
            candidate@ == list[index as int],
            candidate.usb_device is Some,
            candidate.policy == AtProbePolicy::Automatic,
            rank == rank_of(candidate@),
            forall|k: int|
                0 <= k < j && (#[trigger] list[k]).policy == AtProbePolicy::Automatic
                    && list[k].usb_device == list[index as int].usb_device ==> beats(
                    list,
                    index as int,
                    k,
                ),
        decreases candidates@.len() - j,
    {
        let other: &AtPortCandidate = &candidates[j];
        proof {
            assert(list[j as int] == other@);
        }
        if other.policy == AtProbePolicy::Automatic && same_device(
            &other.usb_device,
            &candidate.usb_device,
        ) {
            let theirs: u8 = control_rank(other);
            if theirs < rank || (theirs == rank && j < index) {
                proof {
                    assert(!beats(list, index as int, j as int));
                }
                return false;
            }
        }
        j = j + 1;
    }
    true
}

/// Whether one text stands before another: by the first character in which
/// they differ, and the shorter first where they do not.
pub open spec fn text_before(left: Seq<char>, right: Seq<char>) -> bool
    decreases left.len(),
{
    if right.len() == 0 {
        false
    } else if left.len() == 0 {
        true
    } else if left[0] != right[0] {
        left[0] < right[0]
    } else {
        text_before(left.skip(1), right.skip(1))
    }
}

/// Whether one path stands before another: by the first component in which
/// they differ, and the shorter first where they do not.
pub open spec fn parts_before(left: Seq<Seq<char>>, right: Seq<Seq<char>>) -> bool
    decreases left.len(),
{
    if right.len() == 0 {
        false
    } else if left.len() == 0 {
        true
    } else if left[0] != right[0] {
        text_before(left[0], right[0])
    } else {
        parts_before(left.skip(1), right.skip(1))
    }
}

/// Whether one path stands before another in the order of paths.
pub open spec fn path_before(left: Seq<char>, right: Seq<char>) -> bool {
    parts_before(pieces(left, '/'), pieces(right, '/'))
}

pub fn chars_before(left: &[char], right: &[char]) -> (yes: bool)
    ensures
        yes == text_before(left@, right@),
{
    let mut i: usize = 0;
    proof {
        assert(left@.skip(0) =~= left@);
        assert(right@.skip(0) =~= right@);
    }
    loop
        invariant
            i <= left@.len(),
            i <= right@.len(),
            text_before(left@.skip(i as int), right@.skip(i as int)) == text_before(left@, right@),
        decreases left@.len() - i,
    {
        if i >= right.len() {
            return false;
        }
        if i >= left.len() {
            return true;
        }
        if left[i] != right[i] {
            return left[i] < right[i];
        }
        proof {
            assert(left@.skip(i as int).skip(1) =~= left@.skip(i + 1));
            assert(right@.skip(i as int).skip(1) =~= right@.skip(i + 1));
        }
        i = i + 1;
    }
}

pub fn goes_before(left: &str, right: &str) -> (yes: bool)
    ensures
        yes == path_before(left@, right@),
{
    let left_chars: Vec<char> = chars_of(left);
    let right_chars: Vec<char> = chars_of(right);
    let l: Vec<&[char]> = split(&left_chars, '/');
    let r: Vec<&[char]> = split(&right_chars, '/');
    let ghost ls = slices(l@);
    let ghost rs = slices(r@);
    let mut i: usize = 0;
    proof {
        assert(ls.skip(0) =~= ls);
        assert(rs.skip(0) =~= rs);
    }
    loop
        invariant
            i <= l@.len(),
            i <= r@.len(),
            ls == slices(l@),
            rs == slices(r@),
            parts_before(ls.skip(i as int), rs.skip(i as int)) == parts_before(ls, rs),
            path_before(left@, right@) == parts_before(ls, rs),
        decreases l@.len() - i,
    {
        if i >= r.len() {
            return false;
        }
        if i >= l.len() {
            return true;
        }
        proof {
            assert(ls.skip(i as int)[0] == l@[i as int]@);
            assert(rs.skip(i as int)[0] == r@[i as int]@);
            assert(ls.skip(i as int).skip(1) =~= ls.skip(i + 1));
            assert(rs.skip(i as int).skip(1) =~= rs.skip(i + 1));
        }
        if !same_chars(l[i], r[i]) {
            return chars_before(l[i], r[i]);
        }
        i = i + 1;
    }
}

pub proof fn lemma_text_order(a: Seq<char>, b: Seq<char>, c: Seq<char>)
    ensures
        !text_before(a, a),
        text_before(a, b) && text_before(b, c) ==> text_before(a, c),
        a != b ==> text_before(a, b) || text_before(b, a),
    decreases a.len() + b.len() + c.len(),
{
    if a.len() > 0 && b.len() > 0 && c.len() > 0 {
        lemma_text_order(a.skip(1), b.skip(1), c.skip(1));
        if a[0] == b[0] && a.skip(1) == b.skip(1) {
            assert(a =~= seq![a[0]] + a.skip(1));
            assert(b =~= seq![b[0]] + b.skip(1));
        }
    } else if a.len() > 0 && b.len() > 0 {
        lemma_text_order(a.skip(1), b.skip(1), c);
        if a[0] == b[0] && a.skip(1) == b.skip(1) {
            assert(a =~= seq![a[0]] + a.skip(1));
            assert(b =~= seq![b[0]] + b.skip(1));
        }
    } else if a.len() > 0 {
        lemma_text_order(a.skip(1), b, c);
    } else {
        if b.len() == 0 {
            assert(a =~= b);
        }
    }
}

proof fn lemma_parts_order(a: Seq<Seq<char>>, b: Seq<Seq<char>>, c: Seq<Seq<char>>)
    ensures
        !parts_before(a, a),
        parts_before(a, b) && parts_before(b, c) ==> parts_before(a, c),
        a != b ==> parts_before(a, b) || parts_before(b, a),
    decreases a.len() + b.len() + c.len(),
{
    if a.len() > 0 && b.len() > 0 && c.len() > 0 {
        lemma_text_order(a[0], b[0], c[0]);
        lemma_text_order(b[0], a[0], c[0]);
        lemma_text_order(a[0], c[0], b[0]);
        lemma_parts_order(a.skip(1), b.skip(1), c.skip(1));
        if a[0] == b[0] && a.skip(1) == b.skip(1) {
            assert(a =~= seq![a[0]] + a.skip(1));
            assert(b =~= seq![b[0]] + b.skip(1));
        }
        if a[0] == c[0] && a[0] != b[0] {
            lemma_text_order(a[0], b[0], a[0]);
        }
    } else if a.len() > 0 && b.len() > 0 {
        lemma_text_order(a[0], b[0], a[0]);
        lemma_parts_order(a.skip(1), b.skip(1), c);
        if a[0] == b[0] && a.skip(1) == b.skip(1) {
            assert(a =~= seq![a[0]] + a.skip(1));
            assert(b =~= seq![b[0]] + b.skip(1));
        }
    } else if a.len() > 0 {
        lemma_parts_order(a.skip(1), b, c);
    } else {
        if b.len() == 0 {
            assert(a =~= b);
        }
    }
}

/// Whether paths stand in order, no path twice.
pub open spec fn in_order(paths: Seq<Seq<char>>) -> bool {
    forall|i: int, j: int|
        0 <= i < j < paths.len() ==> path_before(#[trigger] paths[i], #[trigger] paths[j])
}

proof fn lemma_joined_pieces(s: Seq<char>, c: char)
    ensures
        pieces(s, c).len() > 0,
        joined_by(pieces(s, c), seq![c]) == s,
    decreases s.len(),
{
    let n = first_index(s, c);
    crate::text::lemma_first_index(s, c);
    if n < s.len() {
        let rest = s.skip(n + 1);
        lemma_joined_pieces(rest, c);
        lemma_join_front(s.take(n), pieces(rest, c), seq![c]);
        assert(s =~= s.take(n) + seq![c] + rest);
    }
}

proof fn lemma_join_front(first: Seq<char>, rest: Seq<Seq<char>>, separator: Seq<char>)
    requires
        rest.len() > 0,
    ensures
        joined_by(seq![first] + rest, separator) == first + separator + joined_by(rest, separator),
    decreases rest.len(),
{
    let all = seq![first] + rest;
    assert(all.last() == rest.last());
    if rest.len() == 1 {
        assert(all.drop_last() =~= seq![first]);
        assert(joined_by(seq![first], separator) == first);
        assert(joined_by(all, separator) == first + separator + rest[0]);
    } else {
        assert(all.drop_last() =~= seq![first] + rest.drop_last());
        lemma_join_front(first, rest.drop_last(), separator);
        assert(joined_by(all, separator) =~= first + separator + joined_by(rest, separator));
    }
}

pub proof fn lemma_path_order(a: Seq<char>, b: Seq<char>, c: Seq<char>)
    ensures
        !path_before(a, a),
        path_before(a, b) && path_before(b, c) ==> path_before(a, c),
        a != b ==> path_before(a, b) || path_before(b, a),
{
    lemma_parts_order(pieces(a, '/'), pieces(b, '/'), pieces(c, '/'));
    lemma_joined_pieces(a, '/');
    lemma_joined_pieces(b, '/');
}

fn insert_path(paths: &mut Vec<String>, path: &str)
    requires
        in_order(texts(old(paths)@)),
    ensures
        in_order(texts(final(paths)@)),
        forall|p: Seq<char>|
            texts(final(paths)@).contains(p) <==> (p == path@ || texts(old(paths)@).contains(p)),
{
    let ghost all = texts(paths@);
    let mut i: usize = 0;
    while i < paths.len() && goes_before(paths[i].as_str(), path)
        invariant
            i <= paths@.len(),
            all == texts(paths@),
            paths@ == old(paths)@,
            forall|j: int| 0 <= j < i ==> path_before(#[trigger] all[j], path@),
        decreases paths@.len() - i,
    {
        proof {
            assert(all[i as int] == paths@[i as int]@);
        }
        i = i + 1;
    }
    if i < paths.len() && same_text(paths[i].as_str(), path) {
        proof {
            assert(all[i as int] == path@);
            assert(all.contains(path@));
        }
        return;
    }
    paths.insert(i, owned(path));
    proof {
        let new = texts(paths@);
        assert(new =~= all.insert(i as int, path@));
        if i < all.len() {
            assert(all[i as int] == old(paths)@[i as int]@);
            lemma_path_order(all[i as int], path@, path@);
        }
        assert forall|a: int, b: int| 0 <= a < b < new.len() implies path_before(
            #[trigger] new[a],
            #[trigger] new[b],
        ) by {
            if a < i && b == i {
                assert(new[a] == all[a]);
            } else if a == i {
                assert(new[b] == all[b - 1]);
                if b - 1 > i {
                    lemma_path_order(path@, all[i as int], all[b - 1]);
                }
            } else {
                let x = if a < i {
                    a
                } else {
                    a - 1
                };
                let y = if b < i {
                    b
                } else {
                    b - 1
                };
                assert(new[a] == all[x] && new[b] == all[y]);
            }
        }
        assert forall|p: Seq<char>|
            new.contains(p) <==> (p == path@ || all.contains(p)) by {
            if all.contains(p) {
                let k = choose|k: int| 0 <= k < all.len() && all[k] == p;
                if k < i {
                    assert(new[k] == p);
                } else {
                    assert(new[k + 1] == p);
                }
            }
            if p == path@ {
                assert(new[i as int] == p);
            }
            if new.contains(p) && p != path@ {
                let k = choose|k: int| 0 <= k < new.len() && new[k] == p;
                if k < i {
                    assert(all[k] == p);
                } else {
                    assert(all[k - 1] == p);
                }
            }
        }
    }
}

/// Select exactly one automatic control port per USB device, and every
/// automatic one that has none. The paths come in order, no path twice.
pub fn select_control_ports(candidates: &Vec<AtPortCandidate>) -> (ports: Vec<String>)
    ensures
        in_order(texts(ports@)),
        forall|path: Seq<char>|
            texts(ports@).contains(path) <==> is_port(candidate_models(candidates@), path),
{
    let ghost list = candidate_models(candidates@);
    let mut ports: Vec<String> = Vec::new();
    let mut i: usize = 0;
    while i < candidates.len()
        invariant
            i <= candidates@.len(),
            list == candidate_models(candidates@),
            in_order(texts(ports@)),
            forall|path: Seq<char>|
                texts(ports@).contains(path) <==> (exists|k: int|
                    0 <= k < i && is_chosen(list, k) && (#[trigger] list[k]).path == path),
        decreases candidates@.len() - i,
    {
        proof {
            assert(list[i as int] == candidates@[i as int]@);
        }
        let ghost before = texts(ports@);
        if is_control_port(candidates, i) {
            insert_path(&mut ports, candidates[i].path.as_str());
        }
        proof {
            assert forall|path: Seq<char>|
                texts(ports@).contains(path) <==> (exists|k: int|
                    0 <= k < i + 1 && is_chosen(list, k) && (#[trigger] list[k]).path
                        == path) by {
                if before.contains(path) {
                    let k = choose|k: int|
                        0 <= k < i && is_chosen(list, k) && (#[trigger] list[k]).path == path;
                    assert(0 <= k < i + 1 && is_chosen(list, k) && list[k].path == path);
                }
                if is_chosen(list, i as int) && path == list[i as int].path {
                    assert(texts(ports@).contains(path));
                }
            }
        }
        i = i + 1;
    }
    ports
}

/// The candidates of one USB device.
pub open spec fn of_device(list: Seq<CandidateModel>, usb: Seq<char>) -> Seq<CandidateModel> {
    list.filter(|candidate: CandidateModel| candidate.usb_device == Some(usb))
}

fn copy_candidate(candidate: &AtPortCandidate) -> (copy: AtPortCandidate)
    ensures
        copy@ == candidate@,
{
    AtPortCandidate {
        path: owned(candidate.path.as_str()),
        kind: candidate.kind,
        usb_device: clone_text(&candidate.usb_device),
        interface: clone_text(&candidate.interface),
        interface_label: clone_text(&candidate.interface_label),
        driver: clone_text(&candidate.driver),
        vendor_id: clone_text(&candidate.vendor_id),
        product_id: clone_text(&candidate.product_id),
        policy: candidate.policy,
    }
}

/// The control port of one USB device: `/dev/ttyUSB2` only belongs to the same
/// module as `/dev/cdc-wdm0` because they hang off the same USB device.
pub fn control_port_of_device(candidates: &Vec<AtPortCandidate>, usb: &str) -> (port: Option<
    String,
>)
    ensures
        ({
            let own = of_device(candidate_models(candidates@), usb@);
            match port {
                Some(path) => {
                    &&& is_port(own, path@)
                    &&& forall|other: Seq<char>|
                        #[trigger] is_port(own, other) && other != path@ ==> path_before(
                            path@,
                            other,
                        )
                },
                None => forall|other: Seq<char>| !#[trigger] is_port(own, other),
            }
        }),
{
    let ghost list = candidate_models(candidates@);
    let ghost keep = |candidate: CandidateModel| candidate.usb_device == Some(usb@);
    let mut own: Vec<AtPortCandidate> = Vec::new();
    let mut i: usize = 0;
    proof {
        assert(list.take(0) =~= Seq::empty());
        reveal(Seq::filter);
        assert(candidate_models(own@) =~= list.take(0).filter(keep));
    }
    while i < candidates.len()
        invariant
            i <= candidates@.len(),
            list == candidate_models(candidates@),
            keep == |candidate: CandidateModel| candidate.usb_device == Some(usb@),
            candidate_models(own@) == list.take(i as int).filter(keep),
        decreases candidates@.len() - i,
    {
        let ghost before = candidate_models(own@);
        proof {
            reveal(Seq::filter);
            assert(list.take(i + 1).drop_last() =~= list.take(i as int));
            assert(list.take(i + 1).last() == candidates@[i as int]@);
        }
        if is_text(&candidates[i].usb_device, usb) {
            let copy: AtPortCandidate = copy_candidate(&candidates[i]);
            let ghost shown = copy@;
            own.push(copy);
            proof {
                assert(candidate_models(own@) =~= before.push(shown));
            }
        }
        i = i + 1;
    }
    proof {
        assert(list.take(i as int) =~= list);
    }
    let ports: Vec<String> = select_control_ports(&own);
    let ghost found = texts(ports@);
    if ports.len() == 0 {
        proof {
            assert forall|other: Seq<char>| !#[trigger] is_port(
                of_device(list, usb@),
                other,
            ) by {
                assert(!found.contains(other));
            }
        }
        return None;
    }
    proof {
        assert(found[0] == ports@[0]@);
        assert(found.contains(found[0]));
        assert forall|other: Seq<char>| #[trigger] is_port(of_device(list, usb@), other) && other
            != found[0] implies path_before(found[0], other) by {
            assert(found.contains(other));
            let k = choose|k: int| 0 <= k < found.len() && found[k] == other;
            assert(path_before(found[0], found[k]));
        }
    }
    Some(owned(ports[0].as_str()))
}

// ---------------------------------------------------------------------------
// USB topology in a sysfs path
// ---------------------------------------------------------------------------

/// The device and the interface that a name of the exact form
/// `<usb-device>:<configuration>.<interface>` names.
pub open spec fn interface_parts(name: Seq<char>) -> Option<(Seq<char>, Seq<char>)> {
    let colon = first_index(name, ':');
    if colon >= name.len() {
        None
    } else {
        let device = name.take(colon);
        let interface = name.skip(colon + 1);
        let dot = first_index(interface, '.');
        if dot >= interface.len() {
            None
        } else {
            let configuration = interface.take(dot);
            let number = interface.skip(dot + 1);
            if device.len() == 0 || configuration.len() == 0 || number.len() == 0 || !all_digits(
                configuration,
            ) || !all_digits(number) {
                None
            } else {
                Some((device, interface))
            }
        }
    }
}

fn split_interface<'a>(name: &'a [char]) -> (parts: Option<(&'a [char], &'a [char])>)
    ensures
        match parts {
            Some((device, interface)) => interface_parts(name@) == Some((device@, interface@)),
            None => interface_parts(name@) is None,
        },
{
    let total: usize = name.len();
    let colon: usize = find(name, ':');
    if colon >= total {
        return None;
    }
    let device: &'a [char] = &name[0..colon];
    let interface: &'a [char] = &name[colon + 1..total];
    proof {
        assert(device@ =~= name@.take(colon as int));
        assert(interface@ =~= name@.skip(colon + 1));
    }
    let width: usize = interface.len();
    let dot: usize = find(interface, '.');
    if dot >= width {
        return None;
    }
    let configuration: &[char] = &interface[0..dot];
    let number: &[char] = &interface[dot + 1..width];
    proof {
        assert(configuration@ =~= interface@.take(dot as int));
        assert(number@ =~= interface@.skip(dot + 1));
    }
    if device.len() == 0 || configuration.len() == 0 || number.len() == 0 || !only_digits(
        configuration,
    ) || !only_digits(number) {
        return None;
    }
    Some((device, interface))
}

/// The device and the interface that a USB interface's name names.
///
/// A broad split at the first colon is not enough here: PCI and platform path
/// components contain colons too. A USB interface has the exact
/// `<usb-device>:<configuration>.<interface>` suffix, both numeric.
pub fn usb_interface_parts(name: &str) -> (parts: Option<(String, String)>)
    ensures
        match parts {
            Some((device, interface)) => interface_parts(name@) == Some((device@, interface@)),
            None => interface_parts(name@) is None,
        },
{
    let chars: Vec<char> = chars_of(name);
    match split_interface(&chars) {
        Some((device, interface)) => Some((string_of(device), string_of(interface))),
        None => None,
    }
}

/// How many components of a path lead down to its last USB interface; none
/// where it has no such component.
pub open spec fn interface_depth(parts: Seq<Seq<char>>) -> nat
    decreases parts.len(),
{
    if parts.len() == 0 {
        0
    } else if interface_parts(parts.last()) is Some {
        parts.len()
    } else {
        interface_depth(parts.drop_last())
    }
}

/// The USB interface above a device in sysfs: its path, the device and the
/// interface.
pub open spec fn interface_above(path: Seq<char>) -> Option<(Seq<char>, Seq<char>, Seq<char>)> {
    let parts = pieces(path, '/');
    let depth = interface_depth(parts);
    if depth == 0 {
        None
    } else {
        let own = parts.take(depth as int);
        let (device, interface) = interface_parts(own.last())->0;
        Some((joined_by(own, "/"@), device, interface))
    }
}

/// What sysfs says of a tty's USB interface.
#[derive(Clone, Debug, PartialEq, Eq)]
pub struct UsbInterface {
    pub path: String,
    pub device: String,
    pub interface: String,
}

/// Find the USB interface ancestor of a tty sysfs target.
pub fn usb_interface_path(resolved: &str) -> (found: Option<UsbInterface>)
    ensures
        match found {
            Some(usb) => interface_above(resolved@) == Some(
                (usb.path@, usb.device@, usb.interface@),
            ),
            None => interface_above(resolved@) is None,
        },
{
    let chars: Vec<char> = chars_of(resolved);
    let parts: Vec<&[char]> = split(&chars, '/');
    let ghost all = slices(parts@);
    let mut depth: usize = parts.len();
    proof {
        assert(all.take(depth as int) =~= all);
    }
    while depth > 0
        invariant
            depth <= parts@.len(),
            all == slices(parts@),
            all == pieces(resolved@, '/'),
            interface_depth(all.take(depth as int)) == interface_depth(all),
        decreases depth,
    {
        proof {
            assert(all.take(depth as int).last() == parts@[depth - 1]@);
            assert(all.take(depth as int).drop_last() =~= all.take(depth - 1));
        }
        if let Some((device, interface)) = split_interface(parts[depth - 1]) {
            let mut own: Vec<String> = Vec::new();
            let mut i: usize = 0;
            while i < depth
                invariant
                    i <= depth,
                    depth <= parts@.len(),
                    own@.len() == i,
                    forall|j: int| 0 <= j < i ==> (#[trigger] own@[j])@ == parts@[j]@,
                decreases depth - i,
            {
                own.push(string_of(parts[i]));
                i = i + 1;
            }
            let mut path: String = String::new();
            push_joined(&mut path, &own, "/");
            proof {
                assert(texts(own@) =~= all.take(depth as int));
                assert(path@ =~= joined_by(all.take(depth as int), "/"@));
            }
            return Some(
                UsbInterface { path, device: string_of(device), interface: string_of(interface) },
            );
        }
        depth = depth - 1;
    }
    None
}

// ---------------------------------------------------------------------------
// Exchanges
// ---------------------------------------------------------------------------

/// One AT command and everything the module said in reply.
#[derive(Clone, Debug, PartialEq, Eq)]
pub struct AtExchange {
    pub command: String,
    /// Response lines with the echoed command and the final result code
    /// removed, in the order the module produced them.
    pub lines: Vec<String>,
    /// The terminal result code, e.g. `OK` or `+CME ERROR: 10`.
    pub terminator: String,
    pub elapsed_ms: u64,
}

/// An exchange, by what its texts say.
#[verifier::ext_equal]
pub struct ExchangeModel {
    pub command: Seq<char>,
    pub lines: Seq<Seq<char>>,
    pub terminator: Seq<char>,
    pub elapsed_ms: u64,
}

impl View for AtExchange {
    type V = ExchangeModel;

    open spec fn view(&self) -> ExchangeModel {
        ExchangeModel {
            command: self.command@,
            lines: texts(self.lines@),
            terminator: self.terminator@,
            elapsed_ms: self.elapsed_ms,
        }
    }
}

/// Whether a result code is that of success.
pub open spec fn ended_ok(terminator: Seq<char>) -> bool {
    terminator == "OK"@
}

/// The call-progress code that a result code is, if it is one.
pub open spec fn progress_of(terminator: Seq<char>) -> Option<&'static str> {
    if terminator == "NO CARRIER"@ {
        Some("NO CARRIER")
    } else if terminator == "BUSY"@ {
        Some("BUSY")
    } else if terminator == "NO ANSWER"@ {
        Some("NO ANSWER")
    } else if terminator == "NO DIALTONE"@ {
        Some("NO DIALTONE")
    } else {
        None
    }
}

/// The call-progress code that a line is, if it is one.
///
/// These are terminators, not status lines: a module that answers `BUSY` says
/// nothing more, so a reader that does not know the word waits out the entire
/// port timeout and then reports the command as hung.
///
/// `RING`, `RDY`, `SMS Ready`, `Call Ready` and `NORMAL POWER DOWN` are
/// deliberately absent. Those are unsolicited, and a call arriving while an
/// unrelated command is in flight must not cut that command's answer short.
fn call_progress_code(line: &str) -> (code: Option<&'static str>)
    ensures
        code == progress_of(line@),
{
    if same_text(line, "NO CARRIER") {
        Some("NO CARRIER")
    } else if same_text(line, "BUSY") {
        Some("BUSY")
    } else if same_text(line, "NO ANSWER") {
        Some("NO ANSWER")
    } else if same_text(line, "NO DIALTONE") {
        Some("NO DIALTONE")
    } else {
        None
    }
}

impl ExchangeModel {
    /// Full text as it appeared on the wire.
    pub open spec fn whole(self) -> Seq<char> {
        let body = joined_by(self.lines, "\n"@);
        if body.len() == 0 {
            self.terminator
        } else {
            body + "\n"@ + self.terminator
        }
    }
}

impl AtExchange {
    pub fn succeeded(&self) -> (yes: bool)
        ensures
            yes == ended_ok(self@.terminator),
    {
        same_text(self.terminator.as_str(), "OK")
    }

    /// The call-progress code this exchange ended on, if it ended on one.
    ///
    /// `BUSY`, `NO ANSWER`, `NO DIALTONE` and `NO CARRIER` are four different
    /// answers — the far end is engaged, it rang out, the module never got a
    /// line, the call is gone — and each asks for something different of the
    /// caller, so every code is handed back as itself.
    pub fn call_progress(&self) -> (code: Option<&'static str>)
        ensures
            code == progress_of(self@.terminator),
    {
        call_progress_code(self.terminator.as_str())
    }

    /// Full text as it appeared on the wire, for a console transcript.
    pub fn transcript(&self) -> (text: String)
        ensures
            text@ == self@.whole(),
    {
        let mut out: String = String::new();
        push_joined(&mut out, &self.lines, "\n");
        proof {
            assert(out@ =~= joined_by(self@.lines, "\n"@));
        }
        let body: Vec<char> = chars_of(out.as_str());
        if body.len() > 0 {
            out.append("\n");
        }
        out.append(self.terminator.as_str());
        proof {
            assert(out@ =~= self@.whole());
        }
        out
    }
}

/// The lines of a text, each with the carriage return that may end it.
pub open spec fn lines_in(text: Seq<char>) -> Seq<Seq<char>> {
    let parts = pieces(text, '\n');
    if parts.last().len() == 0 {
        parts.drop_last()
    } else {
        parts
    }
}

fn split_lines<'a>(text: &'a [char]) -> (lines: Vec<&'a [char]>)
    ensures
        slices(lines@) == lines_in(text@),
{
    let mut parts: Vec<&'a [char]> = split(text, '\n');
    let ghost all = slices(parts@);
    let count: usize = parts.len();
    proof {
        assert(all.last() == parts@[count - 1]@);
    }
    if parts[count - 1].len() == 0 {
        parts.pop();
        proof {
            assert(slices(parts@) =~= all.drop_last());
        }
    }
    parts
}

/// Whether a line ends a response. A prompt counts: it means that the module
/// wants payload rather than a result code.
pub open spec fn ends_response(line: Seq<char>) -> bool {
    ||| line == "OK"@
    ||| line == "ERROR"@
    ||| line == "ABORTED"@
    ||| progress_of(line) is Some
    ||| after_prefix(line, "+CME ERROR:"@) is Some
    ||| after_prefix(line, "+CMS ERROR:"@) is Some
    ||| line == ">"@
}

fn is_terminal(line: &[char]) -> (yes: bool)
    ensures
        yes == ends_response(line@),
{
    let text: String = string_of(line);
    same_text(text.as_str(), "OK") || same_text(text.as_str(), "ERROR") || same_text(
        text.as_str(),
        "ABORTED",
    ) || call_progress_code(text.as_str()).is_some() || strip_prefix(line, "+CME ERROR:").is_some()
        || strip_prefix(line, "+CMS ERROR:").is_some() || same_text(text.as_str(), ">")
}

/// The last line that ends a response.
pub open spec fn terminal_in(lines: Seq<Seq<char>>) -> Option<Seq<char>>
    decreases lines.len(),
{
    if lines.len() == 0 {
        None
    } else if ends_response(trimmed(lines.last())) {
        Some(trimmed(lines.last()))
    } else {
        terminal_in(lines.drop_last())
    }
}

/// Terminal result code present in `buffer`, if the response is complete.
///
/// `None` is not a neutral outcome. It sends the reader back to waiting on the
/// port, so an unrecognised terminator costs the full timeout and is then
/// reported as `AtError::Timeout`. What is matched here ends the exchange at
/// once and is carried in `AtExchange::terminator`; everything else is treated
/// as more response still on its way.
pub fn terminal_code(buffer: &str) -> (code: Option<String>)
    ensures
        opt_text(code) == terminal_in(lines_in(buffer@)),
{
    let chars: Vec<char> = chars_of(buffer);
    let lines: Vec<&[char]> = split_lines(&chars);
    let ghost all = slices(lines@);
    let mut left: usize = lines.len();
    proof {
        assert(all.take(left as int) =~= all);
    }
    while left > 0
        invariant
            left <= lines@.len(),
            all == slices(lines@),
            all == lines_in(buffer@),
            terminal_in(all.take(left as int)) == terminal_in(all),
        decreases left,
    {
        proof {
            assert(all.take(left as int).last() == lines@[left - 1]@);
            assert(all.take(left as int).drop_last() =~= all.take(left - 1));
        }
        let line: &[char] = trim(lines[left - 1]);
        if is_terminal(line) {
            return Some(string_of(line));
        }
        left = left - 1;
    }
    None
}

/// The lines of a response, without what is empty, the echoed command, and the
/// result code.
pub open spec fn body_in(
    lines: Seq<Seq<char>>,
    command: Seq<char>,
    terminator: Seq<char>,
    echoed: bool,
) -> Seq<Seq<char>>
    decreases lines.len(),
{
    if lines.len() == 0 {
        Seq::empty()
    } else {
        let line = trimmed(lines[0]);
        if line.len() == 0 {
            body_in(lines.skip(1), command, terminator, echoed)
        } else if !echoed && lower(line) == lower(command) {
            body_in(lines.skip(1), command, terminator, true)
        } else if line == terminator {
            body_in(lines.skip(1), command, terminator, echoed)
        } else {
            seq![line] + body_in(lines.skip(1), command, terminator, echoed)
        }
    }
}

/// Response body with the echoed command and terminator removed.
pub fn response_lines(buffer: &str, command: &str, terminator: &str) -> (body: Vec<String>)
    ensures
        texts(body@) == body_in(lines_in(buffer@), command@, terminator@, false),
{
    let chars: Vec<char> = chars_of(buffer);
    let lines: Vec<&[char]> = split_lines(&chars);
    let ghost all = slices(lines@);
    let ghost wanted = body_in(all, command@, terminator@, false);
    let mut body: Vec<String> = Vec::new();
    let mut echoed: bool = false;
    let mut i: usize = 0;
    proof {
        assert(all.skip(0) =~= all);
        assert(texts(body@) + body_in(all.skip(0), command@, terminator@, false) =~= wanted);
    }
    while i < lines.len()
        invariant
            i <= lines@.len(),
            all == slices(lines@),
            texts(body@) + body_in(all.skip(i as int), command@, terminator@, echoed) == wanted,
        decreases lines@.len() - i,
    {
        proof {
            assert(all.skip(i as int)[0] == lines@[i as int]@);
            assert(all.skip(i as int).skip(1) =~= all.skip(i + 1));
        }
        let line: &[char] = trim(lines[i]);
        if line.len() > 0 {
            let text: String = string_of(line);
            if !echoed && same_ignoring_case(text.as_str(), command) {
                echoed = true;
            } else if !same_text(text.as_str(), terminator) {
                let ghost before = texts(body@);
                body.push(text);
                proof {
                    assert(texts(body@) =~= before + seq![line@]);
                    assert(texts(body@) + body_in(
                        all.skip(i + 1),
                        command@,
                        terminator@,
                        echoed,
                    ) =~= before + body_in(all.skip(i as int), command@, terminator@, echoed));
                }
            }
        }
        i = i + 1;
    }
    proof {
        assert(texts(body@) + Seq::<Seq<char>>::empty() =~= texts(body@));
    }
    body
}

/// A command that is being answered: what was asked and what came so far.
pub struct AtReader {
    pub command: String,
    pub buffer: String,
}

/// What an answer comes to, once it is complete.
pub open spec fn exchange_in(buffer: Seq<char>, command: Seq<char>, elapsed_ms: u64) -> Option<
    ExchangeModel,
> {
    match terminal_in(lines_in(buffer)) {
        None => None,
        Some(terminator) => Some(
            ExchangeModel {
                command,
                lines: body_in(lines_in(buffer), command, terminator, false),
                terminator,
                elapsed_ms,
            },
        ),
    }
}

/// An exchange that may not be complete.
pub open spec fn opt_exchange(exchange: Option<AtExchange>) -> Option<ExchangeModel> {
    match exchange {
        Some(e) => Some(e@),
        None => None,
    }
}

impl AtReader {
    /// A command that nothing has been answered to yet.
    pub fn new(command: &str) -> (reader: Self)
        ensures
            reader.command@ == trimmed(command@),
            reader.buffer@ == Seq::<char>::empty(),
    {
        let chars: Vec<char> = chars_of(command);
        AtReader { command: string_of(trim(&chars)), buffer: String::new() }
    }

    /// What goes out on the wire for the command.
    pub fn line(&self) -> (line: String)
        ensures
            line@ == self.command@ + "\r"@,
    {
        let mut line: String = owned(self.command.as_str());
        line.append("\r");
        line
    }

    /// Take what was read from the port, and say whether the answer is
    /// complete with it.
    ///
    /// A rejection is a complete exchange carrying the error terminator, not a
    /// failure. A console has to show `+CME ERROR: 10` as the module's answer;
    /// only losing the port is a transport failure.
    pub fn feed(&mut self, chunk: &[u8], elapsed_ms: u64) -> (exchange: Option<AtExchange>)
        ensures
            final(self).command@ == old(self).command@,
            final(self).buffer@ == old(self).buffer@ + lossy(chunk@),
            opt_exchange(exchange) == exchange_in(
                final(self).buffer@,
                final(self).command@,
                elapsed_ms,
            ),
    {
        self.buffer.append(lossy_text(chunk).as_str());
        match terminal_code(self.buffer.as_str()) {
            None => None,
            Some(terminator) => {
                let lines: Vec<String> = response_lines(
                    self.buffer.as_str(),
                    self.command.as_str(),
                    terminator.as_str(),
                );
                Some(
                    AtExchange {
                        command: owned(self.command.as_str()),
                        lines,
                        terminator,
                        elapsed_ms,
                    },
                )
            },
        }
    }

    /// Why to stop waiting, once the time for the command is up.
    pub fn overdue(&self, elapsed_ms: u64, timeout_ms: u64) -> (error: Option<AtError>)
        ensures
            match error {
                Some(e) => elapsed_ms >= timeout_ms && e@ == (AtFault::Timeout {
                    command: self.command@,
                    elapsed_ms,
                }),
                None => elapsed_ms < timeout_ms,
            },
    {
        if elapsed_ms >= timeout_ms {
            Some(AtError::Timeout { command: owned(self.command.as_str()), elapsed_ms })
        } else {
            None
        }
    }
}

/// Whether a line starts with one of some prefixes.
pub open spec fn is_report(line: Seq<char>, prefixes: Seq<Seq<char>>) -> bool {
    exists|i: int|
        0 <= i < prefixes.len() && after_prefix(line, #[trigger] prefixes[i]) is Some
}

/// The first line that starts with one of some prefixes.
pub open spec fn report_in(lines: Seq<Seq<char>>, prefixes: Seq<Seq<char>>) -> Option<Seq<char>>
    decreases lines.len(),
{
    if lines.len() == 0 {
        None
    } else if is_report(trimmed(lines[0]), prefixes) {
        Some(trimmed(lines[0]))
    } else {
        report_in(lines.skip(1), prefixes)
    }
}

fn starts_with_any(line: &[char], prefixes: &Vec<String>) -> (yes: bool)
    ensures
        yes == is_report(line@, texts(prefixes@)),
{
    let ghost all = texts(prefixes@);
    let mut i: usize = 0;
    while i < prefixes.len()
        invariant
            i <= prefixes@.len(),
            all == texts(prefixes@),
            forall|j: int| 0 <= j < i ==> after_prefix(line@, #[trigger] all[j]) is None,
        decreases prefixes@.len() - i,
    {
        proof {
            assert(all[i as int] == prefixes@[i as int]@);
        }
        if strip_prefix(line, prefixes[i].as_str()).is_some() {
            return true;
        }
        i = i + 1;
    }
    false
}

/// The first unsolicited line matching any of `prefixes` in what was read.
///
/// An operation that reports asynchronously can also fail asynchronously. A
/// USSD request the network rejects produces `+CME ERROR: 100` about a second
/// after the command's own `OK`; waiting only for the success prefix spends the
/// whole timeout and then reports no answer, when the module had already said
/// exactly what went wrong.
pub fn find_report(buffer: &str, prefixes: &Vec<String>) -> (line: Option<String>)
    ensures
        opt_text(line) == report_in(lines_in(buffer@), texts(prefixes@)),
{
    let chars: Vec<char> = chars_of(buffer);
    let lines: Vec<&[char]> = split_lines(&chars);
    let ghost all = slices(lines@);
    let mut i: usize = 0;
    proof {
        assert(all.skip(0) =~= all);
    }
    while i < lines.len()
        invariant
            i <= lines@.len(),
            all == slices(lines@),
            all == lines_in(buffer@),
            report_in(all.skip(i as int), texts(prefixes@)) == report_in(all, texts(prefixes@)),
        decreases lines@.len() - i,
    {
        proof {
            assert(all.skip(i as int)[0] == lines@[i as int]@);
            assert(all.skip(i as int).skip(1) =~= all.skip(i + 1));
        }
        let line: &[char] = trim(lines[i]);
        if starts_with_any(line, prefixes) {
            return Some(string_of(line));
        }
        i = i + 1;
    }
    None
}

/// Whether a line is nothing but digits.
pub open spec fn bare_digits(line: Seq<char>) -> bool {
    line.len() > 0 && all_digits(line)
}

/// The first line that is nothing but digits.
pub open spec fn digits_line(lines: Seq<Seq<char>>) -> Option<Seq<char>>
    decreases lines.len(),
{
    if lines.len() == 0 {
        None
    } else if bare_digits(trimmed(lines[0])) {
        Some(trimmed(lines[0]))
    } else {
        digits_line(lines.skip(1))
    }
}

/// The first response line that is nothing but digits.
///
/// `AT+CGSN` and `AT+CIMI` answer with a bare value and no `+CMD:` prefix, so
/// there is no key to search for. Echo suppression is not guaranteed on a port
/// the agent did not configure, and a stray `AT+CGSN` echo would otherwise be
/// returned as the IMEI of a module that never reported one.
pub fn first_bare_digits(lines: &[String]) -> (found: Option<String>)
    ensures
        opt_text(found) == digits_line(texts(lines@)),
{
    let ghost all = texts(lines@);
    let mut i: usize = 0;
    proof {
        assert(all.skip(0) =~= all);
    }
    while i < lines.len()
        invariant
            i <= lines@.len(),
            all == texts(lines@),
            digits_line(all.skip(i as int)) == digits_line(all),
        decreases lines@.len() - i,
    {
        proof {
            assert(all.skip(i as int)[0] == lines@[i as int]@);
            assert(all.skip(i as int).skip(1) =~= all.skip(i + 1));
        }
        let chars: Vec<char> = chars_of(lines[i].as_str());
        let line: &[char] = trim(&chars);
        if line.len() > 0 && only_digits(line) {
            return Some(string_of(line));
        }
        i = i + 1;
    }
    None
}

// ---------------------------------------------------------------------------
// Laws
// ---------------------------------------------------------------------------

/// No two control ports belong to one USB device: a module's siblings are never
/// probed beside it.
pub proof fn law_one_control_port_per_device(list: Seq<CandidateModel>, i: int, j: int)
    requires
        0 <= i < list.len(),
        0 <= j < list.len(),
        is_chosen(list, i),
        is_chosen(list, j),
        list[i].usb_device is Some,
        list[i].usb_device == list[j].usb_device,
    ensures
        i == j,
{
    assert(beats(list, i, j));
    assert(beats(list, j, i));
}

/// A candidate that needs an operator is never a control port.
pub proof fn law_manual_candidates_are_left_alone(list: Seq<CandidateModel>, i: int)
    requires
        0 <= i < list.len(),
        list[i].policy == AtProbePolicy::Manual,
    ensures
        !is_chosen(list, i),
{
}

/// The modem/PPP port is never picked on its own, whatever its label says of it and
/// whatever drives it.
pub proof fn law_the_data_port_is_not_probed(
    list: Seq<CandidateModel>,
    i: int,
    kind: AtPortKind,
    label: Option<Seq<char>>,
    driver: Option<Seq<char>>,
)
    requires
        0 <= i < list.len(),
        list[i].policy == probe_policy(kind, Some("1.3"@), label, driver),
    ensures
        list[i].policy == AtProbePolicy::Manual,
        !is_chosen(list, i),
{
}

/// The lines of a complete answer never hold the result code that ended it.
pub proof fn law_the_result_code_is_not_body(
    lines: Seq<Seq<char>>,
    command: Seq<char>,
    terminator: Seq<char>,
    echoed: bool,
)
    ensures
        !body_in(lines, command, terminator, echoed).contains(terminator),
        forall|i: int|
            0 <= i < body_in(lines, command, terminator, echoed).len() ==> (#[trigger] body_in(
                lines,
                command,
                terminator,
                echoed,
            )[i]).len() > 0,
    decreases lines.len(),
{
    if lines.len() > 0 {
        law_the_result_code_is_not_body(lines.skip(1), command, terminator, echoed);
        law_the_result_code_is_not_body(lines.skip(1), command, terminator, true);
        let line = trimmed(lines[0]);
        let rest = body_in(lines.skip(1), command, terminator, echoed);
        let whole = body_in(lines, command, terminator, echoed);
        if whole.contains(terminator) {
            let k = choose|k: int| 0 <= k < whole.len() && whole[k] == terminator;
            if whole == seq![line] + rest && line != terminator && k > 0 {
                assert(rest[k - 1] == terminator);
            }
        }
        assert forall|i: int| 0 <= i < whole.len() implies (#[trigger] whole[i]).len() > 0 by {
            if whole == seq![line] + rest && i > 0 {
                assert(whole[i] == rest[i - 1]);
            }
        }
    }
}

} // verus!
