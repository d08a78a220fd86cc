//! USB-level recovery for a modem that stopped answering QMI.
//!
//! A QMI stack can desync so that every request is answered with the reply to a
//! transaction from a previous session. Nothing on the QMI channel recovers
//! that, because allocating a client ID is itself a QMI request, and `AT` on the
//! control port cannot reach the QMI stack at all.
//!
//! # Why a port reset is not enough
//!
//! Where the modules reach the host over USB/IP, the virtual root hub answers a
//! port reset **locally**, and the module never sees one. So the recovery writes
//! the device's `authorized` attribute instead. De-authorising unbinds every
//! interface driver and puts `SET_CONFIGURATION 0` **on the wire as a control
//! transfer**; re-authorising re-reads the descriptors and sets a configuration
//! again, which recreates `cdc-wdm` and the `ttyUSB` nodes.
//!
//! A port reset is kept as the lighter tier, used only when `authorized` cannot
//! be written at all. It is never used as a silent substitute: the result says
//! which of the two ran.

use crate::text::{
    after_prefix, below, chars_of, decimal, find, first_index, join_path, number_in, opt_str,
    opt_text, owned, parse_number, pieces, push_decimal, push_three_digits, slices, split, string_of, strip_prefix,
    texts, three_digits, trim, trimmed,
};
use vstd::prelude::*;

verus! {

/// Where the kernel lists USB devices by bus topology.
pub const SYSFS_USB_DEVICES: &'static str = "/sys/bus/usb/devices";

/// How long the module is left de-authorised before it is brought back, in
/// milliseconds.
///
/// Long enough for the `SET_CONFIGURATION 0` to have travelled the USB/IP link
/// and been acted on; short enough that the window in which the stick is
/// deliberately absent stays small.
pub const DEAUTHORIZE_SETTLE: u64 = 1_500;

/// How many times re-authorising is tried before it is called a failure.
///
/// Only the second half of the cycle retries. Failing to bring a device back is
/// the one outcome that must not be shrugged off: it leaves the module unusable
/// in a way an operator cannot fix without physical access.
pub const REAUTHORIZE_ATTEMPTS: u32 = 5;

/// Gap between re-authorise attempts, in milliseconds.
pub const REAUTHORIZE_RETRY: u64 = 400;

/// How long the device is given to expose interfaces again, in milliseconds.
pub const RETURN_TIMEOUT: u64 = 20_000;

/// Poll interval while waiting for the device to come back, in milliseconds.
pub const RETURN_POLL: u64 = 250;

/// Failures while locating or recovering a USB device.
#[allow(inconsistent_fields)]
#[derive(Clone, Debug, PartialEq, Eq)]
pub enum UsbError {
    NotFound(String),
    /// No USB device sits at this bus topology position.
    UnknownDevice(String),
    Open { path: String, reason: String },
    Ioctl(String),
    /// The device was taken down and did not come back. Deliberately its own
    /// variant: it is the only failure here that leaves things worse than they
    /// were found.
    DidNotReturn { device: String, waited_ms: u64 },
    Unsupported,
}

/// What an error says.
#[allow(inconsistent_fields)]
pub enum UsbFault {
    NotFound(Seq<char>),
    UnknownDevice(Seq<char>),
    Open { path: Seq<char>, reason: Seq<char> },
    Ioctl(Seq<char>),
    DidNotReturn { device: Seq<char>, waited_ms: u64 },
    Unsupported,
}

impl View for UsbError {
    type V = UsbFault;

    open spec fn view(&self) -> UsbFault {
        match *self {
            UsbError::NotFound(e) => UsbFault::NotFound(e@),
            UsbError::UnknownDevice(e) => UsbFault::UnknownDevice(e@),
            UsbError::Open { path, reason } => UsbFault::Open { path: path@, reason: reason@ },
            UsbError::Ioctl(e) => UsbFault::Ioctl(e@),
            UsbError::DidNotReturn { device, waited_ms } => UsbFault::DidNotReturn {
                device: device@,
                waited_ms,
            },
            UsbError::Unsupported => UsbFault::Unsupported,
        }
    }
}

impl UsbFault {
    /// What the error says.
    pub open spec fn text(self) -> Seq<char> {
        match self {
            UsbFault::NotFound(e) => "no USB device behind "@ + e,
            UsbFault::UnknownDevice(e) => "no USB device at "@ + e,
            UsbFault::Open { path, reason } => "open "@ + path + ": "@ + reason,
            UsbFault::Ioctl(e) => e,
            UsbFault::DidNotReturn { device, waited_ms } => "USB device "@ + device
                + " was de-authorised and had not come back after "@
                + decimal((waited_ms / 1000) as nat) + "s"@,
            UsbFault::Unsupported => "USB recovery is only supported on Linux"@,
        }
    }
}

impl UsbError {
    pub fn push_to(&self, out: &mut String)
        ensures
            final(out)@ == old(out)@ + self@.text(),
    {
        match self {
            UsbError::NotFound(e) => {
                out.append("no USB device behind ");
                out.append(e.as_str());
            },
            UsbError::UnknownDevice(e) => {
                out.append("no USB device at ");
                out.append(e.as_str());
            },
            UsbError::Open { path, reason } => {
                out.append("open ");
                out.append(path.as_str());
                out.append(": ");
                out.append(reason.as_str());
            },
            UsbError::Ioctl(e) => {
                out.append(e.as_str());
            },
            UsbError::DidNotReturn { device, waited_ms } => {
                out.append("USB device ");
                out.append(device.as_str());
                out.append(" was de-authorised and had not come back after ");
                push_decimal(out, *waited_ms / 1000);
                out.append("s");
            },
            UsbError::Unsupported => {
                out.append("USB recovery is only supported on Linux");
            },
        }
        proof {
            assert(out@ =~= old(out)@ + self@.text());
        }
    }

    pub fn to_string(&self) -> (text: String)
        ensures
            text@ == self@.text(),
    {
        let mut text: String = String::new();
        self.push_to(&mut text);
        proof {
            assert(text@ =~= self@.text());
        }
        text
    }
}

/// What a USB device says it is, read from sysfs rather than remembered.
///
/// Sticks of one make report no serial number and share one vendor/product pair,
/// so this cannot tell two of them apart. What it can do is tell a modem from
/// whatever else might occupy the same bus position later.
#[derive(Clone, Debug, PartialEq, Eq)]
pub struct UsbIdentity {
    pub vendor: String,
    pub product: String,
}

/// An identity, by what its texts say.
#[verifier::ext_equal]
pub struct IdentityModel {
    pub vendor: Seq<char>,
    pub product: Seq<char>,
}

impl View for UsbIdentity {
    type V = IdentityModel;

    open spec fn view(&self) -> IdentityModel {
        IdentityModel {
            vendor: self.vendor@,
            product: self.product@,
        }
    }
}

impl UsbIdentity {
    pub fn to_string(&self) -> (text: String)
        ensures
            text@ == self@.vendor + ":"@ + self@.product,
    {
        let mut text: String = owned(self.vendor.as_str());
        text.append(":");
        text.append(self.product.as_str());
        text
    }
}

/// Which of the two recovery tiers actually ran.
#[derive(Clone, Copy, Debug, PartialEq, Eq, Structural)]
pub enum UsbRecovery {
    /// `authorized` written `0` then `1`: every interface driver is unbound and
    /// the module is unconfigured and reconfigured over the wire.
    Reauthorized,
    /// A port reset, which a USB/IP bus answers locally. Only used when
    /// `authorized` could not be written.
    PortReset,
}

impl UsbRecovery {
    pub open spec fn name(self) -> &'static str {
        match self {
            UsbRecovery::Reauthorized => "reauthorize",
            UsbRecovery::PortReset => "port_reset",
        }
    }

    pub fn wire(self) -> (name: &'static str)
        ensures
            name == self.name(),
    {
        match self {
            UsbRecovery::Reauthorized => "reauthorize",
            UsbRecovery::PortReset => "port_reset",
        }
    }
}

/// Where a recovery landed, so an operator can tell which stick moved.
#[derive(Clone, Debug, PartialEq, Eq)]
pub struct UsbReset {
    /// USB device identifier, e.g. `4-3`.
    pub device: String,
    /// The file the recovery was issued through — the `authorized` attribute or
    /// the usbfs node, depending on which tier ran.
    pub node: String,
    pub recovery: UsbRecovery,
    /// Bus address before and after. On a USB/IP bus neither tier reassigns it,
    /// so this is reported rather than asserted on: it is evidence about what
    /// happened, not the definition of success.
    pub devnum_before: Option<u32>,
    pub devnum_after: Option<u32>,
    /// How long the device took to expose interfaces again.
    pub returned_after_ms: u64,
}

// ---------------------------------------------------------------------------
// What sysfs says
// ---------------------------------------------------------------------------

/// sysfs directory of a USB device identifier.
pub fn sysfs_device(device: &str) -> (path: String)
    ensures
        path@ == below(SYSFS_USB_DEVICES@, device@),
{
    join_path(SYSFS_USB_DEVICES, device)
}

/// The usbfs node of a bus and an address, where both are known.
pub open spec fn node_of(bus: Option<u32>, address: Option<u32>) -> Option<Seq<char>> {
    match (bus, address) {
        (Some(b), Some(a)) => Some(
            "/dev/bus/usb/"@ + three_digits(b as nat) + "/"@ + three_digits(a as nat),
        ),
        _ => None,
    }
}

/// usbfs node of a device, out of its bus and its address, which are read from
/// sysfs rather than guessed: both change on every re-enumeration.
pub fn usbfs_node(bus: Option<u32>, address: Option<u32>) -> (path: Option<String>)
    ensures
        opt_text(path) == node_of(bus, address),
{
    match (bus, address) {
        (Some(b), Some(a)) => {
            let mut path: String = owned("/dev/bus/usb/");
            push_three_digits(&mut path, b as u64);
            path.append("/");
            push_three_digits(&mut path, a as u64);
            Some(path)
        },
        _ => None,
    }
}

/// An identity, out of what the two attributes of a device say.
pub open spec fn identity_of(vendor: Option<Seq<char>>, product: Option<Seq<char>>) -> Option<
    IdentityModel,
> {
    match (vendor, product) {
        (Some(v), Some(p)) => Some(IdentityModel { vendor: trimmed(v), product: trimmed(p) }),
        _ => None,
    }
}

fn trimmed_text(text: &str) -> (result: String)
    ensures
        result@ == trimmed(text@),
{
    let chars: Vec<char> = chars_of(text);
    string_of(trim(&chars))
}

/// Vendor and product of a device, out of what its attributes say. Trailing
/// newlines are how sysfs answers.
pub fn usb_identity(vendor: Option<&str>, product: Option<&str>) -> (identity: Option<UsbIdentity>)
    ensures
        match identity {
            Some(i) => identity_of(opt_str(vendor), opt_str(product)) == Some(i@),
            None => identity_of(opt_str(vendor), opt_str(product)) is None,
        },
{
    match (vendor, product) {
        (Some(v), Some(p)) => Some(
            UsbIdentity { vendor: trimmed_text(v), product: trimmed_text(p) },
        ),
        _ => None,
    }
}

/// A number, out of what an attribute says.
pub open spec fn attribute_number(text: Option<Seq<char>>) -> Option<u32> {
    match text {
        None => None,
        Some(t) => match number_in(trimmed(t), u32::MAX as nat) {
            Some(n) => Some(n as u32),
            None => None,
        },
    }
}

/// Bus address of a device, out of what its attribute says.
pub fn usb_devnum(text: Option<&str>) -> (number: Option<u32>)
    ensures
        number == attribute_number(opt_str(text)),
{
    match text {
        None => None,
        Some(t) => {
            let chars: Vec<char> = chars_of(t);
            match parse_number(trim(&chars), u32::MAX as u64) {
                Some(number) => Some(number as u32),
                None => None,
            }
        },
    }
}

/// The USB device that the last component with a colon in it names.
pub open spec fn device_above(parts: Seq<Seq<char>>) -> Option<Seq<char>>
    decreases parts.len(),
{
    if parts.len() == 0 {
        None
    } else if first_index(parts.last(), ':') < parts.last().len() {
        Some(parts.last().take(first_index(parts.last(), ':')))
    } else {
        device_above(parts.drop_last())
    }
}

/// USB device identifier backing a `cdc-wdm` character device, out of where its
/// sysfs link leads.
pub fn usb_device_of_qmi(resolved: &str) -> (device: Option<String>)
    ensures
        opt_text(device) == device_above(pieces(resolved@, '/')),
{
    let chars: Vec<char> = chars_of(resolved);
    let parts: Vec<&[char]> = split(&chars, '/');
    let ghost all = slices(parts@);
    let mut left: usize = parts.len();
    proof {
        assert(all.take(left as int) =~= all);
    }
    while left > 0
        invariant
            left <= parts@.len(),
            all == slices(parts@),
            all == pieces(resolved@, '/'),
            device_above(all.take(left as int)) == device_above(all),
        decreases left,
    {
        proof {
            assert(all.take(left as int).last() == parts@[left - 1]@);
            assert(all.take(left as int).drop_last() =~= all.take(left - 1));
        }
        let segment: &[char] = parts[left - 1];
        let colon: usize = find(segment, ':');
        if colon < segment.len() {
            proof {
                assert(segment@.subrange(0, colon as int) =~= segment@.take(colon as int));
            }
            return Some(string_of(&segment[0..colon]));
        }
        left = left - 1;
    }
    None
}

/// Whether one of a device's entries is an interface of its own.
pub open spec fn interfaces_in(names: Seq<Seq<char>>, device: Seq<char>) -> bool {
    exists|i: int|
        0 <= i < names.len() && after_prefix(#[trigger] names[i], device + ":"@) is Some
}

/// Whether the kernel has bound interfaces to this device.
///
/// An interface directory is named `<device>:<config>.<interface>`, and none
/// exist while the device is de-authorised. Their return is what says the module
/// answered the descriptor reads and took a configuration. The colon is
/// load-bearing: a device directory also holds the devices plugged in below it,
/// and those keep their directories.
pub fn has_interfaces(names: &Vec<String>, device: &str) -> (yes: bool)
    ensures
        yes == interfaces_in(texts(names@), device@),
{
    let ghost all = texts(names@);
    let mut prefix: String = owned(device);
    prefix.append(":");
    let mut i: usize = 0;
    while i < names.len()
        invariant
            i <= names@.len(),
            all == texts(names@),
            prefix@ == device@ + ":"@,
            forall|j: int|
                0 <= j < i ==> after_prefix(#[trigger] all[j], device@ + ":"@) is None,
        decreases names@.len() - i,
    {
        proof {
            assert(all[i as int] == names@[i as int]@);
        }
        let name: Vec<char> = chars_of(names[i].as_str());
        if strip_prefix(&name, prefix.as_str()).is_some() {
            return true;
        }
        i = i + 1;
    }
    false
}

// ---------------------------------------------------------------------------
// The recovery, step by step
// ---------------------------------------------------------------------------

/// What a recovery does next.
#[derive(Clone, Debug, PartialEq, Eq)]
pub enum RecoveryMove {
    /// Write `0` to `authorized`.
    Deauthorize,
    /// Wait so many milliseconds, then write `1` to `authorized`.
    Reauthorize { after_ms: u64 },
    /// Wait so many milliseconds, then look for interfaces.
    Look { after_ms: u64 },
    /// Reset the port.
    ResetPort,
    /// It is over.
    Done(UsbRecovery),
    Failed(UsbError),
}

/// What a recovery does next, by what it says.
pub enum MoveModel {
    Deauthorize,
    Reauthorize { after_ms: u64 },
    Look { after_ms: u64 },
    ResetPort,
    Done(UsbRecovery),
    Failed(UsbFault),
}

impl View for RecoveryMove {
    type V = MoveModel;

    open spec fn view(&self) -> MoveModel {
        match *self {
            RecoveryMove::Deauthorize => MoveModel::Deauthorize,
            RecoveryMove::Reauthorize { after_ms } => MoveModel::Reauthorize { after_ms },
            RecoveryMove::Look { after_ms } => MoveModel::Look { after_ms },
            RecoveryMove::ResetPort => MoveModel::ResetPort,
            RecoveryMove::Done(recovery) => MoveModel::Done(recovery),
            RecoveryMove::Failed(error) => MoveModel::Failed(error@),
        }
    }
}

/// How a recovery begins: a position with nothing on it is refused.
///
/// Targeted by bus position, never by `cdc-wdm` number: the number moves across
/// a re-enumeration and the position does not, and this is a destructive
/// operation aimed at hardware that cannot say who it is.
pub fn begin_recovery(device: &str, identity: &Option<UsbIdentity>) -> (next: RecoveryMove)
    ensures
        next@ == (if identity is Some {
            MoveModel::Deauthorize
        } else {
            MoveModel::Failed(UsbFault::UnknownDevice(device@))
        }),
{
    match identity {
        Some(_) => RecoveryMove::Deauthorize,
        None => RecoveryMove::Failed(UsbError::UnknownDevice(owned(device))),
    }
}

/// What follows the attempt to take the device down. Where it failed nothing was
/// disturbed, so the lighter tier is still open.
pub fn after_deauthorize(written: bool) -> (next: RecoveryMove)
    ensures
        next@ == (if written {
            MoveModel::Reauthorize { after_ms: DEAUTHORIZE_SETTLE }
        } else {
            MoveModel::ResetPort
        }),
{
    if written {
        RecoveryMove::Reauthorize { after_ms: DEAUTHORIZE_SETTLE }
    } else {
        RecoveryMove::ResetPort
    }
}

/// What follows an attempt to bring the device back, the first one being number
/// one.
pub open spec fn reauthorized(device: Seq<char>, attempt: u32, failure: Option<Seq<char>>) -> MoveModel {
    match failure {
        None => MoveModel::Look { after_ms: 0 },
        Some(reason) => if attempt < REAUTHORIZE_ATTEMPTS {
            MoveModel::Reauthorize { after_ms: REAUTHORIZE_RETRY }
        } else {
            MoveModel::Failed(
                UsbFault::Ioctl("USB device "@ + device + " stayed de-authorised: "@ + reason),
            )
        },
    }
}

/// What follows an attempt to bring the device back. From here the module is
/// deliberately absent: falling back to a port reset would be issuing a second
/// recovery against a device that is already down.
pub fn after_reauthorize(device: &str, attempt: u32, failure: Option<&str>) -> (next: RecoveryMove)
    ensures
        next@ == reauthorized(device@, attempt, opt_str(failure)),
{
    match failure {
        None => RecoveryMove::Look { after_ms: 0 },
        Some(reason) => {
            if attempt < REAUTHORIZE_ATTEMPTS {
                RecoveryMove::Reauthorize { after_ms: REAUTHORIZE_RETRY }
            } else {
                let mut text: String = owned("USB device ");
                text.append(device);
                text.append(" stayed de-authorised: ");
                text.append(reason);
                RecoveryMove::Failed(UsbError::Ioctl(text))
            }
        },
    }
}

/// What follows a look for interfaces.
pub open spec fn looked(device: Seq<char>, present: bool, waited_ms: u64) -> MoveModel {
    if present {
        MoveModel::Done(UsbRecovery::Reauthorized)
    } else if waited_ms >= RETURN_TIMEOUT {
        MoveModel::Failed(UsbFault::DidNotReturn { device, waited_ms: RETURN_TIMEOUT })
    } else {
        MoveModel::Look { after_ms: RETURN_POLL }
    }
}

/// What follows a look for interfaces, so long after the device was brought
/// back.
pub fn after_look(device: &str, present: bool, waited_ms: u64) -> (next: RecoveryMove)
    ensures
        next@ == looked(device@, present, waited_ms),
{
    if present {
        RecoveryMove::Done(UsbRecovery::Reauthorized)
    } else if waited_ms >= RETURN_TIMEOUT {
        RecoveryMove::Failed(
            UsbError::DidNotReturn { device: owned(device), waited_ms: RETURN_TIMEOUT },
        )
    } else {
        RecoveryMove::Look { after_ms: RETURN_POLL }
    }
}

/// A device that was taken down is not given up before it was tried often
/// enough, and is never reset on top of it.
pub proof fn law_a_device_that_is_down_is_brought_back(
    device: Seq<char>,
    attempt: u32,
    failure: Option<Seq<char>>,
)
    ensures
        !(reauthorized(device, attempt, failure) is ResetPort),
        attempt < REAUTHORIZE_ATTEMPTS ==> !(reauthorized(device, attempt, failure) is Failed),
{
}

/// A recovery says that the device came back only when its interfaces did.
pub proof fn law_only_interfaces_say_it_came_back(
    device: Seq<char>,
    present: bool,
    waited_ms: u64,
)
    ensures
        looked(device, present, waited_ms) is Done <==> present,
        !present && waited_ms >= RETURN_TIMEOUT ==> looked(device, present, waited_ms) is Failed,
{
}

} // verus!
