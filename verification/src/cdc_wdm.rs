//! What travels over a `cdc-wdm` character device: which frame answers which
//! request, and what a failure of the device means for a request.

use crate::octets::{le16, read_le16};
use crate::session::{SessionError, SessionFault};
use crate::text::{hex_char, hex_digit_lower, hex_pair, owned, push_hex_pair};
use vstd::prelude::*;

verus! {

pub const QMUX_INTERFACE_TYPE: u8 = 0x01;

pub const CONTROL_INDICATION_KIND: u8 = 0x02;

pub const SERVICE_INDICATION_KIND: u8 = 0x04;

/// How long an answer may take, in milliseconds.
pub const DEFAULT_TIMEOUT: u64 = 8_000;

/// The bits of `poll(2)` on Linux.
pub const POLL_IN: i16 = 0x0001;

pub const POLL_ERR: i16 = 0x0008;

pub const POLL_HUP: i16 = 0x0010;

pub const POLL_NVAL: i16 = 0x0020;

/// The error numbers that a node returns once its USB device has been unbound.
pub const NO_SUCH_ADDRESS: i32 = 6;

pub const NO_SUCH_DEVICE: i32 = 19;

pub const SHUT_DOWN: i32 = 108;

/// `(service, client, transaction)` of a QMUX frame.
pub open spec fn address_in(frame: Seq<u8>) -> Option<(u8, u8, u16)> {
    if frame.len() < 8 {
        None
    } else if frame[4] == 0 {
        Some((frame[4], frame[5], frame[7] as u16))
    } else if frame.len() < 9 {
        None
    } else {
        Some((frame[4], frame[5], le16(frame[7], frame[8])))
    }
}

/// `(service, client, transaction)` of a QMUX frame, request or response.
///
/// The control service numbers its transactions in one byte and every other
/// service in two, so the transaction cannot be read without first knowing which
/// service the frame belongs to.
pub fn address_of(frame: &[u8]) -> (address: Option<(u8, u8, u16)>)
    ensures
        address == address_in(frame@),
{
    if frame.len() < 8 {
        return None;
    }
    let service: u8 = frame[4];
    let client: u8 = frame[5];
    if service == 0 {
        return Some((service, client, frame[7] as u16));
    }
    if frame.len() < 9 {
        return None;
    }
    Some((service, client, read_le16(frame[7], frame[8])))
}

/// Whether a frame is addressed as a request was.
pub open spec fn is_answer(request: Seq<u8>, frame: Seq<u8>) -> bool {
    address_in(request) is Some && address_in(request) == address_in(frame)
}

/// Whether `frame` is the response to `request`.
///
/// Addressed by service, client and transaction, which is the whole of what
/// QMUX gives a caller to match on. Frames too short to carry an address cannot
/// be anybody's answer and are dropped by the same rule.
pub fn answers(request: &[u8], frame: &[u8]) -> (yes: bool)
    ensures
        yes == is_answer(request@, frame@),
{
    match (address_of(request), address_of(frame)) {
        (Some(wanted), Some(got)) => wanted.0 == got.0 && wanted.1 == got.1 && wanted.2 == got.2,
        _ => false,
    }
}

/// Whether a frame reports something that nobody asked for.
pub open spec fn is_report(frame: Seq<u8>) -> bool {
    frame.len() >= 7 && if frame[4] == 0 {
        frame[6] == CONTROL_INDICATION_KIND
    } else {
        frame[6] == SERVICE_INDICATION_KIND
    }
}

pub fn is_indication(frame: &[u8]) -> (yes: bool)
    ensures
        yes == is_report(frame@),
{
    if frame.len() < 7 {
        return false;
    }
    if frame[4] == 0 {
        frame[6] == CONTROL_INDICATION_KIND
    } else {
        frame[6] == SERVICE_INDICATION_KIND
    }
}

/// Whether a frame that was read settles a request. Only the answer to the
/// request just written does: anything else on the node is a leftover, and
/// taking a leftover as the answer is how one lost transaction becomes a
/// permanent fault.
pub fn settles(request: &[u8], frame: &[u8]) -> (yes: bool)
    ensures
        yes == (!is_report(frame@) && is_answer(request@, frame@)),
{
    !is_indication(frame) && answers(request, frame)
}

/// Whether an error means that the character device no longer has a modem
/// behind it, as opposed to a transfer that failed while it still did. `number`
/// is the operating system's, and `at_end` says that a read came to the end of
/// the device.
pub open spec fn gone(number: Option<i32>, at_end: bool) -> bool {
    number == Some(NO_SUCH_DEVICE) || number == Some(NO_SUCH_ADDRESS) || number == Some(SHUT_DOWN)
        || at_end
}

/// Whether an error means that the character device no longer has a modem
/// behind it, as opposed to a transfer that failed while it still did.
pub fn is_gone(number: Option<i32>, at_end: bool) -> (yes: bool)
    ensures
        yes == gone(number, at_end),
{
    match number {
        Some(n) => n == NO_SUCH_DEVICE || n == NO_SUCH_ADDRESS || n == SHUT_DOWN || at_end,
        None => at_end,
    }
}

/// What an error of the device comes to.
pub open spec fn device_fault(
    device: Seq<char>,
    what: Seq<char>,
    reason: Seq<char>,
    is_gone: bool,
    awaiting_response: bool,
) -> SessionFault {
    if is_gone {
        SessionFault::Disconnected { device, awaiting_response }
    } else {
        SessionFault::Transport(what + ": "@ + reason)
    }
}

/// Classifies an error of the node. Everything happens with the request already
/// written, except the write itself.
pub fn io_error(
    device: &str,
    what: &str,
    reason: &str,
    is_gone: bool,
    awaiting_response: bool,
) -> (error: SessionError)
    ensures
        error@ == device_fault(device@, what@, reason@, is_gone, awaiting_response),
{
    if is_gone {
        return SessionError::Disconnected { device: owned(device), awaiting_response };
    }
    let mut text: String = owned(what);
    text.append(": ");
    text.append(reason);
    SessionError::Transport(text)
}

/// A read that failed on a node whose device may have gone away underneath it.
pub fn read_error(device: &str, part: &str, reason: &str, is_gone: bool) -> (error: SessionError)
    ensures
        error@ == device_fault(
            device@,
            "read cdc-wdm "@ + part@ + " on "@ + device@,
            reason@,
            is_gone,
            true,
        ),
{
    let mut what: String = owned("read cdc-wdm ");
    what.append(part);
    what.append(" on ");
    what.append(device);
    io_error(device, what.as_str(), reason, is_gone, true)
}

/// A number in base sixteen, without zeros in front.
pub open spec fn hex_number(n: nat) -> Seq<char>
    decreases n,
{
    if n < 16 {
        seq![hex_char(n as int)]
    } else {
        hex_number(n / 16).push(hex_char((n % 16) as int))
    }
}

fn push_hex_number(out: &mut String, n: u16)
    ensures
        final(out)@ == old(out)@ + hex_number(n as nat),
    decreases n,
{
    if n >= 16 {
        push_hex_number(out, n / 16);
    }
    out.push(hex_digit_lower((n % 16) as u8));
    proof {
        assert(out@ =~= old(out)@ + hex_number(n as nat));
    }
}

/// What `poll` on a node means for a request already written to it.
pub open spec fn poll_fault(device: Seq<char>, revents: i16) -> Option<SessionFault> {
    if revents & POLL_IN != 0 {
        None
    } else if revents & (POLL_HUP | POLL_NVAL) != 0 {
        Some(SessionFault::Disconnected { device, awaiting_response: true })
    } else if revents & POLL_ERR != 0 {
        Some(
            SessionFault::Transport(
                device + " reported a transfer error (POLLERR) with no response to read"@,
            ),
        )
    } else {
        Some(
            SessionFault::Transport(
                "cdc-wdm poll revents 0x"@ + hex_number((revents as u16) as nat) + " on "@
                    + device,
            ),
        )
    }
}

/// What `poll` on a `cdc-wdm` node means for a request already written to it.
///
/// `POLLHUP` is not a variation on "transport error": it says the node the
/// request went to has no modem behind it any more. The distinction is the whole
/// difference between "the module refused this send" and "the module took this
/// send and then left the bus", and only the second one must not be retried.
///
/// Data first: a device can be on its way out with a complete frame still
/// buffered, and that frame is the answer we are waiting for.
pub fn classify_revents(device: &str, revents: i16) -> (result: Result<(), SessionError>)
    ensures
        match result {
            Ok(_) => poll_fault(device@, revents) is None,
            Err(e) => poll_fault(device@, revents) == Some(e@),
        },
{
    if revents & POLL_IN != 0 {
        return Ok(());
    }
    if revents & (POLL_HUP | POLL_NVAL) != 0 {
        return Err(
            SessionError::Disconnected { device: owned(device), awaiting_response: true },
        );
    }
    if revents & POLL_ERR != 0 {
        let mut text: String = owned(device);
        text.append(" reported a transfer error (POLLERR) with no response to read");
        return Err(SessionError::Transport(text));
    }
    let mut text: String = owned("cdc-wdm poll revents 0x");
    push_hex_number(&mut text, revents as u16);
    text.append(" on ");
    text.append(device);
    Err(SessionError::Transport(text))
}

/// How many octets a frame has after the three of its header.
pub open spec fn rest_of(header: Seq<u8>) -> Result<nat, SessionFault> {
    if header[0] != QMUX_INTERFACE_TYPE {
        Err(SessionFault::Transport("cdc-wdm interface type 0x"@ + hex_pair(header[0])))
    } else {
        Ok((le16(header[1], header[2]) - 2) as nat)
    }
}

/// How many octets of a frame follow the three of its header. A header says how
/// long the frame is without its first octet, and counts itself.
pub fn frame_rest(header: [u8; 3]) -> (rest: Result<usize, SessionError>)
    requires
        header@[0] == QMUX_INTERFACE_TYPE ==> le16(header@[1], header@[2]) >= 2,
    ensures
        match rest {
            Ok(n) => rest_of(header@) == Ok::<nat, SessionFault>(n as nat),
            Err(e) => rest_of(header@) == Err::<nat, SessionFault>(e@),
        },
{
    if header[0] != QMUX_INTERFACE_TYPE {
        let mut text: String = owned("cdc-wdm interface type 0x");
        push_hex_pair(&mut text, header[0]);
        return Err(SessionError::Transport(text));
    }
    Ok(read_le16(header[1], header[2]) as usize - 2)
}

/// A frame that settles a request carries the request's own address: another
/// transaction's answer never passes for it.
pub proof fn law_a_leftover_is_not_the_answer(request: Seq<u8>, frame: Seq<u8>)
    requires
        address_in(request) != address_in(frame),
    ensures
        !is_answer(request, frame),
{
}

/// A readable frame wins over a hangup, and a hangup without one says that the
/// request had been handed over.
pub proof fn law_a_hangup_is_a_disconnect(device: Seq<char>, revents: i16)
    requires
        revents & (POLL_HUP | POLL_NVAL) != 0,
    ensures
        match poll_fault(device, revents) {
            None => revents & POLL_IN != 0,
            Some(fault) => fault == (SessionFault::Disconnected {
                device,
                awaiting_response: true,
            }),
        },
{
}

} // verus!
