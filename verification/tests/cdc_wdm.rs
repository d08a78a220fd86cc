use edge_modem::cdc_wdm::{address_of, answers, classify_revents, is_gone};
use edge_modem::session::SessionError;

const DEVICE: &str = "/dev/cdc-wdm2";

/// The failure this whole classification exists for.
///
/// `0x18` is `POLLERR|POLLHUP`, which is what a send can return: the module stalls its QMI
/// interrupt endpoint, the USB/IP session is torn down, and the node the
/// request went to stops having a modem behind it. Calling that a
/// "transport error" hides the one fact the caller needs -- the request
/// was already handed over.
#[test]
fn pollerr_with_pollhup_is_a_disconnect_not_a_transport_error() {
    let error = classify_revents(DEVICE, libc::POLLERR | libc::POLLHUP)
        .expect_err("0x18 must not read as success");
    assert!(
        matches!(
            &error,
            SessionError::Disconnected {
                device,
                awaiting_response: true
            } if device == DEVICE
        ),
        "expected a named disconnect, got {error:?}"
    );
    assert!(
        error.left_the_bus_after_the_request(),
        "a send must be able to tell this apart from a refusal"
    );
}

/// A latched transfer error with no hangup is a different thing: the
/// device is still there. Reporting it as a disconnect would tell a
/// caller not to retry something that never left.
#[test]
fn pollerr_alone_is_not_a_disconnect() {
    let error = classify_revents(DEVICE, libc::POLLERR).expect_err("POLLERR is not success");
    assert!(!error.left_the_bus_after_the_request());
    assert!(
        error.to_string().contains("POLLERR"),
        "the operator has to be able to tell which of the two happened: {error:?}"
    );
}

/// A module can be on its way out with the answer already buffered.
/// Throwing that frame away loses the one authoritative record of what
/// the modem did with the request.
#[test]
fn a_readable_frame_wins_over_a_pending_hangup() {
    classify_revents(DEVICE, libc::POLLIN | libc::POLLHUP).expect("read the buffered frame");
}

#[test]
fn an_unrecognised_mask_still_reports_its_bits() {
    let error = classify_revents(DEVICE, libc::POLLOUT).expect_err("no readable data");
    assert!(error.to_string().contains("0x4"), "{error:?}");
    assert!(error.to_string().contains(DEVICE), "{error:?}");
}

/// `ENODEV` is what the node returns once its USB device is unbound, and
/// it reaches the caller as an ordinary `io::Error` rather than through
/// `poll`. Both routes have to end at the same conclusion.
#[test]
fn an_unbound_node_reads_as_gone() {
    assert!(is_gone(Some(libc::ENODEV), false));
    assert!(is_gone(Some(libc::ENXIO), false));
    assert!(!is_gone(Some(libc::EAGAIN), false));
}

/// One CTL request and the response to it, byte for byte.
fn ctl_sync_request() -> Vec<u8> {
    hex("010b00000000000127000000")
}

fn ctl_sync_response() -> Vec<u8> {
    hex("01120080000001012700070002040000000000")
}

/// The frame that was still in flight from the previous cycle: a CTL
/// response to transaction 2, arriving while transaction 1 is awaited.
fn stale_ctl_response() -> Vec<u8> {
    hex("011700800000010222000c00020400000000000102000501")
}

fn hex(text: &str) -> Vec<u8> {
    (0..text.len())
        .step_by(2)
        .map(|i| u8::from_str_radix(&text[i..i + 2], 16).expect("hex"))
        .collect()
}

/// A transaction that timed out leaves its answer on the wire. The next
/// request reads that answer, and if the transport hands it up as the
/// response the session layer rejects it -- while the answer that was
/// actually asked for stays unread and becomes the next request's
/// leftover. The module answers everything correctly and is reported
/// unreachable for as long as it stays powered.
#[test]
fn a_leftover_from_a_previous_transaction_is_not_the_answer() {
    assert!(
        !answers(&ctl_sync_request(), &stale_ctl_response()),
        "transaction 2's answer must not settle transaction 1"
    );
    assert!(
        answers(&ctl_sync_request(), &ctl_sync_response()),
        "the real answer must still be recognised"
    );
}

/// Same transaction number, different service: WMS transaction 1 is not
/// the answer to CTL transaction 1.
#[test]
fn a_matching_transaction_on_another_service_is_not_the_answer() {
    let wms_request = hex("011e0000050100010020001200010f00060c0000212c05810180f600000132");
    assert!(!answers(&ctl_sync_request(), &wms_request));
    assert_eq!(address_of(&wms_request), Some((0x05, 0x01, 1)));
    // CTL numbers transactions in one byte; a service uses two, and
    // reading a service frame the control way finds the wrong number.
    assert_eq!(address_of(&ctl_sync_request()), Some((0x00, 0x00, 1)));
}

#[test]
fn a_frame_too_short_to_carry_an_address_answers_nothing() {
    assert_eq!(address_of(&[0x01, 0x02, 0x00]), None);
    assert!(!answers(&ctl_sync_request(), &[0x01, 0x02, 0x00]));
}

