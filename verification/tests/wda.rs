use edge_modem::wda::{LINK_LAYER_PROTOCOL, LinkLayer, set_data_format_request};
use edge_modem::wire::{ClientAssignment, ClientId, ServiceId, TransactionId};

fn assignment(service: ServiceId) -> ClientAssignment {
    ClientAssignment::new(service, ClientId::allocated(7).expect("client")).expect("assignment")
}

/// Four bytes, little endian. A single byte is accepted by some
/// firmware and silently ignored by the rest -- and "silently ignored" is
/// exactly the failure this whole module exists to prevent, so the width
/// is pinned rather than left to whatever the value happens to fit in.
#[test]
fn the_link_layer_is_a_four_byte_little_endian_value() {
    let request =
        set_data_format_request(assignment(ServiceId::wda()), TransactionId::new(1), LinkLayer::RawIp)
            .expect("request");
    let encoded = request.encode();
    let position = encoded
        .windows(3)
        .position(|window| window == [LINK_LAYER_PROTOCOL, 0x04, 0x00])
        .expect("the TLV must declare a length of four");
    assert_eq!(&encoded[position + 3..position + 7], &[2, 0, 0, 0]);
}

#[test]
fn ethernet_and_raw_ip_are_different_values() {
    assert_ne!(LinkLayer::Ethernet.bits(), LinkLayer::RawIp.bits());
    assert_eq!(LinkLayer::from_bits(2), Some(LinkLayer::RawIp));
    assert_eq!(LinkLayer::from_bits(0), None);
}

/// A WDS client cannot carry this message, and sending it on one would
/// reach a service that has its own meaning for message 0x0020.
#[test]
fn only_a_wda_client_may_send_it() {
    assert!(set_data_format_request(
        assignment(ServiceId::wds()),
        TransactionId::new(1),
        LinkLayer::RawIp
    )
    .is_err());
}
