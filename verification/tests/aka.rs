use edge_modem::aka::{
    USIM_ADF_AID_PREFIX, authenticate_apdu, csim_command, decode_hex, hex_upper, selected_aid,
};

/// An FCP shaped like the one a card answers with: file descriptor, file id,
/// then tag `84` carrying a USIM AID.
const FCP_HEX: &str = "621A8202782183027FD08410A0000000871002FFFFFFFF8907090000";

fn fcp() -> Vec<u8> {
    decode_hex(FCP_HEX).expect("fcp hex")
}

#[test]
fn authenticate_apdu_is_the_basic_channel_form() {
    let apdu = authenticate_apdu(&[0x11; 16], &[0x22; 16], true).expect("apdu");
    assert_eq!(&apdu[..5], &[0x00, 0x88, 0x00, 0x81, 0x22]);
    assert_eq!(apdu[5], 0x10);
    assert_eq!(apdu[22], 0x10);
    assert_eq!(apdu.len(), 40);
    assert_eq!(*apdu.last().expect("le"), 0x00);
}

#[test]
fn csim_length_counts_hex_characters() {
    let apdu = authenticate_apdu(&[0xab; 16], &[0xcd; 16], true).expect("apdu");
    let command = csim_command(&apdu);
    assert!(command.starts_with("AT+CSIM=80,\"0088008122"), "{command}");
}

#[test]
fn selected_aid_reads_tag_84() {
    let aid = selected_aid(&fcp()).expect("aid");
    assert!(aid.starts_with(&USIM_ADF_AID_PREFIX), "{}", hex_upper(&aid));
}

#[test]
fn fcp_without_tag_84_is_named() {
    let error = selected_aid(&decode_hex("6204820278218300").expect("hex")).unwrap_err();
    assert_eq!(error.code(), "no_selected_application");
}
