use edge_modem::ber::wrap;
use edge_modem::es10c::{
    CancelSessionReason, Es10cError, MAX_STORE_DATA_BLOCKS, MAX_STORE_DATA_BYTES, P1_LAST_BLOCK,
    P1_MORE_BLOCKS, STORE_DATA_BLOCK_BYTES, TAG_NICKNAME, authenticate_server_payload,
    bound_profile_package_segments, cancel_session_payload, confirmation_code_required,
    delete_profile_payload, disable_profile_payload, enable_profile_payload, get_profiles_payload,
    parse_authenticate_server_response, parse_cancel_session_response, parse_delete_result,
    parse_eid_response, parse_euicc_info2, parse_installation_result,
    parse_notification_metadata_list, parse_pending_notifications, parse_prepare_download_response,
    parse_profile_metadata, parse_profile_result, parse_profiles,
    parse_remove_notification_response, parse_set_nickname_result, prepare_download_payload,
    remove_notification_payload, set_nickname_payload, smdp_signed2_transaction_id,
    store_data_chain, tac_from_imei,
};

fn bytes(hex: &str) -> Vec<u8> {
    let hex: String = hex.chars().filter(|c| !c.is_whitespace()).collect();
    let hex = hex.as_str();
    (0..hex.len())
        .step_by(2)
        .map(|i| u8::from_str_radix(&hex[i..i + 2], 16).expect("hex"))
        .collect()
}

/// Captured from a ClubSIM eUICC. Short-form lengths throughout.
const CLUBSIM: &str = "BF2D35A033E3315A0A985802004136129775F14F10A0000005591010FFFFFFFF8900\
                       0012009F7001019104436C75629204436C756295010 2";

/// Captured from a Saily eUICC: long-form lengths and policy rules.
const SAILY: &str = "BF2D81B0A081ADE381AA5A0A9858321522052412241 04F10A0000005591010FFFFFFFF89\
                     000012009F70010191055361696C79920757454242494E47950102BF7672E224E116C114\
                     9880246500BFD50F1415AF56C705A94E2BB2015AE30ADB080000000000000001E224E116\
                     C114A8F000988F2C44FA897427E1A740FDE2FF545C19E30ADB080000000000000001E224\
                     E116C1148204F3D96D0061D88FBD97FC8CE041E9494D6B9BE30ADB0800000000000000 01";

fn clean(value: &str) -> String {
    value.chars().filter(|c| !c.is_whitespace()).collect()
}

#[test]
fn parses_a_short_form_profile_list() {
    let profiles = parse_profiles(&bytes(&clean(CLUBSIM))).expect("profiles");
    assert_eq!(profiles.len(), 1);
    let profile = &profiles[0];
    assert_eq!(profile.iccid, "8985200014632179571");
    assert!(profile.enabled);
    assert_eq!(profile.provider.as_deref(), Some("Club"));
    assert_eq!(profile.name.as_deref(), Some("Club"));
    assert_eq!(profile.class, Some(2));
}

/// The second card answers with `81 B0`. Reading only the short length
/// form truncates its list to nothing.
#[test]
fn parses_a_long_form_profile_list() {
    let profiles = parse_profiles(&bytes(&clean(SAILY))).expect("profiles");
    assert_eq!(profiles.len(), 1);
    let profile = &profiles[0];
    assert_eq!(profile.iccid, "89852351225042214201");
    assert!(profile.enabled);
    assert_eq!(profile.provider.as_deref(), Some("Saily"));
    assert_eq!(profile.name.as_deref(), Some("WEBBING"));
}

#[test]
fn label_prefers_a_human_name_over_the_iccid() {
    let profiles = parse_profiles(&bytes(&clean(SAILY))).expect("profiles");
    assert_eq!(profiles[0].label(), "WEBBING");
}

#[test]
fn get_profiles_is_one_store_data_block() {
    let chain = store_data_chain(&get_profiles_payload()).expect("chain");
    assert_eq!(chain, vec![bytes("80E2910003BF2D00")]);
}

#[test]
fn enable_wraps_the_iccid_and_refresh_flag() {
    let payload = enable_profile_payload("89852351225042214201", true).expect("payload");
    let chain = store_data_chain(&payload).expect("chain");
    // STORE DATA Lc 0x14, BF31 body 0x11: A0 0C (5A 0A <10 bytes>) 81 01 FF.
    assert_eq!(
        chain,
        vec![bytes("80E2910014 BF3111 A00C 5A0A 98583215220524122410 8101FF")]
    );
}

#[test]
fn disable_uses_its_own_tag() {
    let payload = disable_profile_payload("89852351225042214201", false).expect("payload");
    assert_eq!(&payload[..2], &[0xbf, 0x32]);
    assert_eq!(payload[payload.len() - 1], 0x00);
}

/// A 19-digit ICCID is padded, not truncated: the card matches on the full
/// ten-byte field, and the odd digit leaves an `f` in the high nibble.
#[test]
fn odd_length_iccid_is_padded() {
    let payload = enable_profile_payload("8985200014632179571", true).expect("payload");
    // BF31 tag/len 3 + A0 len 2 + 5A len 2 = 7.
    let iccid = &payload[7..17];
    assert_eq!(iccid.len(), 10);
    assert_eq!(iccid[9], 0xf1);
}

#[test]
fn non_numeric_iccid_is_rejected() {
    assert_eq!(
        enable_profile_payload("89ab", true),
        Err(Es10cError::InvalidIccid)
    );
}

#[test]
fn success_result_is_ok() {
    assert_eq!(parse_profile_result(&bytes("BF31038001 00"), true), Ok(()));
}

#[test]
fn refusal_is_reported_with_its_reason() {
    assert_eq!(
        parse_profile_result(&bytes("BF31038001 02"), true),
        Err(Es10cError::Refused {
            code: 2,
            reason: "profile is not in the disabled state",
        })
    );
}

#[test]
fn truncated_response_is_rejected() {
    assert_eq!(parse_profiles(&bytes("BF2D35A0")), Err(Es10cError::Truncated));
}

// ---- STORE DATA chaining -------------------------------------------
//
// A length that is merely cast to one byte wraps to 0 at 256 bytes and to 44
// at 300 while all the bytes are still appended. The card then reads 44 bytes
// of BER-TLV and the rest as the next command.

fn filler(length: usize) -> Vec<u8> {
    (0..length).map(|index| (index % 251) as u8).collect()
}

#[test]
fn a_full_block_is_still_one_apdu() {
    let chain = store_data_chain(&filler(STORE_DATA_BLOCK_BYTES)).expect("chain");
    assert_eq!(chain.len(), 1);
    assert_eq!(chain[0][..5], [0x80, 0xe2, 0x91, 0x00, 0xff]);
    assert_eq!(chain[0].len(), 5 + 255);
}

/// One byte past a block is where a cast would wrap Lc to zero.
#[test]
fn two_hundred_and_fifty_six_bytes_become_two_blocks() {
    let payload = filler(256);
    let chain = store_data_chain(&payload).expect("chain");
    assert_eq!(chain.len(), 2);
    // First block: not last, block zero, full length.
    assert_eq!(chain[0][..5], [0x80, 0xe2, P1_MORE_BLOCKS, 0x00, 0xff]);
    // Last block: one byte, block one.
    assert_eq!(chain[1][..5], [0x80, 0xe2, P1_LAST_BLOCK, 0x01, 0x01]);
    assert_eq!(chain[1][5], payload[255]);
}

/// Every byte handed in has to reach the card exactly once, and every
/// block has to declare the length it actually carries.
#[test]
fn a_three_hundred_byte_payload_survives_the_chain() {
    let payload = filler(300);
    let chain = store_data_chain(&payload).expect("chain");
    let mut rebuilt = Vec::new();
    for (index, apdu) in chain.iter().enumerate() {
        assert_eq!(apdu[3], index as u8, "block number");
        assert_eq!(
            usize::from(apdu[4]),
            apdu.len() - 5,
            "Lc must match the block it carries"
        );
        rebuilt.extend_from_slice(&apdu[5..]);
    }
    assert_eq!(rebuilt, payload);
    assert_eq!(chain[chain.len() - 1][2], P1_LAST_BLOCK);
}

#[test]
fn the_longest_chain_is_two_hundred_and_fifty_six_blocks() {
    let chain = store_data_chain(&filler(MAX_STORE_DATA_BYTES)).expect("chain");
    assert_eq!(chain.len(), MAX_STORE_DATA_BLOCKS);
    assert_eq!(chain[MAX_STORE_DATA_BLOCKS - 1][3], 0xff);
    assert_eq!(chain[MAX_STORE_DATA_BLOCKS - 1][2], P1_LAST_BLOCK);
}

/// Past the chain limit there is no correct APDU, so this is an error and
/// not a wrap. A silently wrapped block number sends the card the same
/// block twice.
#[test]
fn a_payload_too_long_to_chain_is_refused() {
    assert_eq!(
        store_data_chain(&filler(MAX_STORE_DATA_BYTES + 1)),
        Err(Es10cError::PayloadTooLarge {
            actual: MAX_STORE_DATA_BYTES + 1,
            max: MAX_STORE_DATA_BYTES,
        })
    );
}

#[test]
fn an_empty_payload_is_refused() {
    assert_eq!(store_data_chain(&[]), Err(Es10cError::EmptyPayload));
}

// ---- ES10b, from two eUICCs ----------------------------------------
//
// Every constant below was read off a card with AT+CGLA on the ISD-R channel.

/// 867018069514820, the Saily/WEBBING chip.
const EID_RESPONSE_SAILY: &str = "BF3E125A1089086030202200000026000178339240";
/// 862547055142811, the CSL chip.
const EID_RESPONSE_CSL: &str = "BF3E125A1089086030202200000026000178340695";

const INFO2_SAILY: &str = "BF227E81030203018203020202830304020084 0D 8101008204000279D083020B\
                           89 8505077F3E1F808603090200870302030088020490A916041481370F5125D0B1\
                           D408D4C3B232E6D25E795BEBFBAA16041481370F5125D0B1D408D4C3B232E6D25E79\
                           5BEBFB8B01009902064004030100000C0D45442D5A492D55502D30383236";

const INFO2_CSL: &str = "BF227E81030203018203020202830304020084 0D 8101008204000253C983020F\
                         FA 8505077F3E1F808603090200870302030088020490A916041481370F5125D0B1\
                         D408D4C3B232E6D25E795BEBFBAA16041481370F5125D0B1D408D4C3B232E6D25E79\
                         5BEBFB8B01009902064004030100000C0D45442D5A492D55502D30383236";

/// Four pending notifications: install, delete, install, enable.
const NOTIFICATIONS_SAILY: &str = "BF2881E7A081E4\
    BF2F36800100810207800C217762672E70726F642E6F6E64656D616E64636F6E6E65637469766974792E636F6D\
    5A0A98583215220524122410\
    BF2F36800101810204100C217762672E70726F642E6F6E64656D616E64636F6E6E65637469766974792E636F6D\
    5A0A98583215220524122410\
    BF2F36800102810207800C217762672E70726F642E6F6E64656D616E64636F6E6E65637469766974792E636F6D\
    5A0A98583215220524122410\
    BF2F36800103810206400C217762672E70726F642E6F6E64656D616E64636F6E6E65637469766974792E636F6D\
    5A0A98583215220524122410";

/// One pending notification on the CSL chip.
const NOTIFICATIONS_CSL: &str = "BF283BA039BF2F36800100810207800C2163736C2E70726F642E6F6E6465\
                                 6D616E64636F6E6E65637469766974792E636F6D5A0A985802004136129775F1";

/// What both chips answer to a `seqNumber` search, for a sequence number
/// they had just listed.
const RETRIEVE_REFUSED: &str = "BF2B0381017F";

#[test]
fn the_eid_comes_back_as_thirty_two_digits() {
    assert_eq!(
        parse_eid_response(&bytes(EID_RESPONSE_SAILY)).expect("eid"),
        "89086030202200000026000178339240"
    );
    assert_eq!(
        parse_eid_response(&bytes(EID_RESPONSE_CSL)).expect("eid"),
        "89086030202200000026000178340695"
    );
}

/// The whole answer, field by field. This is the response a single-round
/// GET RESPONSE truncates, and a test that only asserted "no error" would
/// pass on the truncated half of it.
#[test]
fn euicc_info2_decodes_every_field() {
    let info = parse_euicc_info2(&bytes(&clean(INFO2_SAILY))).expect("info2");
    assert_eq!(info.profile_version.as_deref(), Some("2.3.1"));
    assert_eq!(info.svn.as_deref(), Some("2.2.2"));
    assert_eq!(info.firmware_version.as_deref(), Some("4.2.0"));
    assert_eq!(info.installed_applications, Some(0));
    assert_eq!(info.free_non_volatile_memory, Some(162_256));
    assert_eq!(info.free_volatile_memory, Some(2_953));
    assert_eq!(info.ts102241_version.as_deref(), Some("9.2.0"));
    assert_eq!(info.global_platform_version.as_deref(), Some("2.3.0"));
    assert_eq!(info.category, Some(0));
    assert_eq!(info.pp_version.as_deref(), Some("1.0.0"));
    assert_eq!(
        info.sas_accreditation_number.as_deref(),
        Some("ED-ZI-UP-0826")
    );
    assert_eq!(
        info.rsp_capabilities,
        vec!["additionalProfile", "testProfileSupport"]
    );
    assert_eq!(info.forbidden_profile_policy_rules, vec!["ppr1"]);
    assert_eq!(
        info.ci_key_ids_for_verification,
        vec!["81370F5125D0B1D408D4C3B232E6D25E795BEBFB"]
    );
    assert_eq!(
        info.ci_key_ids_for_signing,
        vec!["81370F5125D0B1D408D4C3B232E6D25E795BEBFB"]
    );
    assert_eq!(
        info.uicc_capabilities,
        vec![
            "usimSupport",
            "isimSupport",
            "csimSupport",
            "akaMilenage",
            "akaCave",
            "akaTuak128",
            "akaTuak256",
            "gbaAuthenUsim",
            "gbaAuthenISim",
            "mbmsAuthenUsim",
            "eapClient",
            "javacard",
            "berTlvFileSupport",
            "dfLinkSupport",
            "catTp",
            "getIdentity",
            "profile-a-x25519",
            "profile-b-p256",
        ]
    );
    assert_eq!(info.populated_fields(), 16);
}

/// The second chip differs only in how much memory is left, which is the
/// field an operator about to download a profile is looking for.
#[test]
fn the_other_chip_reports_its_own_free_memory() {
    let info = parse_euicc_info2(&bytes(&clean(INFO2_CSL))).expect("info2");
    assert_eq!(info.free_non_volatile_memory, Some(152_521));
    assert_eq!(info.free_volatile_memory, Some(4_090));
    assert_eq!(info.populated_fields(), 16);
}

/// Half a response is not a small answer, it is a wrong one.
#[test]
fn a_truncated_euicc_info2_is_an_error_not_a_thin_result() {
    let full = bytes(&clean(INFO2_SAILY));
    assert!(parse_euicc_info2(&full[..60]).is_err());
}

#[test]
fn the_notification_list_decodes_with_its_operations() {
    let list =
        parse_notification_metadata_list(&bytes(&clean(NOTIFICATIONS_SAILY))).expect("list");
    assert_eq!(list.len(), 4);
    assert_eq!(
        list.iter().map(|row| row.sequence_number).collect::<Vec<_>>(),
        vec![0, 1, 2, 3]
    );
    assert_eq!(
        list.iter()
            .map(|row| row.operations.join("+"))
            .collect::<Vec<_>>(),
        vec!["install", "delete", "install", "enable"]
    );
    assert!(list
        .iter()
        .all(|row| row.address == "wbg.prod.ondemandconnectivity.com"));
    assert_eq!(list[0].iccid.as_deref(), Some("89852351225042214201"));
}

#[test]
fn the_other_chip_has_one_notification_of_its_own() {
    let list =
        parse_notification_metadata_list(&bytes(&clean(NOTIFICATIONS_CSL))).expect("list");
    assert_eq!(list.len(), 1);
    assert_eq!(list[0].sequence_number, 0);
    assert_eq!(list[0].address, "csl.prod.ondemandconnectivity.com");
    assert_eq!(list[0].iccid.as_deref(), Some("8985200014632179571"));
}

/// The card refusing a search is a reported error, not an empty list. An
/// empty list would read as "nothing pending" and be wrong.
#[test]
fn a_refused_search_is_not_an_empty_list() {
    assert_eq!(
        parse_pending_notifications(&bytes(RETRIEVE_REFUSED)),
        Err(Es10cError::NotificationsUnavailable { code: 127 })
    );
}

/// The whole pending notification list off 867018069514820: 3333 bytes,
/// which the card hands over in fifteen `61xx` rounds. Captured verbatim.
const PENDING_SAILY: &str = "BF2B820D00A0820CFCBF3781C2BF277C8010F2E53202F2314318B9D0EBD1D11EF87EBF2F36800100810207800C217762\
    672E70726F642E6F6E64656D616E64636F6E6E65637469766974792E636F6D5A0A98583215220524122410060E2B0601\
    040181F80201815C646502A21FA01D4F10A0000005591010FFFFFFFF890000120004093007A00530038001005F37402F\
    1D7FC2943917ECBD4C49E10161AB3E9490E53A6D247231BE974AF2E12068F25A9EDDEE897A744635BD27D1E195932C92\
    10669BB4E179706A0E3F0B4636DA94308205B4BF2F36800101810204100C217762672E70726F642E6F6E64656D616E64\
    636F6E6E65637469766974792E636F6D5A0A985832152205241224105F3740A0622EE3E090975C91D0B3A5F2605350B2\
    448B375A5B0F4D3476689C28F6D38D065B1113FC6759C4A9DC8CBC22F357496BF2C89BB7FEC6208BF2BF2C13C1E4FF30\
    820239308201E0A00302010202110089086030202200000026000178339201300A06082A8648CE3D0403023079310B30\
    0906035504061302434E31283026060355040A131F45617374636F6D706561636520546563686E6F6C6F677920436F2E\
    2C4C746431153013060355040B130C45617374636F6D7065616365312930270603550403132045617374636F6D706561\
    63652E45554D2E436F6E73756D65722E5A68756861693020170D3236303631333032353835305A180F39393939313233\
    313233353935395A305531283026060355040A131F45617374636F6D706561636520546563686E6F6C6F677920436F2E\
    2C4C74643129302706035504051320383930383630333032303232303030303030323630303031373833333932343030\
    59301306072A8648CE3D020106082A8648CE3D030107034200049D9BFE5A4A1E21F2EFE6525C7B36217C81F38216AD51\
    8B96584FFCB6940E0E461B15668B04363C8C4ECBD470D7FA283BC3A22EE1715969F9348D029946DA2958A36B3069301F\
    0603551D230418301680143A6B2CA4585D9C95C5947ABDD3BB1B0169ACEF72301D0603551D0E0416041499B0EB0F926C\
    0835A94EA4F7987D989DD3611617300E0603551D0F0101FF04040302078030170603551D200101FF040D300B30090607\
    67811201020101300A06082A8648CE3D04030203470030440220170673F6215275E7F1D2829B72567D3607D427B651BF\
    CE6D718F84D8725C247A02204A6DEA07F07F346D3972ADEB730268F2C01DBF2984BE8DAD1CC47682064C468C308202F7\
    3082029EA00302010202105986939CF376FDD1013E8F1529307748300A06082A8648CE3D040302304431183016060355\
    040A130F47534D204173736F63696174696F6E312830260603550403131F47534D204173736F63696174696F6E202D20\
    5253503220526F6F7420434931301E170D3139313132313030303030305A170D3439313132303233353935395A307931\
    0B300906035504061302434E31283026060355040A131F45617374636F6D706561636520546563686E6F6C6F67792043\
    6F2E2C4C746431153013060355040B130C45617374636F6D7065616365312930270603550403132045617374636F6D70\
    656163652E45554D2E436F6E73756D65722E5A68756861693059301306072A8648CE3D020106082A8648CE3D03010703\
    4200042FB0E6C5292E90321B0F1C69E88D5C3CF8C0E5F79E5C6F2C588552A74AB894AA0B4414B349F4616CDDE9629DCA\
    F955B7C39712EEAF46101AF686D44F8B2DFC07A382013B30820137301D0603551D0E041604143A6B2CA4585D9C95C594\
    7ABDD3BB1B0169ACEF7230120603551D130101FF040830060101FF02010030170603551D200101FF040D300B30090607\
    67811201020102304D0603551D1F044630443042A040A03E863C687474703A2F2F67736D612D63726C2E73796D617574\
    682E636F6D2F6F66666C696E6563612F67736D612D727370322D726F6F742D6369312E63726C300E0603551D0F0101FF\
    04040302010630510603551D1E0101FF04473045A0433041A43F303D31283026060355040A131F45617374636F6D7065\
    61636520546563686E6F6C6F677920436F2E2C4C74643111300F06035504051308383930383630333030160603551D11\
    040F300D880B2B06010401838A1D010202301F0603551D2304183016801481370F5125D0B1D408D4C3B232E6D25E795B\
    EBFB300A06082A8648CE3D040302034700304402203C5FD987D7CABB5172489647A8563016BE05DE44B06CE285A2D679\
    0BCDF408CA02202272886D929FC9434153068C8BE3521BC371E9101A18A56E9BAA7DD936592A1EBF3781C2BF277C8010\
    7F8AEDA1660948A98CCD5E819455C192BF2F36800102810207800C217762672E70726F642E6F6E64656D616E64636F6E\
    6E65637469766974792E636F6D5A0A98583215220524122410060E2B0601040181F80201815C646502A21FA01D4F10A0\
    000005591010FFFFFFFF890000120004093007A00530038001005F37408FF2164785CEB8FE92AAAB080FECE43ECA9A21\
    2C862CD6F943527CDBB7322BC6C04107FB78E21B7823D6DFD94CFAC61865899E169CCBAFD8D49D237C13CA266D308205\
    B4BF2F36800103810206400C217762672E70726F642E6F6E64656D616E64636F6E6E65637469766974792E636F6D5A0A\
    985832152205241224105F3740DD508DB2942F3340ED121BD3B3AF4FE28303A56CBE40B19D8BB5453E9991CB56E7A12C\
    D6BC48677BF25C05B9051010E70F19D8B2B0E3077B1B55D47A749B8D0830820239308201E0A003020102021100890860\
    30202200000026000178339201300A06082A8648CE3D0403023079310B300906035504061302434E3128302606035504\
    0A131F45617374636F6D706561636520546563686E6F6C6F677920436F2E2C4C746431153013060355040B130C456173\
    74636F6D7065616365312930270603550403132045617374636F6D70656163652E45554D2E436F6E73756D65722E5A68\
    756861693020170D3236303631333032353835305A180F39393939313233313233353935395A30553128302606035504\
    0A131F45617374636F6D706561636520546563686E6F6C6F677920436F2E2C4C74643129302706035504051320383930\
    38363033303230323230303030303032363030303137383333393234303059301306072A8648CE3D020106082A8648CE\
    3D030107034200049D9BFE5A4A1E21F2EFE6525C7B36217C81F38216AD518B96584FFCB6940E0E461B15668B04363C8C\
    4ECBD470D7FA283BC3A22EE1715969F9348D029946DA2958A36B3069301F0603551D230418301680143A6B2CA4585D9C\
    95C5947ABDD3BB1B0169ACEF72301D0603551D0E0416041499B0EB0F926C0835A94EA4F7987D989DD3611617300E0603\
    551D0F0101FF04040302078030170603551D200101FF040D300B3009060767811201020101300A06082A8648CE3D0403\
    0203470030440220170673F6215275E7F1D2829B72567D3607D427B651BFCE6D718F84D8725C247A02204A6DEA07F07F\
    346D3972ADEB730268F2C01DBF2984BE8DAD1CC47682064C468C308202F73082029EA00302010202105986939CF376FD\
    D1013E8F1529307748300A06082A8648CE3D040302304431183016060355040A130F47534D204173736F63696174696F\
    6E312830260603550403131F47534D204173736F63696174696F6E202D205253503220526F6F7420434931301E170D31\
    39313132313030303030305A170D3439313132303233353935395A3079310B300906035504061302434E312830260603\
    55040A131F45617374636F6D706561636520546563686E6F6C6F677920436F2E2C4C746431153013060355040B130C45\
    617374636F6D7065616365312930270603550403132045617374636F6D70656163652E45554D2E436F6E73756D65722E\
    5A68756861693059301306072A8648CE3D020106082A8648CE3D030107034200042FB0E6C5292E90321B0F1C69E88D5C\
    3CF8C0E5F79E5C6F2C588552A74AB894AA0B4414B349F4616CDDE9629DCAF955B7C39712EEAF46101AF686D44F8B2DFC\
    07A382013B30820137301D0603551D0E041604143A6B2CA4585D9C95C5947ABDD3BB1B0169ACEF7230120603551D1301\
    01FF040830060101FF02010030170603551D200101FF040D300B3009060767811201020102304D0603551D1F04463044\
    3042A040A03E863C687474703A2F2F67736D612D63726C2E73796D617574682E636F6D2F6F66666C696E6563612F6773\
    6D612D727370322D726F6F742D6369312E63726C300E0603551D0F0101FF04040302010630510603551D1E0101FF0447\
    3045A0433041A43F303D31283026060355040A131F45617374636F6D706561636520546563686E6F6C6F677920436F2E\
    2C4C74643111300F06035504051308383930383630333030160603551D11040F300D880B2B06010401838A1D01020230\
    1F0603551D2304183016801481370F5125D0B1D408D4C3B232E6D25E795BEBFB300A06082A8648CE3D04030203470030\
    4402203C5FD987D7CABB5172489647A8563016BE05DE44B06CE285A2D6790BCDF408CA02202272886D929FC943415306\
    8C8BE3521BC371E9101A18A56E9BAA7DD936592A1E";

/// Both shapes in one list: two `ProfileInstallationResult` entries and
/// two `OtherSignedNotification` entries, which are a tagged structure and
/// a plain SEQUENCE respectively.
#[test]
fn pending_notifications_carry_their_signed_payloads() {
    let raw = bytes(PENDING_SAILY);
    let pending = parse_pending_notifications(&raw).expect("pending");
    assert_eq!(pending.len(), 4);
    assert_eq!(
        pending
            .iter()
            .map(|entry| entry.metadata.sequence_number)
            .collect::<Vec<_>>(),
        vec![0, 1, 2, 3]
    );
    assert_eq!(
        pending
            .iter()
            .map(|entry| entry.installation_result)
            .collect::<Vec<_>>(),
        vec![true, false, true, false]
    );
    assert_eq!(
        pending
            .iter()
            .map(|entry| entry.metadata.operations.join("+"))
            .collect::<Vec<_>>(),
        vec!["install", "delete", "install", "enable"]
    );
    // The payload is what ES9+ has to receive, so it has to be the entry
    // verbatim, tag included, and not a re-encoding of the parts.
    for entry in &pending {
        assert!(entry.payload.len() > 100, "payload is the signed structure");
        let needle: Vec<u8> = entry.payload.clone();
        assert!(
            raw.windows(needle.len()).any(|window| window == needle),
            "payload must be a slice of what the card sent"
        );
    }
    assert!(pending[0].payload.starts_with(&[0xbf, 0x37]));
    assert!(pending[1].payload.starts_with(&[0x30]));
}

// ---- the download half ---------------------------------------------
//
// A real BoundProfilePackage only exists once an SM-DP+ has released one, and
// releasing one is irreversible. So the packages here are built, and the
// assertions are about the shape the eUICC is entitled to expect.

/// A `StoreMetadataRequest` whose `profilePolicyRules` asserts ppr1.
///
/// BIT STRING `03 02 06 40` — two bytes, six unused bits, and `0100 0000`
/// sets bit 1, which is `ppr1`: "disabling of this profile is not
/// allowed". On hardware nobody can reach, that bit costs a slot forever.
const METADATA_WITH_PPR1: &str = "BF252A \
                                  5A0A 98882119002200140268 \
                                  910B 542D4D6F62696C65205553 \
                                  9208 545F4D6F62696C65 \
                                  950102 \
                                  99020640";

#[test]
fn metadata_names_the_policy_rules_that_would_be_installed() {
    let metadata =
        parse_profile_metadata(&bytes(&clean(METADATA_WITH_PPR1))).expect("metadata");
    assert_eq!(metadata.policy_rules, vec!["ppr1".to_string()]);
    assert_eq!(metadata.irreversible_policy_rules(), vec!["ppr1".to_string()]);
    assert_eq!(metadata.service_provider_name.as_deref(), Some("T-Mobile US"));
    assert_eq!(metadata.profile_name.as_deref(), Some("T_Mobile"));
    assert_eq!(metadata.class, Some(2));
}

/// Metadata with no `99` at all is the ordinary case, and it has to read
/// as "no rules" rather than as a decode failure. A parser that errored
/// here would refuse every profile that is safe to install.
#[test]
fn metadata_without_policy_rules_is_not_an_error() {
    let raw = clean(METADATA_WITH_PPR1)
        .replace("99020640", "")
        .replacen("BF252A", "BF2526", 1);
    let metadata = parse_profile_metadata(&bytes(&raw)).expect("metadata");
    assert!(metadata.policy_rules.is_empty());
    assert!(metadata.irreversible_policy_rules().is_empty());
}

/// `pprUpdateControl` is bit 0 and is not one of the two that pin a
/// profile permanently, so it must not trip the refusal.
#[test]
fn ppr_update_control_alone_is_not_irreversible() {
    let raw = clean(METADATA_WITH_PPR1).replace("99020640", "99020680");
    let metadata = parse_profile_metadata(&bytes(&raw)).expect("metadata");
    assert_eq!(metadata.policy_rules, vec!["pprUpdateControl".to_string()]);
    assert!(metadata.irreversible_policy_rules().is_empty());
}

/// Five unused bits rather than six: bit 2 only counts as set when the
/// BIT STRING says three of its bits are significant.
#[test]
fn ppr2_is_refused_as_well() {
    let raw = clean(METADATA_WITH_PPR1).replace("99020640", "99020520");
    let metadata = parse_profile_metadata(&bytes(&raw)).expect("metadata");
    assert_eq!(metadata.irreversible_policy_rules(), vec!["ppr2".to_string()]);
}

/// A Bound Profile Package with two `88` elements and three `86` ones,
/// which is the shape of every real one: a secure channel request, the
/// ISD-P configuration, the metadata, then the profile itself.
fn bound_profile_package(second_87: bool) -> Vec<u8> {
    let secure_channel = wrap(&[0xbf, 0x23], &filler(90));
    let first_87 = wrap(&[0xa0], &wrap(&[0x87], &filler(16)));
    let sequence_88 = wrap(
        &[0xa1],
        &[wrap(&[0x88], &filler(40)), wrap(&[0x88], &filler(300))].concat(),
    );
    let second = if second_87 {
        wrap(&[0xa2], &wrap(&[0x87], &filler(16)))
    } else {
        Vec::new()
    };
    let sequence_86 = wrap(
        &[0xa3],
        &[
            wrap(&[0x86], &filler(700)),
            wrap(&[0x86], &filler(1024)),
            wrap(&[0x86], &filler(33)),
        ]
        .concat(),
    );
    wrap(
        &[0xbf, 0x36],
        &[secure_channel, first_87, sequence_88, second, sequence_86].concat(),
    )
}

#[test]
fn a_bound_profile_package_splits_the_way_the_card_expects() {
    let bpp = bound_profile_package(false);
    let segments = bound_profile_package_segments(&bpp).expect("segments");
    let labels: Vec<&str> = segments.iter().map(|s| s.label.as_str()).collect();
    assert_eq!(
        labels,
        vec![
            "header+initialiseSecureChannelRequest",
            "firstSequenceOf87",
            "sequenceOf88 header",
            "88[0]",
            "88[1]",
            "sequenceOf86 header",
            "86[0]",
            "86[1]",
            "86[2]",
        ]
    );
    // Concatenating the segments back has to reproduce the package byte
    // for byte. Anything else means a byte was dropped or sent twice, and
    // inside a secure channel either one reads as a security error.
    let rebuilt: Vec<u8> = segments.iter().flat_map(|s| s.bytes.clone()).collect();
    assert_eq!(rebuilt, bpp);
}

/// Only the second sequence of 87 may be missing, and nothing may stand out of its
/// place.
#[test]
fn a_package_is_whole_and_in_order() {
    let whole = "BF3619 BF2302AABB A003870111 A103880121 A203870112 A303860131";
    let labels: Vec<String> = bound_profile_package_segments(&bytes(whole))
        .expect("segments")
        .into_iter()
        .map(|segment| segment.label)
        .collect();
    assert_eq!(
        labels,
        [
            "header+initialiseSecureChannelRequest",
            "firstSequenceOf87",
            "sequenceOf88 header",
            "88[0]",
            "secondSequenceOf87",
            "sequenceOf86 header",
            "86[0]",
        ]
    );
    for missing in [
        // The second sequence of 87 does not stand for the first.
        "BF3614 BF2302AABB A103880121 A203870112 A303860131",
        "BF360F BF2302AABB A103880121 A303860131",
        "BF360F BF2302AABB A003870111 A303860131",
        "BF360F BF2302AABB A003870111 A103880121",
        "BF3605 BF2302AABB",
    ] {
        assert_eq!(
            bound_profile_package_segments(&bytes(missing)),
            Err(Es10cError::MissingField { name: "boundProfilePackage element" }),
            "{missing}"
        );
    }
    for (misplaced, expected, actual) in [
        (
            "BF3619 BF2302AABB A203870112 A103880121 A003870111 A303860131",
            vec![0xa0],
            0xa2,
        ),
        ("BF3614 BF2302AABB A103880121 A003870111 A303860131", vec![0xa0], 0xa1),
        (
            "BF3619 BF2302AABB A003870111 A003870111 A103880121 A303860131",
            vec![0xa1],
            0xa0,
        ),
        (
            "BF3619 BF2302AABB A003870111 A103880121 A303860131 A203870112",
            vec![],
            0xa2,
        ),
    ] {
        assert_eq!(
            bound_profile_package_segments(&bytes(misplaced)),
            Err(Es10cError::UnexpectedTag { expected, actual: vec![actual] }),
            "{misplaced}"
        );
    }
    // What no package holds is named before anything is said of the order.
    assert_eq!(
        bound_profile_package_segments(&bytes("BF360F BF2302AABB A103880121 A403870112")),
        Err(Es10cError::UnexpectedTag {
            expected: vec![0xa0, 0xa1, 0xa2, 0xa3],
            actual: vec![0xa4]
        })
    );
    assert_eq!(
        bound_profile_package_segments(&bytes("BF360E BF2302AABB A103880121 A3028601")),
        Err(Es10cError::Truncated)
    );
}

#[test]
fn the_optional_second_sequence_of_87_is_carried_when_present() {
    let bpp = bound_profile_package(true);
    let segments = bound_profile_package_segments(&bpp).expect("segments");
    assert!(segments.iter().any(|s| s.label == "secondSequenceOf87"));
    let rebuilt: Vec<u8> = segments.iter().flat_map(|s| s.bytes.clone()).collect();
    assert_eq!(rebuilt, bpp);
}

/// Every segment then goes through the `STORE DATA` chain. The
/// big `86` elements are what make it a chain rather than a single APDU.
#[test]
fn the_segments_of_a_package_need_a_multi_block_store_data_chain() {
    let bpp = bound_profile_package(false);
    let segments = bound_profile_package_segments(&bpp).expect("segments");
    let chains: Vec<usize> = segments
        .iter()
        .map(|segment| store_data_chain(&segment.bytes).expect("chain").len())
        .collect();
    let blocks: usize = chains.iter().sum();
    assert!(blocks > segments.len(), "at least one segment spans blocks");
    let longest = chains.iter().copied().max().unwrap_or(0);
    assert!(
        longest >= 5,
        "the 1024-byte element needs five blocks, got {longest}"
    );
}

/// A package missing the mandatory `sequenceOf86` is refused before a
/// single byte reaches the card. Half a package installs nothing and
/// leaves the chip holding an open secure channel.
#[test]
fn an_incomplete_package_is_refused_before_anything_is_sent() {
    let bpp = bound_profile_package(false);
    let truncated = &bpp[..bpp.len() - 1800];
    assert!(bound_profile_package_segments(truncated).is_err());
}

#[test]
fn authenticate_server_carries_the_credentials_verbatim() {
    let signed1 = bytes("300C 8004 AABBCCDD 8104 11223344");
    let signature1 = bytes("5F3708 0102030405060708");
    let ci_pkid = bytes("0403 AABBCC");
    let certificate = bytes("3006 0201 07 0201 08");
    let payload = authenticate_server_payload(
        &signed1,
        &signature1,
        &ci_pkid,
        &certificate,
        Some("QQ111-22222"),
        [0x86, 0x94, 0x27, 0x04],
    )
    .expect("payload");
    assert_eq!(&payload[..2], &[0xbf, 0x38]);
    for part in [&signed1, &signature1, &ci_pkid, &certificate] {
        assert!(
            payload.windows(part.len()).any(|window| window == &part[..]),
            "credential must travel byte for byte"
        );
    }
    // ctxParams1: A0 { 80 matchingId, A1 { 80 tac, A1 (empty) } }
    let expected_context =
        bytes("A017 800B 51513131312D3232323232 A108 800486942704 A100");
    assert!(payload
        .windows(expected_context.len())
        .any(|window| window == expected_context.as_slice()));
}

#[test]
fn a_matching_id_is_optional_in_the_context() {
    let payload = authenticate_server_payload(
        &bytes("3003 800100"),
        &bytes("5F3701 00"),
        &bytes("040100"),
        &bytes("3003 020100"),
        None,
        [0x86, 0x94, 0x27, 0x04],
    )
    .expect("payload");
    let expected_context = bytes("A00A A108 800486942704 A100");
    assert!(payload
        .windows(expected_context.len())
        .any(|window| window == expected_context.as_slice()));
}

#[test]
fn the_tac_is_the_first_eight_digits_of_the_modules_own_imei() {
    assert_eq!(
        tac_from_imei("867018069514820").expect("tac"),
        [0x86, 0x70, 0x18, 0x06]
    );
    assert_eq!(tac_from_imei("86701"), Err(Es10cError::InvalidImei));
    assert_eq!(tac_from_imei("86701806"), Err(Es10cError::InvalidImei));
    assert_eq!(tac_from_imei("86701806951482012"), Err(Es10cError::InvalidImei));
    assert_eq!(tac_from_imei("8670180695148201"), tac_from_imei("867018069514820"));
    assert_eq!(tac_from_imei("86701806951482x"), Err(Es10cError::InvalidImei));
}

/// A refusal by the card is a well formed response. Left unread it would
/// be base64'd and posted, and the SM-DP+ would answer with a complaint
/// about its own input rather than about this chip.
#[test]
fn an_authenticate_server_refusal_is_read_as_a_refusal() {
    assert_eq!(
        parse_authenticate_server_response(&bytes("BF3805 A103 810101")),
        Err(Es10cError::AuthenticationRefused {
            code: 1,
            reason: "invalidCertificate",
        })
    );
}

#[test]
fn an_authenticate_server_success_is_returned_byte_for_byte() {
    let response = bytes("BF3806 A004 80020102 FFFF");
    let carried = parse_authenticate_server_response(&response).expect("ok");
    // Trailing padding a modem added is not part of the answer.
    assert_eq!(carried, bytes("BF3806 A004 80020102"));
}

#[test]
fn a_prepare_download_refusal_names_its_code() {
    assert_eq!(
        parse_prepare_download_response(&bytes("BF2105 A103 810105")),
        Err(Es10cError::DownloadRefused {
            code: 5,
            reason: "invalidTransactionId",
        })
    );
}

#[test]
fn a_confirmation_code_is_only_required_when_the_server_says_so() {
    // SmdpSigned2 ::= SEQUENCE { transactionId [0], ccRequiredFlag BOOLEAN }
    assert_eq!(
        confirmation_code_required(&bytes("3009 8004 AABBCCDD 0101FF")),
        Ok(true)
    );
    assert_eq!(
        confirmation_code_required(&bytes("3009 8004 AABBCCDD 010100")),
        Ok(false)
    );
    assert_eq!(
        smdp_signed2_transaction_id(&bytes("3009 8004 AABBCCDD 010100")),
        Ok(vec![0xaa, 0xbb, 0xcc, 0xdd])
    );
}

#[test]
fn prepare_download_carries_the_hash_only_when_there_is_one() {
    let without = prepare_download_payload(
        &bytes("3003 800100"),
        &bytes("5F3701 00"),
        &bytes("3003 020100"),
        None,
    )
    .expect("payload");
    let with = prepare_download_payload(
        &bytes("3003 800100"),
        &bytes("5F3701 00"),
        &bytes("3003 020100"),
        Some(&[0x11; 32]),
    )
    .expect("payload");
    assert_eq!(with.len(), without.len() + 34);
    assert!(with
        .windows(34)
        .any(|window| window[0] == 0x04 && window[1] == 0x20));
}

/// The success case. `finalResult` is `A2 { A0 ... }`, and the whole
/// `BF37` is also the notification the SM-DP+ has to be told about.
#[test]
fn an_installation_result_reports_success_and_the_notification_to_deliver() {
    let response = bytes(
        "BF372B BF2728 \
         8004AABBCCDD \
         BF2F19 800103 81020780 0C10 736D64702E6578616D706C652E636F6D \
         A204 A0020500",
    );
    let result = parse_installation_result(&response).expect("result");
    assert!(result.success);
    assert_eq!(result.sequence_number, Some(3));
    assert_eq!(result.notification, response);
    assert!(result.error_reason.is_none());
}

#[test]
fn a_failed_installation_names_the_command_and_the_reason() {
    let response = bytes(
        "BF372F BF272C \
         8004AABBCCDD \
         BF2F19 800104 81020780 0C10 736D64702E6578616D706C652E636F6D \
         A208 A106 800105 81010A",
    );
    let result = parse_installation_result(&response).expect("result");
    assert!(!result.success);
    assert_eq!(result.bpp_command.as_deref(), Some("loadProfileElements"));
    assert_eq!(
        result.error_reason.as_deref(),
        Some("installFailedDueToInsufficientMemoryForProfile")
    );
}

#[test]
fn removing_a_notification_asks_for_it_by_sequence_number() {
    assert_eq!(remove_notification_payload(3), bytes("BF3003 800103"));
    assert_eq!(remove_notification_payload(300), bytes("BF3004 8002012C"));
    assert_eq!(
        parse_remove_notification_response(&bytes("BF3003 800100")),
        Ok(0)
    );
    // 1 is "nothing to delete", which is not the same as removed.
    assert_eq!(
        parse_remove_notification_response(&bytes("BF3003 800101")),
        Ok(1)
    );
}

#[test]
fn cancelling_a_session_states_why() {
    let payload =
        cancel_session_payload(&[0xaa, 0xbb, 0xcc, 0xdd], CancelSessionReason::PprNotAllowed);
    assert_eq!(payload, bytes("BF4109 8004AABBCCDD 810103"));
    assert_eq!(CancelSessionReason::PprNotAllowed.label(), "pprNotAllowed");
    assert_eq!(
        parse_cancel_session_response(&bytes("BF410B A009 8004AABBCCDD 810100")),
        Ok(bytes("BF410B A009 8004AABBCCDD 810100"))
    );
}

/// `DeleteProfileRequest` is a CHOICE, not a SEQUENCE: the ICCID sits
/// directly in the body, with no `a0` list around it. Enable and disable
/// next door DO use the list, so a delete built by copying one of them is
/// wrong in a way that only a real card reports.
#[test]
fn a_delete_carries_the_iccid_without_the_list_wrapper() {
    let request = delete_profile_payload("8985200014632179571").expect("payload");
    assert_eq!(&request[..2], &[0xbf, 0x33], "DeleteProfileRequest is [51]");
    // Body starts at index 3 (two tag bytes and one length byte).
    assert_eq!(request[3], 0x5a, "the ICCID follows the length directly");
    let enable = enable_profile_payload("8985200014632179571", true).expect("payload");
    assert_eq!(enable[3], 0xa0, "enable really does wrap it, which is the trap");
}

#[test]
fn a_nickname_is_carried_as_utf8_under_its_own_tag() {
    let request = set_nickname_payload("8985200014632179571", "bench").expect("payload");
    assert_eq!(&request[..2], &[0xbf, 0x29], "SetNicknameRequest is [41]");
    assert!(
        request.windows(5).any(|window| window == b"bench"),
        "the nickname is not in the request"
    );
    let tag_at = request.iter().position(|byte| *byte == 0x90).expect("nickname tag");
    assert_eq!(request[tag_at + 1], 5, "length precedes the text");
}

/// Clearing a name sends an empty field, not no field: a card may answer
/// `undefined error (127)` to a SetNickname carrying no `profileNickname`.
#[test]
fn clearing_a_nickname_sends_an_empty_field_rather_than_none() {
    let request = set_nickname_payload("8985200014632179571", "  ").expect("payload");
    let tag_at = request
        .iter()
        .position(|byte| *byte == TAG_NICKNAME)
        .expect("the nickname field must be present even when empty");
    assert_eq!(request[tag_at + 1], 0, "a cleared nickname has length zero");
}

#[test]
fn a_nickname_past_the_limit_is_refused_rather_than_cut() {
    let long = "x".repeat(65);
    assert!(matches!(
        set_nickname_payload("8985200014632179571", &long),
        Err(Es10cError::NicknameTooLong { bytes: 65 })
    ));
}

/// The refusal an operator will actually meet: a card will not delete the
/// profile it is running on.
#[test]
fn deleting_the_running_profile_is_refused_by_name() {
    let response = [0xbf, 0x33, 0x03, 0x80, 0x01, 0x02];
    match parse_delete_result(&response) {
        Err(Es10cError::Refused { code: 2, reason }) => {
            assert!(reason.contains("disabled state"), "reason = {reason}");
        }
        other => panic!("expected a named refusal, got {other:?}"),
    }
}

#[test]
fn a_successful_delete_and_rename_read_as_success() {
    assert!(parse_delete_result(&[0xbf, 0x33, 0x03, 0x80, 0x01, 0x00]).is_ok());
    assert!(parse_set_nickname_result(&[0xbf, 0x29, 0x03, 0x80, 0x01, 0x00]).is_ok());
}

#[test]
fn a_rename_against_a_missing_iccid_is_reported() {
    match parse_set_nickname_result(&[0xbf, 0x29, 0x03, 0x80, 0x01, 0x01]) {
        Err(Es10cError::Refused { code: 1, reason }) => {
            assert!(reason.contains("not found"), "reason = {reason}");
        }
        other => panic!("expected a refusal, got {other:?}"),
    }
}
