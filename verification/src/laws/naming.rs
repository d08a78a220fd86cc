//! What numbers and outcomes are called.

use crate::aka::OutcomeModel;
use crate::es10c::{
    authenticate_error_name, bpp_command_name, download_error_name, installation_error_name,
    notification_events, ppr_ids, refusal_reason, rsp_capabilities, CancelSessionReason,
    ProfileCommand,
};
use crate::json::{json_char, json_chars, json_string};
use crate::lease::ModemPriority;
use crate::port::TransportKind;
use crate::report::Registration;
use crate::result::{result_fault, result_in, ResultError};
use crate::usb::UsbRecovery;
use crate::ussd::UssdStage;
use crate::wire::TlvModel;
use vstd::prelude::*;

verus! {

/// Why a chip would not take a server, and why it would not start a download,
/// by the number it gives.
pub proof fn law_each_refusal_of_a_server_has_its_number(code: u64)
    ensures
        authenticate_error_name(code)@ == match code {
            1 => "invalidCertificate"@,
            2 => "invalidSignature"@,
            3 => "unsupportedCurve"@,
            4 => "noSessionContext"@,
            5 => "invalidOid"@,
            6 => "euiccChallengeMismatch"@,
            7 => "ciPKUnknown"@,
            127 => "undefinedError"@,
            _ => "unknown error code"@,
        },
        download_error_name(code)@ == match code {
            1 => "invalidCertificate"@,
            2 => "invalidSignature"@,
            3 => "unsupportedCurve"@,
            4 => "noSessionContext"@,
            5 => "invalidTransactionId"@,
            127 => "undefinedError"@,
            _ => "unknown error code"@,
        },
{
}

/// At which command an installation failed, and why, by the numbers a chip
/// gives.
pub proof fn law_each_failure_of_an_installation_has_its_number(code: u64)
    ensures
        bpp_command_name(code)@ == match code {
            0 => "initialiseSecureChannel"@,
            1 => "configureISDP"@,
            2 => "storeMetadata"@,
            3 => "storeMetadata2"@,
            4 => "replaceSessionKeys"@,
            5 => "loadProfileElements"@,
            _ => "unknown BPP command"@,
        },
        installation_error_name(code)@ == match code {
            1 => "incorrectInputValues"@,
            2 => "invalidSignature"@,
            3 => "invalidTransactionId"@,
            4 => "unsupportedCrtValues"@,
            5 => "unsupportedRemoteOperationType"@,
            6 => "unsupportedProfileClass"@,
            7 => "scp03tStructureError"@,
            8 => "scp03tSecurityError"@,
            9 => "installFailedDueToIccidAlreadyExistsOnEuicc"@,
            10 => "installFailedDueToInsufficientMemoryForProfile"@,
            11 => "installFailedDueToInterruption"@,
            12 => "installFailedDueToPEProcessingError"@,
            13 => "installFailedDueToDataMismatch"@,
            14 => "testProfileInstallFailedDueToInvalidNaaKey"@,
            15 => "pprNotAllowed"@,
            127 => "installFailedDueToUnknownError"@,
            _ => "unknown error reason"@,
        },
{
}

/// Why a chip would not carry an order out depends on the order: what is not
/// enabled cannot be disabled, and what is not disabled can be neither enabled
/// nor deleted.
pub proof fn law_each_refusal_of_an_order_has_its_number(code: u8)
    ensures
        refusal_reason(ProfileCommand::Enable, code)@ == match code {
            1 => "ICCID or AID not found"@,
            2 => "profile is not in the disabled state"@,
            3 => "disallowed by policy"@,
            4 => "wrong profile reenabled"@,
            5 => "catBusy"@,
            _ => "undefined error"@,
        },
        refusal_reason(ProfileCommand::Disable, code)@ == match code {
            1 => "ICCID or AID not found"@,
            2 => "profile is not in the enabled state"@,
            3 => "disallowed by policy"@,
            4 => "catBusy"@,
            5 => "catBusy"@,
            _ => "undefined error"@,
        },
        refusal_reason(ProfileCommand::Delete, code)@ == match code {
            1 => "ICCID or AID not found"@,
            2 => "profile is not in the disabled state"@,
            3 => "disallowed by policy"@,
            _ => "undefined error"@,
        },
        refusal_reason(ProfileCommand::SetNickname, code)@ == match code {
            1 => "ICCID or AID not found"@,
            _ => "undefined error"@,
        },
{
}

/// Why a session is ended, in words and as the number that the chip is told.
pub proof fn law_each_reason_has_its_name(reason: CancelSessionReason)
    ensures
        match reason {
            CancelSessionReason::EndUserRejection => reason.name_of()@ == "endUserRejection"@
                && reason.code_of() == 0,
            CancelSessionReason::Postponed => reason.name_of()@ == "postponed"@ && reason.code_of()
                == 1,
            CancelSessionReason::Timeout => reason.name_of()@ == "timeout"@ && reason.code_of()
                == 2,
            CancelSessionReason::PprNotAllowed => reason.name_of()@ == "pprNotAllowed"@
                && reason.code_of() == 3,
            CancelSessionReason::MetadataMismatch => reason.name_of()@ == "metadataMismatch"@
                && reason.code_of() == 4,
            CancelSessionReason::LoadBppExecutionError => reason.name_of()@
                == "loadBppExecutionError"@ && reason.code_of() == 5,
            CancelSessionReason::UndefinedReason => reason.name_of()@ == "undefinedReason"@
                && reason.code_of() == 16,
        },
{
}

/// The bits of a notification's event, of a profile's rules and of what a chip
/// can do stand in this order.
pub proof fn law_each_bit_has_its_name()
    ensures
        notification_events() == seq!["install"@, "enable"@, "disable"@, "delete"@],
        ppr_ids() == seq!["pprUpdateControl"@, "ppr1"@, "ppr2"@],
        rsp_capabilities().take(4) == seq![
            "additionalProfile"@,
            "crlSupport"@,
            "rpmSupport"@,
            "testProfileSupport"@,
        ],
{
}

/// Where a module is registered, what a dialogue has come to, how a module is
/// reached, how urgent a command is, what a card answered and how a device was
/// brought back, each in its own word.
pub proof fn law_each_outcome_has_its_word(
    registration: Registration,
    stage: UssdStage,
    kind: TransportKind,
    priority: ModemPriority,
    outcome: OutcomeModel,
    recovery: UsbRecovery,
)
    ensures
        registration.name()@ == match registration {
            Registration::NotRegistered => "not_registered"@,
            Registration::Home => "home"@,
            Registration::Searching => "searching"@,
            Registration::Denied => "denied"@,
            Registration::Unknown => "unknown"@,
            Registration::Roaming => "roaming"@,
        },
        stage.name()@ == match stage {
            UssdStage::Complete => "complete"@,
            UssdStage::NeedsReply => "needs_reply"@,
            UssdStage::Terminated => "terminated"@,
            UssdStage::OtherClient => "other_client"@,
            UssdStage::NotSupported => "not_supported"@,
            UssdStage::NetworkTimeout => "network_timeout"@,
            UssdStage::Other(_) => "other"@,
        },
        kind.name()@ == match kind {
            TransportKind::Qmi => "qmi"@,
            TransportKind::At => "at"@,
            TransportKind::Mbim => "mbim"@,
            TransportKind::Pcsc => "pcsc"@,
        },
        priority.name()@ == match priority {
            ModemPriority::Normal => "normal"@,
            ModemPriority::Aka => "aka"@,
        },
        outcome.name()@ == match outcome {
            OutcomeModel::Success { .. } => "success"@,
            OutcomeModel::SyncFailure { .. } => "sync_failure"@,
            OutcomeModel::AuthenticationFailure { .. } => "authentication_failure"@,
        },
        recovery.name()@ == match recovery {
            UsbRecovery::Reauthorized => "reauthorize"@,
            UsbRecovery::PortReset => "port_reset"@,
        },
{
}

/// The result of a request is its first two octets and the error its last two,
/// low octet first; it succeeded where all four are zero, and a refusal tells
/// both numbers.
pub proof fn law_a_request_succeeds_where_all_is_zero(a: u8, b: u8, c: u8, d: u8)
    ensures
        ({
            let answer = result_in(seq![TlvModel { kind: 0x02, value: seq![a, b, c, d] }]);
            &&& answer is Ok
            &&& answer->Ok_0.result == 256 * b + a
            &&& answer->Ok_0.error == 256 * d + c
            &&& result_fault(answer->Ok_0) is None <==> a == 0 && b == 0 && c == 0 && d == 0
            &&& a != 0 || b != 0 ==> result_fault(answer->Ok_0) == Some(
                ResultError::ModemRejected {
                    result: answer->Ok_0.result,
                    error: answer->Ok_0.error,
                },
            )
        }),
{
    let tlv = TlvModel { kind: 0x02, value: seq![a, b, c, d] };
    let keep = |t: TlvModel| t.kind == 0x02;
    reveal(Seq::filter);
    let list = seq![tlv];
    assert(list.drop_last() =~= Seq::<TlvModel>::empty());
    assert(list.drop_last().filter(keep) =~= Seq::<TlvModel>::empty());
    assert(list.filter(keep) =~= list);
}

/// Text in quotes ends where it ends: what stands between them holds no quote
/// but an escaped one, and no control character.
pub proof fn law_quoted_text_is_escaped(text: Seq<char>, c: char)
    ensures
        json_string(text.push(c)) == seq!['"'] + (json_chars(text) + json_char(c)) + seq!['"'],
        json_string(Seq::empty()) == seq!['"', '"'],
        c == '"' ==> json_char(c) == seq!['\\', '"'],
        c == '\\' ==> json_char(c) == seq!['\\', '\\'],
        c == '\n' ==> json_char(c) == seq!['\\', 'n'],
        c == '\r' ==> json_char(c) == seq!['\\', 'r'],
        c == '\t' ==> json_char(c) == seq!['\\', 't'],
        c as u32 >= 0x20 && c != '"' && c != '\\' ==> json_char(c) == seq![c],
        forall|i: int| 0 <= i < json_char(c).len() ==> (#[trigger] json_char(c)[i]) as u32 >= 0x20,
        (c as u32) < 0x20 ==> json_char(c)[0] == '\\',
{
    assert(text.push(c).drop_last() =~= text);
    assert(json_chars(Seq::<char>::empty()) =~= Seq::<char>::empty());
    assert(json_string(Seq::empty()) =~= seq!['"', '"']);
}

} // verus!
