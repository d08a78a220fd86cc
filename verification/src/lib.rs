//! Pure QMUX/QMI framing, correlation and the logic above it: modem identity,
//! registration, messages, the eSIM, authentication and the data bearer.
//!
//! The crate deliberately has no OS device dependency. An adapter owns byte I/O,
//! while this crate owns the binary invariants needed before a frame can be sent
//! or accepted, and decides what is asked next.
//!
//! Every function states in its contract what it returns, over the models that
//! the modules define: the texts, octet strings and records that values stand
//! for, and the worlds (a transport, a logical channel, a module) that answer.

pub mod aka;
pub mod at;
pub mod at_inbox;
pub mod at_sms;
pub mod ber;
pub mod cdc_wdm;
pub mod certificate;
pub mod channels;
pub mod discovery;
pub mod dms;
pub mod domain;
pub mod download;
pub mod es10c;
pub mod es9p;
pub mod fake;
pub mod http;
pub mod inbox;
pub mod isdr;
pub mod json;
pub mod laws;
pub mod lease;
pub mod nas;
pub mod octets;
pub mod pdu;
pub mod port;
pub mod primitives;
pub mod probe;
pub mod qmi_port;
pub mod report;
pub mod restart;
pub mod restore;
pub mod result;
pub mod send;
pub mod session;
pub mod text;
pub mod tty;
pub mod uim;
pub mod usb;
pub mod ussd;
pub mod wda;
pub mod wds;
pub mod wire;
pub mod wms;
pub mod wwan;

pub use aka::{
    AKA_TIMEOUT, AUTN_BYTES, AUTS_BYTES, AkaError, AkaOutcome, BasicChannel, CK_BYTES, IK_BYTES,
    KC_BYTES, RAND_BYTES, RES_MAX_BYTES, RES_MIN_BYTES, STATUS_FCP_APDU, SW_INCORRECT_MAC,
    USIM_ADF_AID_PREFIX, authenticate_apdu, classify_authenticate, csim_command, decode_hex,
    hex_upper, parse_csim_answer, selected_aid, usim_authenticate, verify_usim_selected,
};
pub use at::{
    AT_CONTROL_INTERFACE, AtError, AtExchange, MODEM_DATA_INTERFACE, first_bare_digits,
};
pub use channels::LogicalChannels;
pub use discovery::{DeviceEnumerator, DiscoveredModem, FakeEnumerator, discover};
pub use dms::{
    DeviceRevision, DeviceSerialNumbers, DmsError, GET_DEVICE_REV_ID, GET_DEVICE_SERIAL_NUMBERS,
    GET_MANUFACTURER, GET_MODEL_ID, GET_OPERATING_MODE, OperatingMode, SET_OPERATING_MODE,
    empty_request, get_manufacturer_request, get_model_request, get_operating_mode_request,
    get_revision_request, get_serial_numbers_request, parse_manufacturer, parse_model,
    parse_operating_mode, parse_revision, parse_serial_numbers, parse_set_operating_mode,
    set_operating_mode_request,
};
pub use download::{
    Acknowledgement, ActivationCode, ClientAuthentication, DownloadOutcome, DownloadRequest,
    EuiccSnapshot, HttpStep, SegmentTransfer,
};
pub use es10c::{
    BppSegment, CancelSessionReason, ConfiguredAddresses, EUICC_CHALLENGE_BYTES, Es10cError,
    EuiccInfo1, EuiccInfo2, InstallationResult, MAX_STORE_DATA_BLOCKS, MAX_STORE_DATA_BYTES,
    NotificationMetadata, PendingNotification, Profile, ProfileMetadata, STORE_DATA_BLOCK_BYTES,
    authenticate_server_payload, bound_profile_package_segments, cancel_session_payload,
    configured_addresses_payload, confirmation_code_required, euicc_challenge_payload,
    euicc_info1_payload, euicc_info2_payload, get_eid_payload, get_profiles_payload,
    list_notification_payload, parse_authenticate_server_response, parse_cancel_session_response,
    parse_configured_addresses, parse_eid_response, parse_euicc_challenge, parse_euicc_info1,
    parse_euicc_info2, parse_installation_result, parse_notification_metadata_list,
    parse_pending_notifications, parse_prepare_download_response, parse_profile_metadata,
    parse_remove_notification_response, prepare_download_payload, remove_notification_payload,
    retrieve_notifications_payload, smdp_signed2_transaction_id, store_data_chain, tac_from_imei,
};
pub use es9p::{
    ADMIN_PROTOCOL, AuthenticationStart, DEFAULT_TRUST_DIR, Es9pClient, Es9pError,
    INITIATE_AUTHENTICATION_PATH, TRUST_DIR_ENV, TrustAnchor, USER_AGENT, Verification,
    hash_confirmation_code, initiate_authentication_request, load_trust_anchors,
    parse_initiate_authentication, trust_dir, verify_server_credentials,
};
pub use fake::FakeModem;
pub use http::HttpResponse;
pub use inbox::{
    CollectedMessage, InboxPass, collect_inbound, delete_inbound, fragment_fingerprint, seen_before,
};
pub use isdr::{EsimAuthenticationInputs, EsimLocalInfo, IsdrSession};
pub use lease::{
    ArbiterWaiting, AtLease, DEFAULT_LEASE_SOCKET, DEFAULT_LEASE_TIMEOUT, LEASE_SOCKET_ENV,
    LeaseFailure, LeaseModel, MAX_LEASE_CLIENTS, MAX_LEASE_TIMEOUT, ModemArbiter, ModemPriority,
    handle_lease_request, lease_socket_path,
};
pub use nas::{
    CellLocationInfo, GET_CELL_LOCATION_INFO, GET_SERVING_SYSTEM, LteCellLocation, NasError,
    NasRegistrationState, ServingSystem, parse_cell_location, parse_serving_system,
};
pub use pdu::{PduError, encode_submit};
pub use port::{ModemPort, PortError, TransportKind, UnsupportedPort};
pub use report::{
    ModemReport, Registration, ScannedOperator, Signal, parse_cops_scan, parse_creg, parse_csq,
};
pub use restart::{
    CARD_RECOVERY_NOTE, CFUN_DISABLE_RF, CFUN_FULL, CFUN_MINIMUM, CFUN_OFFLINE, CFUN_RESET_NOTE,
    CardEvidence, CardState, ModuleRadio, RestartError, RestartReport, parse_cfun, parse_cpin,
    parse_qinistat, parse_qsimstat, restart_radio,
};
pub use restore::with_restore;
pub use result::{QmiResult, ResultError};
pub use send::{SendOutcome, send_with_plan};
pub use session::{CTL_SYNC, QmiClient, QmiTransport, SessionError, SyncRequest};
pub use tty::{TtyEntry, at_control_ports, at_port_candidates, at_port_for_qmi, usb_device_of_at};
pub use uim::{
    ApduResponse, CLOSE_LOGICAL_CHANNEL, MAX_GET_RESPONSE_ROUNDS, OPEN_LOGICAL_CHANNEL, SEND_APDU,
    UimError, parse_eid, parse_open_logical_channel, parse_send_apdu,
};
pub use usb::{
    UsbError, UsbIdentity, UsbRecovery, UsbReset, usb_device_of_qmi, usb_devnum, usb_identity,
};
pub use ussd::{
    UssdReply, UssdStage, cancel as ussd_cancel, parse_reply as parse_ussd_reply,
    request as ussd_request,
};
pub use wire::{
    AllocationError, ClientAllocationRequest, ClientAssignment, ClientId, ClientRegistry,
    ClientRegistryError, CorrelationError, MatchedTransaction, MessageId, PendingTransactions,
    QmiRequest, QmiResponse, ServiceId, Tlv, TlvLookupError, TransactionId, TransactionKey,
    WireError, decode_tlvs, encode_tlvs, unique_tlv,
};
pub use wms::{
    LIST_MESSAGES, ListedMessage, MessageMode, MessageTag, RAW_READ, RAW_SEND, RawMessage,
    StorageType, WmsError, parse_list_messages, parse_raw_read, retain_mobile_terminated,
};
