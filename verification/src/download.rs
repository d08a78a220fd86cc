//! Downloading a profile onto an eUICC.
//!
//! One ISD-R channel for the whole thing, and it has to be: an RSP session is
//! state the card holds between `AuthenticateServer` and the last block of the
//! profile package. The ES9+ half runs over HTTPS between the steps here, each
//! of which takes the server's answer and says what the server gets next.
//!
//! Installs. Does not enable. SGP.22 keeps those apart and so does this.

use crate::es10c::{
    accepted_in, authenticate_request, block_count, code_required_in, installation_in, irreversible,
    joined_segments, law_segments_are_the_package, metadata_in, notification_models, opt_octets,
    prepare_request, profile_models, segment_models, segments_in, server_context,
    signed_transaction_in, tac_in, BppSegment, CancelSessionReason, DownloadStep, Es10cFault,
    EuiccInfo1, EuiccInfo2, InstallationModel, InstallationResult, MetadataModel,
    NotificationMetadata, NotificationModel, Profile, ProfileMetadata, ProfileModel, SegmentModel,
};
use crate::es9p::{
    confirmation_hash, hash_confirmation_code, unverified, AuthenticationStart, Es9pError,
    Es9pFault, StartModel, Verification, VerificationModel,
};
use crate::isdr::{
    cancelled_on, challenge_on, eid_on, executed, holds, info1_on, info2_on, notifications_on,
    profiles_on, removed_on, IsdrSession,
};
use crate::octets::copy_of;
use crate::primitives::MAX_DIGEST_BYTES;
use crate::session::{ran, ClientModel, QmiTransport, SessionError, SessionFault};
use crate::text::{
    chars_of, hex_value, joined_by, opt_str, opt_text, owned, push_joined, read_hex_digit, texts,
};
use vstd::prelude::*;
use vstd::utf8::encode_utf8;

verus! {

// ---------------------------------------------------------------------------
// What is asked, what is answered, and what happened
// ---------------------------------------------------------------------------

/// What an activation code says.
#[derive(Clone, Debug, PartialEq, Eq)]
pub struct ActivationCode {
    /// The SM-DP+ that holds the profile.
    pub smdp_address: String,
    /// Which order it is, where the code names one.
    pub matching_id: Option<String>,
}

/// The code, by what its texts say.
#[verifier::ext_equal]
pub struct ActivationModel {
    pub smdp_address: Seq<char>,
    pub matching_id: Option<Seq<char>>,
}

impl View for ActivationCode {
    type V = ActivationModel;

    open spec fn view(&self) -> ActivationModel {
        ActivationModel {
            smdp_address: self.smdp_address@,
            matching_id: opt_text(self.matching_id),
        }
    }
}

/// What the operator asked for.
///
/// The activation code is borrowed rather than owned and is never copied into
/// the outcome: it is a one-time credential, and a value that ends up in a
/// command result ends up in a database, a log and a receipt.
pub struct DownloadRequest<'a> {
    pub activation_code: &'a ActivationCode,
    pub confirmation_code: Option<&'a str>,
    /// The module's own IMEI. Only its first eight digits travel, as the type
    /// allocation code inside `DeviceInfo`.
    pub imei: &'a str,
}

/// What an SM-DP+ returns from `AuthenticateClient`.
#[derive(Clone, Debug, PartialEq, Eq)]
pub struct ClientAuthentication {
    /// `SmdpSigned2`, the signed bytes verbatim.
    pub smdp_signed2: Vec<u8>,
    pub smdp_signature2: Vec<u8>,
    pub smdp_certificate: Vec<u8>,
    /// `StoreMetadataRequest`: what the profile is.
    pub profile_metadata: Vec<u8>,
    pub http_status: u16,
    pub elapsed_ms: u64,
}

/// The answer, by what it says.
#[verifier::ext_equal]
pub struct AuthModel {
    pub smdp_signed2: Seq<u8>,
    pub smdp_signature2: Seq<u8>,
    pub smdp_certificate: Seq<u8>,
    pub profile_metadata: Seq<u8>,
    pub http_status: u16,
    pub elapsed_ms: u64,
}

impl View for ClientAuthentication {
    type V = AuthModel;

    open spec fn view(&self) -> AuthModel {
        AuthModel {
            smdp_signed2: self.smdp_signed2@,
            smdp_signature2: self.smdp_signature2@,
            smdp_certificate: self.smdp_certificate@,
            profile_metadata: self.profile_metadata@,
            http_status: self.http_status,
            elapsed_ms: self.elapsed_ms,
        }
    }
}

/// What an SM-DP+ returns from `GetBoundProfilePackage`.
#[derive(Clone, Debug, PartialEq, Eq)]
pub struct BoundPackage {
    pub package: Vec<u8>,
    pub http_status: u16,
    pub elapsed_ms: u64,
}

/// The answer, by what it says.
#[verifier::ext_equal]
pub struct BoundModel {
    pub package: Seq<u8>,
    pub http_status: u16,
    pub elapsed_ms: u64,
}

impl View for BoundPackage {
    type V = BoundModel;

    open spec fn view(&self) -> BoundModel {
        BoundModel {
            package: self.package@,
            http_status: self.http_status,
            elapsed_ms: self.elapsed_ms,
        }
    }
}

/// An answer of which only the fact matters.
#[derive(Clone, Copy, Debug, PartialEq, Eq, Structural)]
pub struct Acknowledgement {
    pub http_status: u16,
    pub elapsed_ms: u64,
}

/// One ES9+ round trip, for a record that can be read after the fact.
#[derive(Clone, Debug, PartialEq, Eq)]
pub struct HttpStep {
    pub step: &'static str,
    pub http_status: u16,
    pub elapsed_ms: u64,
}

/// What one eUICC held at a moment in time.
///
/// Taken twice, before and after a download, because the evidence that a
/// profile arrived is not the command saying so. It is a second profile in the
/// list, a smaller free memory figure, and one more notification the card owes
/// its SM-DP+.
#[derive(Clone, Debug, PartialEq, Eq)]
pub struct EuiccSnapshot {
    pub free_non_volatile_memory: Option<u64>,
    pub profiles: Vec<Profile>,
    pub notifications: Vec<NotificationMetadata>,
}

/// The snapshot, by what it says.
#[verifier::ext_equal]
pub struct SnapshotModel {
    pub free_non_volatile_memory: Option<u64>,
    pub profiles: Seq<ProfileModel>,
    pub notifications: Seq<NotificationModel>,
}

impl View for EuiccSnapshot {
    type V = SnapshotModel;

    open spec fn view(&self) -> SnapshotModel {
        SnapshotModel {
            free_non_volatile_memory: self.free_non_volatile_memory,
            profiles: profile_models(self.profiles@),
            notifications: notification_models(self.notifications@),
        }
    }
}

/// A chip of which nothing is known.
pub open spec fn blank_snapshot() -> SnapshotModel {
    SnapshotModel {
        free_non_volatile_memory: None,
        profiles: Seq::empty(),
        notifications: Seq::empty(),
    }
}

impl Default for EuiccSnapshot {
    fn default() -> (value: Self)
        ensures
            value@ == blank_snapshot(),
    {
        let value = EuiccSnapshot {
            free_non_volatile_memory: None,
            profiles: Vec::new(),
            notifications: Vec::new(),
        };
        proof {
            assert(value@ =~= blank_snapshot());
        }
        value
    }
}

/// One `STORE DATA` chain that carried a piece of a Bound Profile Package.
#[derive(Clone, Debug, PartialEq, Eq)]
pub struct SegmentTransfer {
    pub label: String,
    pub bytes: usize,
    pub blocks: usize,
}

/// The transfer, by what it says.
#[verifier::ext_equal]
pub struct TransferModel {
    pub label: Seq<char>,
    pub bytes: usize,
    pub blocks: usize,
}

impl View for SegmentTransfer {
    type V = TransferModel;

    open spec fn view(&self) -> TransferModel {
        TransferModel {
            label: self.label@,
            bytes: self.bytes,
            blocks: self.blocks,
        }
    }
}

/// The models of transfers.
pub open spec fn transfer_models(list: Seq<SegmentTransfer>) -> Seq<TransferModel> {
    list.map_values(|transfer: SegmentTransfer| transfer@)
}

/// A snapshot that may be absent.
pub open spec fn opt_snapshot(snapshot: Option<EuiccSnapshot>) -> Option<SnapshotModel> {
    match snapshot {
        Some(s) => Some(s@),
        None => None,
    }
}

/// Metadata that may be absent.
pub open spec fn opt_metadata(metadata: Option<ProfileMetadata>) -> Option<MetadataModel> {
    match metadata {
        Some(m) => Some(m@),
        None => None,
    }
}

/// An installation result that may be absent.
pub open spec fn opt_installation(result: Option<InstallationResult>) -> Option<
    InstallationModel,
> {
    match result {
        Some(r) => Some(r@),
        None => None,
    }
}

/// Everything that happened, in enough detail to tell a download that worked
/// from one that merely returned.
#[derive(Clone, Debug)]
pub struct DownloadOutcome {
    pub eid: String,
    pub smdp_address: String,
    pub transaction_id: String,
    /// True when the activation code named a matching id. The id itself is
    /// deliberately absent.
    pub matching_id_present: bool,
    pub before: EuiccSnapshot,
    pub after: Option<EuiccSnapshot>,
    /// The ES9+ session, from `InitiateAuthentication`.
    pub euicc_challenge: [u8; 16],
    pub echoed_euicc_challenge: String,
    pub server_challenge: String,
    pub euicc_ci_pkid_to_be_used: String,
    pub chip_ci_key_ids: Vec<String>,
    pub ci_key_accepted_by_chip: bool,
    pub verification: Verification,
    pub negotiated_tls: Option<String>,
    pub admin_protocol: Option<String>,
    pub http: Vec<HttpStep>,
    /// What the SM-DP+ said the profile is, read before anything was written.
    pub metadata: Option<ProfileMetadata>,
    /// The policy rules that stopped this download, when they did.
    pub refused_policy_rules: Vec<String>,
    /// Whether the server asked for a confirmation code.
    pub confirmation_code_required: bool,
    /// Blocks in the `STORE DATA` chain each card-side step needed.
    pub authenticate_server_blocks: usize,
    pub prepare_download_blocks: usize,
    pub bpp_bytes: usize,
    pub bpp_segments: Vec<SegmentTransfer>,
    pub bpp_blocks: usize,
    pub installed: bool,
    pub installation: Option<InstallationResult>,
    /// The notification produced by *this* download, and only that one.
    pub notification_delivered: bool,
    pub notification_bytes: usize,
    pub notification_delivery_error: Option<String>,
    /// 0 when the card confirmed the notification is gone.
    pub notification_removed: Option<u64>,
    /// Set when the RSP session was deliberately cancelled instead of
    /// finished, with the SGP.22 reason.
    pub session_cancelled: Option<&'static str>,
    pub cancel_error: Option<String>,
    /// Where this stopped, when it stopped short of installing.
    pub stopped_after: Option<String>,
}

/// The outcome, by what it says.
#[verifier::ext_equal]
pub struct OutcomeModel {
    pub eid: Seq<char>,
    pub smdp_address: Seq<char>,
    pub transaction_id: Seq<char>,
    pub matching_id_present: bool,
    pub before: SnapshotModel,
    pub after: Option<SnapshotModel>,
    pub euicc_challenge: Seq<u8>,
    pub echoed_euicc_challenge: Seq<char>,
    pub server_challenge: Seq<char>,
    pub euicc_ci_pkid_to_be_used: Seq<char>,
    pub chip_ci_key_ids: Seq<Seq<char>>,
    pub ci_key_accepted_by_chip: bool,
    pub verification: VerificationModel,
    pub negotiated_tls: Option<Seq<char>>,
    pub admin_protocol: Option<Seq<char>>,
    pub http: Seq<HttpStep>,
    pub metadata: Option<MetadataModel>,
    pub refused_policy_rules: Seq<Seq<char>>,
    pub confirmation_code_required: bool,
    pub authenticate_server_blocks: usize,
    pub prepare_download_blocks: usize,
    pub bpp_bytes: usize,
    pub bpp_segments: Seq<TransferModel>,
    pub bpp_blocks: usize,
    pub installed: bool,
    pub installation: Option<InstallationModel>,
    pub notification_delivered: bool,
    pub notification_bytes: usize,
    pub notification_delivery_error: Option<Seq<char>>,
    pub notification_removed: Option<u64>,
    pub session_cancelled: Option<&'static str>,
    pub cancel_error: Option<Seq<char>>,
    pub stopped_after: Option<Seq<char>>,
}

impl View for DownloadOutcome {
    type V = OutcomeModel;

    open spec fn view(&self) -> OutcomeModel {
        OutcomeModel {
            eid: self.eid@,
            smdp_address: self.smdp_address@,
            transaction_id: self.transaction_id@,
            matching_id_present: self.matching_id_present,
            before: self.before@,
            after: opt_snapshot(self.after),
            euicc_challenge: self.euicc_challenge@,
            echoed_euicc_challenge: self.echoed_euicc_challenge@,
            server_challenge: self.server_challenge@,
            euicc_ci_pkid_to_be_used: self.euicc_ci_pkid_to_be_used@,
            chip_ci_key_ids: texts(self.chip_ci_key_ids@),
            ci_key_accepted_by_chip: self.ci_key_accepted_by_chip,
            verification: self.verification@,
            negotiated_tls: opt_text(self.negotiated_tls),
            admin_protocol: opt_text(self.admin_protocol),
            http: self.http@,
            metadata: opt_metadata(self.metadata),
            refused_policy_rules: texts(self.refused_policy_rules@),
            confirmation_code_required: self.confirmation_code_required,
            authenticate_server_blocks: self.authenticate_server_blocks,
            prepare_download_blocks: self.prepare_download_blocks,
            bpp_bytes: self.bpp_bytes,
            bpp_segments: transfer_models(self.bpp_segments@),
            bpp_blocks: self.bpp_blocks,
            installed: self.installed,
            installation: opt_installation(self.installation),
            notification_delivered: self.notification_delivered,
            notification_bytes: self.notification_bytes,
            notification_delivery_error: opt_text(self.notification_delivery_error),
            notification_removed: self.notification_removed,
            session_cancelled: self.session_cancelled,
            cancel_error: opt_text(self.cancel_error),
            stopped_after: opt_text(self.stopped_after),
        }
    }
}

/// Nothing has happened yet.
pub open spec fn blank_outcome() -> OutcomeModel {
    OutcomeModel {
        eid: Seq::empty(),
        smdp_address: Seq::empty(),
        transaction_id: Seq::empty(),
        matching_id_present: false,
        before: blank_snapshot(),
        after: None,
        euicc_challenge: Seq::new(16, |i: int| 0u8),
        echoed_euicc_challenge: Seq::empty(),
        server_challenge: Seq::empty(),
        euicc_ci_pkid_to_be_used: Seq::empty(),
        chip_ci_key_ids: Seq::empty(),
        ci_key_accepted_by_chip: false,
        verification: unverified(),
        negotiated_tls: None,
        admin_protocol: None,
        http: Seq::empty(),
        metadata: None,
        refused_policy_rules: Seq::empty(),
        confirmation_code_required: false,
        authenticate_server_blocks: 0,
        prepare_download_blocks: 0,
        bpp_bytes: 0,
        bpp_segments: Seq::empty(),
        bpp_blocks: 0,
        installed: false,
        installation: None,
        notification_delivered: false,
        notification_bytes: 0,
        notification_delivery_error: None,
        notification_removed: None,
        session_cancelled: None,
        cancel_error: None,
        stopped_after: None,
    }
}

impl Default for DownloadOutcome {
    fn default() -> (value: Self)
        ensures
            value@ == blank_outcome(),
    {
        let value = DownloadOutcome {
            eid: String::new(),
            smdp_address: String::new(),
            transaction_id: String::new(),
            matching_id_present: false,
            before: EuiccSnapshot::default(),
            after: None,
            euicc_challenge: [0; 16],
            echoed_euicc_challenge: String::new(),
            server_challenge: String::new(),
            euicc_ci_pkid_to_be_used: String::new(),
            chip_ci_key_ids: Vec::new(),
            ci_key_accepted_by_chip: false,
            verification: Verification::default(),
            negotiated_tls: None,
            admin_protocol: None,
            http: Vec::new(),
            metadata: None,
            refused_policy_rules: Vec::new(),
            confirmation_code_required: false,
            authenticate_server_blocks: 0,
            prepare_download_blocks: 0,
            bpp_bytes: 0,
            bpp_segments: Vec::new(),
            bpp_blocks: 0,
            installed: false,
            installation: None,
            notification_delivered: false,
            notification_bytes: 0,
            notification_delivery_error: None,
            notification_removed: None,
            session_cancelled: None,
            cancel_error: None,
            stopped_after: None,
        };
        proof {
            assert(value@ =~= blank_outcome());
        }
        value
    }
}

/// A download under way: what happened so far, and what the next steps need.
pub struct Download {
    pub outcome: DownloadOutcome,
    /// The chip's `GetEUICCInfo1`, verbatim, for `InitiateAuthentication`.
    pub info1: Vec<u8>,
    /// The transaction as the server wrote it, and as the card wants it.
    pub transaction_id_raw: String,
    pub transaction: Vec<u8>,
    /// The notification that the card now owes the server.
    pub notification: Vec<u8>,
    pub sequence_number: Option<u64>,
}

/// A download, by what it says.
#[verifier::ext_equal]
pub struct DownloadModel {
    pub outcome: OutcomeModel,
    pub info1: Seq<u8>,
    pub transaction_id_raw: Seq<char>,
    pub transaction: Seq<u8>,
    pub notification: Seq<u8>,
    pub sequence_number: Option<u64>,
}

impl View for Download {
    type V = DownloadModel;

    open spec fn view(&self) -> DownloadModel {
        DownloadModel {
            outcome: self.outcome@,
            info1: self.info1@,
            transaction_id_raw: self.transaction_id_raw@,
            transaction: self.transaction@,
            notification: self.notification@,
            sequence_number: self.sequence_number,
        }
    }
}

/// What the server gets next.
#[derive(Clone, Debug, PartialEq, Eq)]
pub enum NextStep {
    /// `CancelSession` with the card's signed answer.
    GiveBack(Vec<u8>),
    /// `GetBoundProfilePackage` with the card's signed answer.
    FetchPackage(Vec<u8>),
    /// Nothing: the download is over.
    Over,
}

/// What the server gets next, by what it says.
pub enum NextModel {
    GiveBack(Seq<u8>),
    FetchPackage(Seq<u8>),
    Over,
}

impl View for NextStep {
    type V = NextModel;

    open spec fn view(&self) -> NextModel {
        match *self {
            NextStep::GiveBack(bytes) => NextModel::GiveBack(bytes@),
            NextStep::FetchPackage(bytes) => NextModel::FetchPackage(bytes@),
            NextStep::Over => NextModel::Over,
        }
    }
}

// ---------------------------------------------------------------------------
// Hex that came from a server
// ---------------------------------------------------------------------------

/// The base-sixteen digits in a text; everything else in it is skipped.
pub open spec fn hex_digits(text: Seq<char>) -> Seq<u8>
    decreases text.len(),
{
    if text.len() == 0 {
        Seq::empty()
    } else {
        match hex_value(text.last()) {
            Some(digit) => hex_digits(text.drop_last()).push(digit),
            None => hex_digits(text.drop_last()),
        }
    }
}

/// Octets from base-sixteen digits, the first the high one. A digit that is
/// left over is a high one too.
pub open spec fn octets_from(digits: Seq<u8>) -> Seq<u8> {
    Seq::new(
        (digits.len() + 1) / 2,
        |i: int|
            (16 * digits[2 * i] + (if 2 * i + 1 < digits.len() {
                digits[2 * i + 1] as int
            } else {
                0
            })) as u8,
    )
}

/// Decode an even-length hex string, ignoring anything that is not hex.
///
/// The transaction id arrives as text and the card wants the bytes. A
/// permissive reader is right here: the string came from a server that has
/// already been authenticated, and the alternative is a download that fails at
/// the cancel step because of a separator.
fn hex_bytes(text: &str) -> (bytes: Vec<u8>)
    ensures
        bytes@ == octets_from(hex_digits(text@)),
{
    let chars: Vec<char> = chars_of(text);
    let mut digits: Vec<u8> = Vec::new();
    let mut i: usize = 0;
    proof {
        assert(chars@.take(0) =~= Seq::empty());
    }
    while i < chars.len()
        invariant
            i <= chars@.len(),
            digits@.len() <= i,
            digits@ == hex_digits(chars@.take(i as int)),
            forall|j: int| 0 <= j < digits@.len() ==> digits@[j] < 16,
        decreases chars@.len() - i,
    {
        proof {
            assert(chars@.take(i + 1).drop_last() =~= chars@.take(i as int));
        }
        if let Some(digit) = read_hex_digit(chars[i]) {
            digits.push(digit);
        }
        i = i + 1;
    }
    proof {
        assert(chars@.take(i as int) =~= chars@);
    }
    let total: usize = digits.len();
    let count: usize = total / 2 + total % 2;
    let mut bytes: Vec<u8> = Vec::new();
    let mut k: usize = 0;
    while k < count
        invariant
            k <= count,
            total == digits@.len(),
            count == total / 2 + total % 2,
            bytes@.len() == k,
            forall|j: int| 0 <= j < digits@.len() ==> digits@[j] < 16,
            forall|j: int| 0 <= j < k ==> bytes@[j] == octets_from(digits@)[j],
        decreases count - k,
    {
        let high: u8 = digits[2 * k];
        let low: u8 = if 2 * k + 1 < total {
            digits[2 * k + 1]
        } else {
            0
        };
        bytes.push(16 * high + low);
        k = k + 1;
    }
    proof {
        assert(bytes@ =~= octets_from(digits@));
    }
    bytes
}

// ---------------------------------------------------------------------------
// Card-side steps
// ---------------------------------------------------------------------------

/// A payload that may not be built, run on a channel, its answer accepted or
/// refused as a step's is; with it, how many blocks it took.
pub open spec fn stepped(
    client: ClientModel,
    slot: u8,
    channel: u8,
    payload: Result<Seq<u8>, Es10cFault>,
    step: DownloadStep,
) -> (Result<(Seq<u8>, nat), SessionFault>, ClientModel) {
    match payload {
        Err(e) => (Err(SessionFault::Es10c(e)), client),
        Ok(bytes) => {
            let (answer, after) = executed(client, slot, channel, bytes);
            match answer {
                Err(e) => (Err(e), after),
                Ok(answer) => match accepted_in(answer, step) {
                    Err(e) => (Err(SessionFault::Es10c(e)), after),
                    Ok(whole) => (Ok((whole, block_count(bytes.len()))), after),
                },
            }
        },
    }
}

/// The request by which the card judges a server.
pub open spec fn judging(
    start: StartModel,
    matching_id: Option<Seq<char>>,
    imei: Seq<char>,
) -> Result<
    Seq<u8>,
    Es10cFault,
> {
    match tac_in(imei) {
        Err(e) => Err(e),
        Ok(tac) => authenticate_request(
            start.server_signed1,
            start.server_signature1,
            start.euicc_ci_pkid_der,
            start.server_certificate,
            server_context(matching_id, tac),
        ),
    }
}

/// `AuthenticateServer` on a channel.
pub open spec fn judged_on(
    client: ClientModel,
    slot: u8,
    channel: u8,
    start: StartModel,
    matching_id: Option<Seq<char>>,
    imei: Seq<char>,
) -> (Result<(Seq<u8>, nat), SessionFault>, ClientModel) {
    stepped(
        client,
        slot,
        channel,
        judging(start, matching_id, imei),
        DownloadStep::AuthenticateServer,
    )
}

/// The hash that `PrepareDownload` carries: none where the server asks for no
/// confirmation code.
pub open spec fn code_hash(authentication: AuthModel, code: Option<Seq<char>>) -> Result<
    Option<Seq<u8>>,
    SessionFault,
> {
    match code_required_in(authentication.smdp_signed2) {
        Err(e) => Err(SessionFault::Es10c(e)),
        Ok(required) => if !required {
            Ok(None)
        } else {
            match code {
                None => Err(
                    SessionFault::Transport(
                        "the SM-DP+ requires a confirmation code and none was supplied"@,
                    ),
                ),
                Some(text) => match signed_transaction_in(authentication.smdp_signed2) {
                    Err(e) => Err(SessionFault::Es10c(e)),
                    Ok(transaction) => Ok(Some(confirmation_hash(text, transaction))),
                },
            }
        },
    }
}

/// `PrepareDownload` on a channel.
pub open spec fn prepared_on(
    client: ClientModel,
    slot: u8,
    channel: u8,
    authentication: AuthModel,
    code: Option<Seq<char>>,
) -> (Result<(Seq<u8>, nat), SessionFault>, ClientModel) {
    match code_hash(authentication, code) {
        Err(e) => (Err(e), client),
        Ok(hash) => stepped(
            client,
            slot,
            channel,
            prepare_request(
                authentication.smdp_signed2,
                authentication.smdp_signature2,
                authentication.smdp_certificate,
                hash,
            ),
            DownloadStep::PrepareDownload,
        ),
    }
}

/// One segment's transfer.
pub open spec fn transfer_of(segment: SegmentModel) -> TransferModel {
    TransferModel {
        label: segment.label,
        bytes: segment.bytes.len() as usize,
        blocks: block_count(segment.bytes.len()) as usize,
    }
}

/// Feeding segments to the card until it answers with bytes: that is the
/// installation result, and the transfer is over.
pub open spec fn fed_on(
    client: ClientModel,
    slot: u8,
    channel: u8,
    segments: Seq<SegmentModel>,
    sent: Seq<TransferModel>,
) -> (Result<(InstallationModel, Seq<TransferModel>), SessionFault>, ClientModel)
    decreases segments.len(),
{
    if segments.len() == 0 {
        (
            Err(
                SessionFault::Transport(
                    "the eUICC accepted every segment of the profile package without returning a ProfileInstallationResult"@,
                ),
            ),
            client,
        )
    } else {
        let (answer, after) = executed(client, slot, channel, segments[0].bytes);
        match answer {
            Err(e) => (Err(e), after),
            Ok(bytes) => {
                let sent = sent.push(transfer_of(segments[0]));
                if bytes.len() > 0 {
                    match installation_in(bytes) {
                        Err(e) => (Err(SessionFault::Es10c(e)), after),
                        Ok(result) => (Ok((result, sent)), after),
                    }
                } else {
                    fed_on(after, slot, channel, segments.skip(1), sent)
                }
            },
        }
    }
}

/// Loading a Bound Profile Package on a channel.
pub open spec fn loaded_on(client: ClientModel, slot: u8, channel: u8, package: Seq<u8>) -> (
    Result<(InstallationModel, Seq<TransferModel>), SessionFault>,
    ClientModel,
) {
    match segments_in(package) {
        Err(e) => (Err(SessionFault::Es10c(e)), client),
        Ok(segments) => fed_on(client, slot, channel, segments, Seq::empty()),
    }
}

/// How many blocks transfers took.
pub open spec fn blocks_of(transfers: Seq<TransferModel>) -> nat
    decreases transfers.len(),
{
    if transfers.len() == 0 {
        0
    } else {
        blocks_of(transfers.drop_last()) + transfers.last().blocks as nat
    }
}

/// Reading what the chip holds, on a channel.
pub open spec fn snapshot_on(client: ClientModel, slot: u8, channel: u8) -> (
    Result<SnapshotModel, SessionFault>,
    ClientModel,
) {
    let (info, c1) = info2_on(client, slot, channel);
    match info {
        Err(e) => (Err(e), c1),
        Ok(info) => {
            let (profiles, c2) = profiles_on(c1, slot, channel);
            match profiles {
                Err(e) => (Err(e), c2),
                Ok(profiles) => {
                    let (notifications, c3) = notifications_on(c2, slot, channel);
                    match notifications {
                        Err(e) => (Err(e), c3),
                        Ok(notifications) => (
                            Ok(
                                SnapshotModel {
                                    free_non_volatile_memory: info.free_non_volatile_memory,
                                    profiles,
                                    notifications,
                                },
                            ),
                            c3,
                        ),
                    }
                },
            }
        },
    }
}

proof fn lemma_joined_prefix(segments: Seq<SegmentModel>, n: int)
    requires
        0 <= n <= segments.len(),
    ensures
        joined_segments(segments.take(n)).len() <= joined_segments(segments).len(),
    decreases segments.len() - n,
{
    if n < segments.len() {
        assert(segments.take(n + 1).drop_last() =~= segments.take(n));
        lemma_joined_prefix(segments, n + 1);
    } else {
        assert(segments.take(n) =~= segments);
    }
}

proof fn lemma_package_length(package: Seq<u8>)
    requires
        segments_in(package) is Ok,
    ensures
        joined_segments(segments_in(package)->Ok_0).len() <= package.len(),
{
    law_segments_are_the_package(package);
    crate::ber::lemma_element(package);
}

impl<'a, T: QmiTransport> IsdrSession<'a, T> {
    fn run_step(&mut self, payload: &[u8], step: DownloadStep) -> (result: Result<
        (Vec<u8>, usize),
        SessionError,
    >)
        ensures
            ({
                let wanted = stepped(
                    (*old(self).client)@,
                    old(self).slot,
                    old(self).channel,
                    Ok(payload@),
                    step,
                );
                (*final(self).client)@ == wanted.1 && match result {
                    Ok((whole, blocks)) => wanted.0 == Ok::<(Seq<u8>, nat), SessionFault>(
                        (whole@, blocks as nat),
                    ),
                    Err(e) => wanted.0 == Err::<(Seq<u8>, nat), SessionFault>(e@),
                }
            }),
            final(self).slot == old(self).slot,
            final(self).channel == old(self).channel,
            *final(final(self).client) == *final(old(self).client),
    {
        let (bytes, blocks) = match self.execute_counted(payload) {
            Ok(answer) => answer,
            Err(e) => return Err(e),
        };
        let accepted: Result<Vec<u8>, crate::es10c::Es10cError> = match step {
            DownloadStep::AuthenticateServer => {
                crate::es10c::parse_authenticate_server_response(&bytes)
            },
            DownloadStep::PrepareDownload => crate::es10c::parse_prepare_download_response(&bytes),
            DownloadStep::CancelSession => crate::es10c::parse_cancel_session_response(&bytes),
        };
        match accepted {
            Ok(whole) => Ok((whole, blocks)),
            Err(e) => Err(SessionError::Es10c(e)),
        }
    }

    /// ES10b `AuthenticateServer`: the card judges the SM-DP+.
    ///
    /// A server certificate alone is six hundred bytes, so this takes more
    /// than one `STORE DATA` block.
    pub fn authenticate_server(
        &mut self,
        start: &AuthenticationStart,
        matching_id: Option<&str>,
        imei: &str,
    ) -> (result: Result<(Vec<u8>, usize), SessionError>)
        ensures
            ({
                let wanted = judged_on(
                    (*old(self).client)@,
                    old(self).slot,
                    old(self).channel,
                    start@,
                    opt_str(matching_id),
                    imei@,
                );
                (*final(self).client)@ == wanted.1 && match result {
                    Ok((whole, blocks)) => wanted.0 == Ok::<(Seq<u8>, nat), SessionFault>(
                        (whole@, blocks as nat),
                    ),
                    Err(e) => wanted.0 == Err::<(Seq<u8>, nat), SessionFault>(e@),
                }
            }),
            final(self).slot == old(self).slot,
            final(self).channel == old(self).channel,
            *final(final(self).client) == *final(old(self).client),
    {
        let tac: [u8; 4] = match crate::es10c::tac_from_imei(imei) {
            Ok(tac) => tac,
            Err(e) => return Err(SessionError::Es10c(e)),
        };
        let payload: Vec<u8> = match crate::es10c::authenticate_server_payload(
            &start.server_signed1,
            &start.server_signature1,
            &start.euicc_ci_pkid_der,
            &start.server_certificate,
            matching_id,
            tac,
        ) {
            Ok(payload) => payload,
            Err(e) => return Err(SessionError::Es10c(e)),
        };
        self.run_step(&payload, DownloadStep::AuthenticateServer)
    }

    /// ES10b `PrepareDownload`: the card accepts the profile's key material.
    pub fn prepare_download(
        &mut self,
        authentication: &ClientAuthentication,
        confirmation_code: Option<&str>,
    ) -> (result: Result<(Vec<u8>, usize), SessionError>)
        requires
            authentication.smdp_signed2@.len() + 32 <= MAX_DIGEST_BYTES,
            confirmation_code matches Some(code) ==> encode_utf8(code@).len() <= MAX_DIGEST_BYTES,
        ensures
            ({
                let wanted = prepared_on(
                    (*old(self).client)@,
                    old(self).slot,
                    old(self).channel,
                    authentication@,
                    opt_str(confirmation_code),
                );
                (*final(self).client)@ == wanted.1 && match result {
                    Ok((whole, blocks)) => wanted.0 == Ok::<(Seq<u8>, nat), SessionFault>(
                        (whole@, blocks as nat),
                    ),
                    Err(e) => wanted.0 == Err::<(Seq<u8>, nat), SessionFault>(e@),
                }
            }),
            final(self).slot == old(self).slot,
            final(self).channel == old(self).channel,
            *final(final(self).client) == *final(old(self).client),
    {
        let required: bool = match crate::es10c::confirmation_code_required(
            &authentication.smdp_signed2,
        ) {
            Ok(required) => required,
            Err(e) => return Err(SessionError::Es10c(e)),
        };
        let mut hash: Option<Vec<u8>> = None;
        if required {
            let code: &str = match confirmation_code {
                Some(code) => code,
                None => return Err(
                    SessionError::transport(
                        "the SM-DP+ requires a confirmation code and none was supplied",
                    ),
                ),
            };
            let transaction_id: Vec<u8> = match crate::es10c::smdp_signed2_transaction_id(
                &authentication.smdp_signed2,
            ) {
                Ok(id) => id,
                Err(e) => return Err(SessionError::Es10c(e)),
            };
            hash = Some(hash_confirmation_code(code, &transaction_id));
        }
        let hash_cc: Option<&[u8]> = match &hash {
            Some(bytes) => Some(bytes.as_slice()),
            None => None,
        };
        proof {
            assert(opt_octets(hash_cc) == code_hash(
                authentication@,
                opt_str(confirmation_code),
            )->Ok_0);
        }
        let payload: Vec<u8> = match crate::es10c::prepare_download_payload(
            &authentication.smdp_signed2,
            &authentication.smdp_signature2,
            &authentication.smdp_certificate,
            hash_cc,
        ) {
            Ok(payload) => payload,
            Err(e) => return Err(SessionError::Es10c(e)),
        };
        self.run_step(&payload, DownloadStep::PrepareDownload)
    }

    fn send_segment(&mut self, segment: &BppSegment, transfers: &mut Vec<SegmentTransfer>) -> (
        result: Result<Vec<u8>, SessionError>)
        ensures
            ({
                let wanted = executed(
                    (*old(self).client)@,
                    old(self).slot,
                    old(self).channel,
                    segment@.bytes,
                );
                (*final(self).client)@ == wanted.1 && match result {
                    Ok(answer) => {
                        &&& wanted.0 == Ok::<Seq<u8>, SessionFault>(answer@)
                        &&& transfer_models(final(transfers)@) == transfer_models(
                            old(transfers)@,
                        ).push(transfer_of(segment@))
                        &&& blocks_of(transfer_models(final(transfers)@)) <= blocks_of(
                            transfer_models(old(transfers)@),
                        ) + segment@.bytes.len()
                    },
                    Err(e) => wanted.0 == Err::<Seq<u8>, SessionFault>(e@),
                }
            }),
            final(self).slot == old(self).slot,
            final(self).channel == old(self).channel,
            *final(final(self).client) == *final(old(self).client),
    {
        let (answer, blocks) = match self.execute_counted(&segment.bytes) {
            Ok(answer) => answer,
            Err(e) => return Err(e),
        };
        let transfer = SegmentTransfer {
            label: owned(segment.label.as_str()),
            bytes: segment.bytes.len(),
            blocks,
        };
        let ghost shown = transfer@;
        transfers.push(transfer);
        proof {
            assert(shown =~= transfer_of(segment@));
            assert(transfer_models(transfers@) =~= transfer_models(old(transfers)@).push(shown));
            assert(transfer_models(transfers@).drop_last() =~= transfer_models(old(transfers)@));
        }
        Ok(answer)
    }

    fn feed_segments(&mut self, segments: &Vec<BppSegment>) -> (result: Result<
        (InstallationResult, Vec<SegmentTransfer>),
        SessionError,
    >)
        ensures
            ({
                let wanted = fed_on(
                    (*old(self).client)@,
                    old(self).slot,
                    old(self).channel,
                    segment_models(segments@),
                    Seq::empty(),
                );
                (*final(self).client)@ == wanted.1 && match result {
                    Ok((installation, transfers)) => wanted.0 == Ok::<
                        (InstallationModel, Seq<TransferModel>),
                        SessionFault,
                    >((installation@, transfer_models(transfers@))) && blocks_of(
                        transfer_models(transfers@),
                    ) <= joined_segments(segment_models(segments@)).len(),
                    Err(e) => wanted.0 == Err::<
                        (InstallationModel, Seq<TransferModel>),
                        SessionFault,
                    >(e@),
                }
            }),
            final(self).slot == old(self).slot,
            final(self).channel == old(self).channel,
            *final(final(self).client) == *final(old(self).client),
    {
        let ghost all = segment_models(segments@);
        let ghost slot = self.slot;
        let ghost channel = self.channel;
        let ghost wanted = fed_on((*self.client)@, slot, channel, all, Seq::empty());
        let mut transfers: Vec<SegmentTransfer> = Vec::new();
        let mut i: usize = 0;
        proof {
            assert(all.skip(0) =~= all);
            assert(all.take(0) =~= Seq::empty());
            assert(transfer_models(transfers@) =~= Seq::empty());
        }
        while i < segments.len()
            invariant
                i <= segments@.len(),
                all == segment_models(segments@),
                all.len() == segments@.len(),
                self.slot == slot,
                self.channel == channel,
                old(self).slot == slot,
                old(self).channel == channel,
                wanted == fed_on((*old(self).client)@, slot, channel, all, Seq::empty()),
                fed_on(
                    (*self.client)@,
                    slot,
                    channel,
                    all.skip(i as int),
                    transfer_models(transfers@),
                ) == wanted,
                blocks_of(transfer_models(transfers@)) <= joined_segments(
                    all.take(i as int),
                ).len(),
                *final(self.client) == *final(old(self).client),
            decreases segments@.len() - i,
        {
            let segment: &BppSegment = &segments[i];
            proof {
                assert(all.skip(i as int).skip(1) =~= all.skip(i + 1));
                assert(all.skip(i as int)[0] == segment@);
                assert(all.take(i + 1).drop_last() =~= all.take(i as int));
                assert(all.take(i + 1).last() == segment@);
                lemma_joined_prefix(all, i + 1);
            }
            let answer: Vec<u8> = match self.send_segment(segment, &mut transfers) {
                Ok(answer) => answer,
                Err(e) => return Err(e),
            };
            if answer.len() > 0 {
                return match crate::es10c::parse_installation_result(&answer) {
                    Ok(installation) => Ok((installation, transfers)),
                    Err(e) => Err(SessionError::Es10c(e)),
                };
            }
            i = i + 1;
        }
        Err(
            SessionError::transport(
                "the eUICC accepted every segment of the profile package without returning a ProfileInstallationResult",
            ),
        )
    }

    /// Feed a Bound Profile Package to the eUICC, segment by segment.
    ///
    /// The card answers most segments with nothing at all. The moment it
    /// answers with bytes, that is a `ProfileInstallationResult` and the
    /// transfer is over — successfully if it is the last segment, and as a
    /// named failure if it is not. Carrying on after that would push the rest
    /// of a profile at a card that has already closed the channel.
    pub fn load_bound_profile_package(&mut self, package: &[u8]) -> (result: Result<
        (InstallationResult, Vec<SegmentTransfer>),
        SessionError,
    >)
        ensures
            ({
                let wanted = loaded_on(
                    (*old(self).client)@,
                    old(self).slot,
                    old(self).channel,
                    package@,
                );
                (*final(self).client)@ == wanted.1 && match result {
                    Ok((installation, transfers)) => wanted.0 == Ok::<
                        (InstallationModel, Seq<TransferModel>),
                        SessionFault,
                    >((installation@, transfer_models(transfers@))) && blocks_of(
                        transfer_models(transfers@),
                    ) <= package@.len(),
                    Err(e) => wanted.0 == Err::<
                        (InstallationModel, Seq<TransferModel>),
                        SessionFault,
                    >(e@),
                }
            }),
            final(self).slot == old(self).slot,
            final(self).channel == old(self).channel,
            *final(final(self).client) == *final(old(self).client),
    {
        let segments: Vec<BppSegment> = match crate::es10c::bound_profile_package_segments(
            package,
        ) {
            Ok(segments) => segments,
            Err(e) => return Err(SessionError::Es10c(e)),
        };
        proof {
            lemma_package_length(package@);
        }
        self.feed_segments(&segments)
    }

    /// Read what the chip holds right now.
    pub fn snapshot(&mut self) -> (result: Result<EuiccSnapshot, SessionError>)
        ensures
            ran(
                result,
                (*final(self).client)@,
                snapshot_on((*old(self).client)@, old(self).slot, old(self).channel),
            ),
            final(self).slot == old(self).slot,
            final(self).channel == old(self).channel,
            *final(final(self).client) == *final(old(self).client),
    {
        let info: EuiccInfo2 = match self.euicc_info2() {
            Ok(info) => info,
            Err(e) => return Err(e),
        };
        let profiles: Vec<Profile> = match self.list_profiles() {
            Ok(profiles) => profiles,
            Err(e) => return Err(e),
        };
        let notifications: Vec<NotificationMetadata> = match self.list_notifications() {
            Ok(notifications) => notifications,
            Err(e) => return Err(e),
        };
        Ok(
            EuiccSnapshot {
                free_non_volatile_memory: info.free_non_volatile_memory,
                profiles,
                notifications,
            },
        )
    }
}


// ---------------------------------------------------------------------------
// The download, step by step
// ---------------------------------------------------------------------------

/// A download that has only just begun.
pub open spec fn fresh_download(
    code: ActivationModel,
    eid: Seq<char>,
    before: SnapshotModel,
    challenge: Seq<u8>,
    info1: crate::es10c::EuiccInfo1Model,
) -> DownloadModel {
    DownloadModel {
        outcome: OutcomeModel {
            eid,
            smdp_address: code.smdp_address,
            matching_id_present: code.matching_id is Some,
            before,
            euicc_challenge: challenge,
            chip_ci_key_ids: info1.ci_key_ids_for_verification,
            ..blank_outcome()
        },
        info1: info1.raw,
        transaction_id_raw: Seq::empty(),
        transaction: Seq::empty(),
        notification: Seq::empty(),
        sequence_number: None,
    }
}

/// What the chip is asked before the server is.
pub open spec fn begun_on(client: ClientModel, slot: u8, channel: u8, code: ActivationModel) -> (
    Result<DownloadModel, SessionFault>,
    ClientModel,
) {
    let (eid, c1) = eid_on(client, slot, channel);
    match eid {
        Err(e) => (Err(e), c1),
        Ok(eid) => {
            let (before, c2) = snapshot_on(c1, slot, channel);
            match before {
                Err(e) => (Err(e), c2),
                Ok(before) => {
                    let (challenge, c3) = challenge_on(c2, slot, channel);
                    match challenge {
                        Err(e) => (Err(e), c3),
                        Ok(challenge) => {
                            let (info1, c4) = info1_on(c3, slot, channel);
                            match info1 {
                                Err(e) => (Err(e), c4),
                                Ok(info1) => (
                                    Ok(fresh_download(code, eid, before, challenge, info1)),
                                    c4,
                                ),
                            }
                        },
                    }
                },
            }
        },
    }
}

/// A round trip to the server, recorded.
pub open spec fn with_step(outcome: OutcomeModel, step: HttpStep) -> OutcomeModel {
    OutcomeModel { http: outcome.http.push(step), ..outcome }
}

/// A download that knows how the server opened the session.
pub open spec fn with_start(download: DownloadModel, start: StartModel) -> DownloadModel {
    DownloadModel {
        outcome: with_step(
            OutcomeModel {
                transaction_id: start.transaction_id,
                echoed_euicc_challenge: start.echoed_euicc_challenge,
                server_challenge: start.server_challenge,
                euicc_ci_pkid_to_be_used: start.euicc_ci_pkid_to_be_used,
                ci_key_accepted_by_chip: download.outcome.chip_ci_key_ids.contains(
                    start.euicc_ci_pkid_to_be_used,
                ),
                verification: start.verification,
                negotiated_tls: start.negotiated_tls,
                admin_protocol: start.admin_protocol,
                ..download.outcome
            },
            HttpStep {
                step: "initiateAuthentication",
                http_status: start.http_status,
                elapsed_ms: start.elapsed_ms,
            },
        ),
        transaction_id_raw: start.transaction_id_raw,
        transaction: octets_from(hex_digits(start.transaction_id_raw)),
        ..download
    }
}

/// The card judges the server that opened the session. What comes back is what
/// the server gets next.
pub open spec fn introduced_on(
    client: ClientModel,
    slot: u8,
    channel: u8,
    download: DownloadModel,
    start: StartModel,
    matching_id: Option<Seq<char>>,
    imei: Seq<char>,
) -> (Result<Seq<u8>, SessionFault>, DownloadModel, ClientModel) {
    let known = with_start(download, start);
    let (judged, after) = judged_on(client, slot, channel, start, matching_id, imei);
    match judged {
        Err(e) => (Err(e), known, after),
        Ok((response, blocks)) => (
            Ok(response),
            DownloadModel {
                outcome: OutcomeModel {
                    authenticate_server_blocks: blocks as usize,
                    ..known.outcome
                },
                ..known
            },
            after,
        ),
    }
}

/// The last look at the chip, recorded.
pub open spec fn closed_on(client: ClientModel, slot: u8, channel: u8, download: DownloadModel) -> (
    Result<(), SessionFault>,
    DownloadModel,
    ClientModel,
) {
    let (after, last) = snapshot_on(client, slot, channel);
    match after {
        Err(e) => (Err(e), download, last),
        Ok(after) => (
            Ok(()),
            DownloadModel {
                outcome: OutcomeModel { after: Some(after), ..download.outcome },
                ..download
            },
            last,
        ),
    }
}

/// The rules of a profile that make it one that cannot be removed.
pub open spec fn rules_against(metadata: MetadataModel) -> Seq<Seq<char>> {
    metadata.policy_rules.filter(|rule: Seq<char>| irreversible(rule))
}

/// A download that knows what the profile is.
pub open spec fn with_metadata(
    download: DownloadModel,
    metadata: MetadataModel,
    required: bool,
) -> DownloadModel {
    DownloadModel {
        outcome: OutcomeModel {
            metadata: Some(metadata),
            confirmation_code_required: required,
            ..download.outcome
        },
        ..download
    }
}

/// A download that stops because of rules.
pub open spec fn with_refusal(download: DownloadModel, rules: Seq<Seq<char>>) -> DownloadModel {
    DownloadModel {
        outcome: OutcomeModel {
            refused_policy_rules: rules,
            stopped_after: Some(
                "the profile carries "@ + joined_by(rules, " and "@)
                    + ", which cannot be removed once installed"@,
            ),
            session_cancelled: Some(CancelSessionReason::PprNotAllowed.name_of()),
            ..download.outcome
        },
        ..download
    }
}

/// A download with an answer of the server to `authenticateClient`.
pub open spec fn with_authentication(download: DownloadModel, answer: AuthModel) -> DownloadModel {
    DownloadModel {
        outcome: with_step(
            download.outcome,
            HttpStep {
                step: "authenticateClient",
                http_status: answer.http_status,
                elapsed_ms: answer.elapsed_ms,
            },
        ),
        ..download
    }
}

/// Handing a profile back: the card's half. A card that will not cancel ends
/// the download then and there.
pub open spec fn refused_on(client: ClientModel, slot: u8, channel: u8, download: DownloadModel) -> (
    Result<NextModel, SessionFault>,
    DownloadModel,
    ClientModel,
) {
    let (cancelled, after) = cancelled_on(
        client,
        slot,
        channel,
        download.transaction,
        CancelSessionReason::PprNotAllowed,
    );
    match cancelled {
        Ok(response) => (Ok(NextModel::GiveBack(response)), download, after),
        Err(e) => {
            let noted = DownloadModel {
                outcome: OutcomeModel { cancel_error: Some(e.text()), ..download.outcome },
                ..download
            };
            let (closed, done, last) = closed_on(after, slot, channel, noted);
            match closed {
                Ok(_) => (Ok(NextModel::Over), done, last),
                Err(e) => (Err(e), done, last),
            }
        },
    }
}

/// Accepting a profile: the card's half.
pub open spec fn wanted_on(
    client: ClientModel,
    slot: u8,
    channel: u8,
    download: DownloadModel,
    answer: AuthModel,
    code: Option<Seq<char>>,
) -> (Result<NextModel, SessionFault>, DownloadModel, ClientModel) {
    let (prepared, after) = prepared_on(client, slot, channel, answer, code);
    match prepared {
        Err(e) => (Err(e), download, after),
        Ok((response, blocks)) => (
            Ok(NextModel::FetchPackage(response)),
            DownloadModel {
                outcome: OutcomeModel {
                    prepare_download_blocks: blocks as usize,
                    ..download.outcome
                },
                ..download
            },
            after,
        ),
    }
}

/// The decision: what happens once the server has said what the profile is, or
/// has refused to.
pub open spec fn decided_on(
    client: ClientModel,
    slot: u8,
    channel: u8,
    download: DownloadModel,
    reply: Result<AuthModel, Es9pFault>,
    code: Option<Seq<char>>,
) -> (Result<NextModel, SessionFault>, DownloadModel, ClientModel) {
    match reply {
        Err(e) => (
            Err(SessionFault::Es9p(e)),
            download,
            cancelled_on(
                client,
                slot,
                channel,
                download.transaction,
                CancelSessionReason::UndefinedReason,
            ).1,
        ),
        Ok(answer) => {
            let known = with_authentication(download, answer);
            match metadata_in(answer.profile_metadata) {
                Err(e) => (Err(SessionFault::Es10c(e)), known, client),
                Ok(metadata) => match code_required_in(answer.smdp_signed2) {
                    Err(e) => (Err(SessionFault::Es10c(e)), known, client),
                    Ok(required) => {
                        let described = with_metadata(known, metadata, required);
                        let rules = rules_against(metadata);
                        if rules.len() > 0 {
                            refused_on(client, slot, channel, with_refusal(described, rules))
                        } else {
                            wanted_on(client, slot, channel, described, answer, code)
                        }
                    },
                },
            }
        },
    }
}

/// What follows once the server has been told that the profile is given back.
pub open spec fn given_back_on(
    client: ClientModel,
    slot: u8,
    channel: u8,
    download: DownloadModel,
    reply: Result<Acknowledgement, Es9pFault>,
) -> (Result<(), SessionFault>, DownloadModel, ClientModel) {
    let noted = DownloadModel {
        outcome: match reply {
            Ok(answer) => with_step(
                download.outcome,
                HttpStep {
                    step: "cancelSession",
                    http_status: answer.http_status,
                    elapsed_ms: answer.elapsed_ms,
                },
            ),
            Err(e) => OutcomeModel { cancel_error: Some(e.text()), ..download.outcome },
        },
        ..download
    };
    closed_on(client, slot, channel, noted)
}

/// A download with its package fetched.
pub open spec fn with_package(download: DownloadModel, bound: BoundModel) -> DownloadModel {
    DownloadModel {
        outcome: OutcomeModel {
            bpp_bytes: bound.package.len() as usize,
            ..with_step(
                download.outcome,
                HttpStep {
                    step: "getBoundProfilePackage",
                    http_status: bound.http_status,
                    elapsed_ms: bound.elapsed_ms,
                },
            )
        },
        ..download
    }
}

/// A download whose package the card took, with what the card said of it.
pub open spec fn with_installation(
    download: DownloadModel,
    installation: InstallationModel,
    transfers: Seq<TransferModel>,
) -> DownloadModel {
    DownloadModel {
        outcome: OutcomeModel {
            bpp_blocks: blocks_of(transfers) as usize,
            bpp_segments: transfers,
            installed: installation.success,
            notification_bytes: installation.notification.len() as usize,
            installation: Some(installation),
            ..download.outcome
        },
        notification: installation.notification,
        sequence_number: installation.sequence_number,
        ..download
    }
}

/// Installing: what the card does with the package that the server released.
pub open spec fn installed_on(
    client: ClientModel,
    slot: u8,
    channel: u8,
    download: DownloadModel,
    bound: BoundModel,
) -> (Result<(), SessionFault>, DownloadModel, ClientModel) {
    let known = with_package(download, bound);
    let (loaded, after) = loaded_on(client, slot, channel, bound.package);
    match loaded {
        Err(e) => (Err(e), known, after),
        Ok((installation, transfers)) => (
            Ok(()),
            with_installation(known, installation, transfers),
            after,
        ),
    }
}

/// What the server's acknowledgement does to the notification.
pub open spec fn delivered_on(
    client: ClientModel,
    slot: u8,
    channel: u8,
    download: DownloadModel,
    reply: Result<Acknowledgement, Es9pFault>,
) -> (DownloadModel, ClientModel) {
    match reply {
        Err(e) => (
            DownloadModel {
                outcome: OutcomeModel {
                    notification_delivery_error: Some(e.text()),
                    ..download.outcome
                },
                ..download
            },
            client,
        ),
        Ok(answer) => {
            let known = OutcomeModel {
                notification_delivered: true,
                ..with_step(
                    download.outcome,
                    HttpStep {
                        step: "handleNotification",
                        http_status: answer.http_status,
                        elapsed_ms: answer.elapsed_ms,
                    },
                )
            };
            match download.sequence_number {
                None => (DownloadModel { outcome: known, ..download }, client),
                Some(number) => {
                    let (removed, after) = removed_on(client, slot, channel, number);
                    (
                        DownloadModel {
                            outcome: match removed {
                                Ok(code) => OutcomeModel {
                                    notification_removed: Some(code),
                                    ..known
                                },
                                Err(e) => OutcomeModel {
                                    notification_delivery_error: Some(
                                        "delivered, but the card would not remove it: "@
                                            + e.text(),
                                    ),
                                    ..known
                                },
                            },
                            ..download
                        },
                        after,
                    )
                },
            }
        },
    }
}

/// What follows once the notification went to the server.
pub open spec fn finished_on(
    client: ClientModel,
    slot: u8,
    channel: u8,
    download: DownloadModel,
    reply: Result<Acknowledgement, Es9pFault>,
) -> (Result<(), SessionFault>, DownloadModel, ClientModel) {
    let (delivered, c1) = delivered_on(client, slot, channel, download, reply);
    let (closed, done, c2) = closed_on(c1, slot, channel, delivered);
    match closed {
        Err(e) => (Err(e), done, c2),
        Ok(_) => (
            Ok(()),
            if done.outcome.installed {
                done
            } else {
                DownloadModel {
                    outcome: OutcomeModel {
                        stopped_after: Some("the eUICC refused the profile package"@),
                        ..done.outcome
                    },
                    ..done
                }
            },
            c2,
        ),
    }
}

/// Whether a step of a download did to the client and to the download, and
/// returned, what it was to.
pub open spec fn went<R: View, M>(
    result: Result<R, SessionError>,
    download: DownloadModel,
    client: ClientModel,
    wanted: (Result<M, SessionFault>, DownloadModel, ClientModel),
) -> bool where R: View<V = M> {
    &&& client == wanted.2
    &&& download == wanted.1
    &&& match result {
        Ok(value) => wanted.0 == Ok::<M, SessionFault>(value@),
        Err(e) => wanted.0 == Err::<M, SessionFault>(e@),
    }
}

/// A reply of the server, by what it says.
pub open spec fn heard<R: View>(reply: Result<R, Es9pError>) -> Result<R::V, Es9pFault> {
    match reply {
        Ok(answer) => Ok(answer@),
        Err(e) => Err(e@),
    }
}

/// A reply of the server that says nothing but that it heard.
pub open spec fn acknowledged(reply: Result<Acknowledgement, Es9pError>) -> Result<
    Acknowledgement,
    Es9pFault,
> {
    match reply {
        Ok(answer) => Ok(answer),
        Err(e) => Err(e@),
    }
}

fn copy_texts(list: &Vec<String>) -> (copy: Vec<String>)
    ensures
        texts(copy@) == texts(list@),
{
    let mut copy: Vec<String> = Vec::new();
    let mut i: usize = 0;
    while i < list.len()
        invariant
            i <= list@.len(),
            copy@.len() == i,
            forall|j: int| 0 <= j < i ==> (#[trigger] copy@[j])@ == list@[j]@,
        decreases list@.len() - i,
    {
        copy.push(owned(list[i].as_str()));
        i = i + 1;
    }
    proof {
        assert(texts(copy@) =~= texts(list@));
    }
    copy
}

fn count_blocks(transfers: &Vec<SegmentTransfer>) -> (count: usize)
    requires
        blocks_of(transfer_models(transfers@)) <= usize::MAX,
    ensures
        count == blocks_of(transfer_models(transfers@)),
{
    let ghost all = transfer_models(transfers@);
    let mut count: usize = 0;
    let mut i: usize = 0;
    proof {
        assert(all.take(0) =~= Seq::empty());
    }
    while i < transfers.len()
        invariant
            i <= transfers@.len(),
            all == transfer_models(transfers@),
            count == blocks_of(all.take(i as int)),
            blocks_of(all) <= usize::MAX,
        decreases transfers@.len() - i,
    {
        proof {
            assert(all.take(i + 1).drop_last() =~= all.take(i as int));
            assert(all.take(i + 1).last() == transfers@[i as int]@);
            lemma_blocks_prefix(all, i + 1);
        }
        count = count + transfers[i].blocks;
        i = i + 1;
    }
    proof {
        assert(all.take(i as int) =~= all);
    }
    count
}

proof fn lemma_blocks_prefix(transfers: Seq<TransferModel>, n: int)
    requires
        0 <= n <= transfers.len(),
    ensures
        blocks_of(transfers.take(n)) <= blocks_of(transfers),
    decreases transfers.len() - n,
{
    if n < transfers.len() {
        assert(transfers.take(n + 1).drop_last() =~= transfers.take(n));
        lemma_blocks_prefix(transfers, n + 1);
    } else {
        assert(transfers.take(n) =~= transfers);
    }
}

impl Download {
    fn record_step(&mut self, step: &'static str, http_status: u16, elapsed_ms: u64)
        ensures
            final(self)@ == (DownloadModel {
                outcome: with_step(old(self)@.outcome, HttpStep { step, http_status, elapsed_ms }),
                ..old(self)@
            }),
    {
        self.outcome.http.push(HttpStep { step, http_status, elapsed_ms });
    }

    fn record_start(&mut self, start: AuthenticationStart)
        ensures
            final(self)@ == with_start(old(self)@, start@),
    {
        let accepted: bool = holds(
            &self.outcome.chip_ci_key_ids,
            start.euicc_ci_pkid_to_be_used.as_str(),
        );
        self.transaction = hex_bytes(start.transaction_id_raw.as_str());
        self.transaction_id_raw = start.transaction_id_raw;
        self.outcome.transaction_id = start.transaction_id;
        self.outcome.echoed_euicc_challenge = start.echoed_euicc_challenge;
        self.outcome.server_challenge = start.server_challenge;
        self.outcome.euicc_ci_pkid_to_be_used = start.euicc_ci_pkid_to_be_used;
        self.outcome.ci_key_accepted_by_chip = accepted;
        self.outcome.verification = start.verification;
        self.outcome.negotiated_tls = start.negotiated_tls;
        self.outcome.admin_protocol = start.admin_protocol;
        self.record_step("initiateAuthentication", start.http_status, start.elapsed_ms);
    }

    fn record_refusal(&mut self, rules: Vec<String>)
        ensures
            final(self)@ == with_refusal(old(self)@, texts(rules@)),
    {
        let mut stopped: String = String::new();
        stopped.append("the profile carries ");
        push_joined(&mut stopped, &rules, " and ");
        stopped.append(", which cannot be removed once installed");
        proof {
            assert(stopped@ =~= "the profile carries "@ + joined_by(texts(rules@), " and "@)
                + ", which cannot be removed once installed"@);
        }
        self.outcome.refused_policy_rules = rules;
        self.outcome.stopped_after = Some(stopped);
        self.outcome.session_cancelled = Some(CancelSessionReason::PprNotAllowed.label());
    }

    fn record_installation(
        &mut self,
        installation: InstallationResult,
        transfers: Vec<SegmentTransfer>,
    )
        requires
            blocks_of(transfer_models(transfers@)) <= usize::MAX,
        ensures
            final(self)@ == with_installation(
                old(self)@,
                installation@,
                transfer_models(transfers@),
            ),
    {
        self.outcome.bpp_blocks = count_blocks(&transfers);
        self.outcome.bpp_segments = transfers;
        self.outcome.installed = installation.success;
        self.notification = copy_of(&installation.notification);
        self.sequence_number = installation.sequence_number;
        self.outcome.notification_bytes = self.notification.len();
        self.outcome.installation = Some(installation);
    }
}

impl<'a, T: QmiTransport> IsdrSession<'a, T> {
    /// The chip's half of a download before any server is asked: who the chip
    /// is, what it holds, and the challenge that the server has to sign.
    pub fn begin_download(&mut self, request: &DownloadRequest) -> (result: Result<
        Download,
        SessionError,
    >)
        ensures
            ran(
                result,
                (*final(self).client)@,
                begun_on(
                    (*old(self).client)@,
                    old(self).slot,
                    old(self).channel,
                    request.activation_code@,
                ),
            ),
            final(self).slot == old(self).slot,
            final(self).channel == old(self).channel,
            *final(final(self).client) == *final(old(self).client),
    {
        let eid: String = match self.read_eid() {
            Ok(eid) => eid,
            Err(e) => return Err(e),
        };
        let before: EuiccSnapshot = match self.snapshot() {
            Ok(before) => before,
            Err(e) => return Err(e),
        };
        let challenge: [u8; 16] = match self.euicc_challenge() {
            Ok(challenge) => challenge,
            Err(e) => return Err(e),
        };
        let info1: EuiccInfo1 = match self.euicc_info1() {
            Ok(info1) => info1,
            Err(e) => return Err(e),
        };
        let mut outcome: DownloadOutcome = DownloadOutcome::default();
        outcome.eid = eid;
        outcome.smdp_address = owned(request.activation_code.smdp_address.as_str());
        outcome.matching_id_present = request.activation_code.matching_id.is_some();
        outcome.before = before;
        outcome.euicc_challenge = challenge;
        outcome.chip_ci_key_ids = copy_texts(&info1.ci_key_ids_for_verification);
        let download = Download {
            outcome,
            info1: info1.raw,
            transaction_id_raw: String::new(),
            transaction: Vec::new(),
            notification: Vec::new(),
            sequence_number: None,
        };
        proof {
            assert(download@ =~= fresh_download(
                request.activation_code@,
                eid@,
                before@,
                challenge@,
                info1@,
            ));
        }
        Ok(download)
    }

    /// The card is asked to judge the server before the server is told
    /// anything about the order. A chip that will not authenticate this SM-DP+
    /// ends the session here, with the activation code untouched.
    ///
    /// Returns what `authenticateClient` carries to the server.
    pub fn introduce_server(
        &mut self,
        download: &mut Download,
        start: AuthenticationStart,
        request: &DownloadRequest,
    ) -> (result: Result<Vec<u8>, SessionError>)
        ensures
            went(
                result,
                final(download)@,
                (*final(self).client)@,
                introduced_on(
                    (*old(self).client)@,
                    old(self).slot,
                    old(self).channel,
                    old(download)@,
                    start@,
                    opt_text(request.activation_code.matching_id),
                    request.imei@,
                ),
            ),
            final(self).slot == old(self).slot,
            final(self).channel == old(self).channel,
            *final(final(self).client) == *final(old(self).client),
    {
        let matching_id: Option<&str> = match &request.activation_code.matching_id {
            Some(id) => Some(id.as_str()),
            None => None,
        };
        let judged: Result<(Vec<u8>, usize), SessionError> = self.authenticate_server(
            &start,
            matching_id,
            request.imei,
        );
        download.record_start(start);
        match judged {
            Err(e) => Err(e),
            Ok((response, blocks)) => {
                download.outcome.authenticate_server_blocks = blocks;
                Ok(response)
            },
        }
    }

    fn close_download(&mut self, download: &mut Download) -> (result: Result<(), SessionError>)
        ensures
            went(
                result,
                final(download)@,
                (*final(self).client)@,
                closed_on(
                    (*old(self).client)@,
                    old(self).slot,
                    old(self).channel,
                    old(download)@,
                ),
            ),
            final(self).slot == old(self).slot,
            final(self).channel == old(self).channel,
            *final(final(self).client) == *final(old(self).client),
    {
        match self.snapshot() {
            Err(e) => Err(e),
            Ok(after) => {
                download.outcome.after = Some(after);
                Ok(())
            },
        }
    }

    fn refuse_profile(&mut self, download: &mut Download) -> (result: Result<
        NextStep,
        SessionError,
    >)
        ensures
            went(
                result,
                final(download)@,
                (*final(self).client)@,
                refused_on(
                    (*old(self).client)@,
                    old(self).slot,
                    old(self).channel,
                    old(download)@,
                ),
            ),
            final(self).slot == old(self).slot,
            final(self).channel == old(self).channel,
            *final(final(self).client) == *final(old(self).client),
    {
        match self.cancel_session(&download.transaction, CancelSessionReason::PprNotAllowed) {
            Ok(response) => Ok(NextStep::GiveBack(response)),
            Err(error) => {
                download.outcome.cancel_error = Some(error.to_string());
                match self.close_download(download) {
                    Ok(_) => Ok(NextStep::Over),
                    Err(e) => Err(e),
                }
            },
        }
    }

    fn want_profile(
        &mut self,
        download: &mut Download,
        answer: &ClientAuthentication,
        confirmation_code: Option<&str>,
    ) -> (result: Result<NextStep, SessionError>)
        requires
            answer.smdp_signed2@.len() + 32 <= MAX_DIGEST_BYTES,
            confirmation_code matches Some(code) ==> encode_utf8(code@).len() <= MAX_DIGEST_BYTES,
        ensures
            went(
                result,
                final(download)@,
                (*final(self).client)@,
                wanted_on(
                    (*old(self).client)@,
                    old(self).slot,
                    old(self).channel,
                    old(download)@,
                    answer@,
                    opt_str(confirmation_code),
                ),
            ),
            final(self).slot == old(self).slot,
            final(self).channel == old(self).channel,
            *final(final(self).client) == *final(old(self).client),
    {
        match self.prepare_download(answer, confirmation_code) {
            Err(e) => Err(e),
            Ok((response, blocks)) => {
                download.outcome.prepare_download_blocks = blocks;
                Ok(NextStep::FetchPackage(response))
            },
        }
    }

    /// The decision. `ppr1` forbids ever disabling a profile and `ppr2` forbids
    /// ever deleting it, and both are permanent from the moment the package is
    /// installed: on hardware nobody can physically reach, a profile that
    /// cannot be removed is a slot that is gone. Such a profile is handed back
    /// rather than installed.
    ///
    /// A server that refused leaves the card holding an RSP session that will
    /// never be finished, so that is cancelled, as well as it can be, before
    /// the refusal is returned: a refused matching id is a thing an operator
    /// retypes, and the retry has to find the chip in the state it started in.
    pub fn decide_download(
        &mut self,
        download: &mut Download,
        reply: Result<ClientAuthentication, Es9pError>,
        request: &DownloadRequest,
    ) -> (result: Result<NextStep, SessionError>)
        requires
            reply matches Ok(answer) ==> answer.smdp_signed2@.len() + 32 <= MAX_DIGEST_BYTES,
            request.confirmation_code matches Some(code) ==> encode_utf8(code@).len()
                <= MAX_DIGEST_BYTES,
        ensures
            went(
                result,
                final(download)@,
                (*final(self).client)@,
                decided_on(
                    (*old(self).client)@,
                    old(self).slot,
                    old(self).channel,
                    old(download)@,
                    heard(reply),
                    opt_str(request.confirmation_code),
                ),
            ),
            final(self).slot == old(self).slot,
            final(self).channel == old(self).channel,
            *final(final(self).client) == *final(old(self).client),
    {
        let answer: ClientAuthentication = match reply {
            Ok(answer) => answer,
            Err(error) => {
                let _cancelled = self.cancel_session(
                    &download.transaction,
                    CancelSessionReason::UndefinedReason,
                );
                return Err(SessionError::Es9p(error));
            },
        };
        download.record_step("authenticateClient", answer.http_status, answer.elapsed_ms);
        let metadata: ProfileMetadata = match crate::es10c::parse_profile_metadata(
            &answer.profile_metadata,
        ) {
            Ok(metadata) => metadata,
            Err(e) => return Err(SessionError::Es10c(e)),
        };
        let required: bool = match crate::es10c::confirmation_code_required(
            &answer.smdp_signed2,
        ) {
            Ok(required) => required,
            Err(e) => return Err(SessionError::Es10c(e)),
        };
        let rules: Vec<String> = metadata.irreversible_policy_rules();
        download.outcome.confirmation_code_required = required;
        download.outcome.metadata = Some(metadata);
        if rules.len() > 0 {
            download.record_refusal(rules);
            self.refuse_profile(download)
        } else {
            self.want_profile(download, &answer, request.confirmation_code)
        }
    }

    /// What follows once the server has answered that the profile was given
    /// back. A failure is recorded rather than raised: there is already a
    /// reason to report, and "the cancel failed" would hide it.
    pub fn give_back_session(
        &mut self,
        download: &mut Download,
        reply: Result<Acknowledgement, Es9pError>,
    ) -> (result: Result<(), SessionError>)
        ensures
            went(
                result,
                final(download)@,
                (*final(self).client)@,
                given_back_on(
                    (*old(self).client)@,
                    old(self).slot,
                    old(self).channel,
                    old(download)@,
                    acknowledged(reply),
                ),
            ),
            final(self).slot == old(self).slot,
            final(self).channel == old(self).channel,
            *final(final(self).client) == *final(old(self).client),
    {
        match reply {
            Ok(answer) => download.record_step(
                "cancelSession",
                answer.http_status,
                answer.elapsed_ms,
            ),
            Err(error) => {
                download.outcome.cancel_error = Some(error.to_string());
            },
        }
        self.close_download(download)
    }

    /// Install the package that the server released.
    pub fn install_package(&mut self, download: &mut Download, bound: &BoundPackage) -> (result:
        Result<(), SessionError>)
        ensures
            went(
                result,
                final(download)@,
                (*final(self).client)@,
                installed_on(
                    (*old(self).client)@,
                    old(self).slot,
                    old(self).channel,
                    old(download)@,
                    bound@,
                ),
            ),
            final(self).slot == old(self).slot,
            final(self).channel == old(self).channel,
            *final(final(self).client) == *final(old(self).client),
    {
        download.record_step("getBoundProfilePackage", bound.http_status, bound.elapsed_ms);
        download.outcome.bpp_bytes = bound.package.len();
        match self.load_bound_profile_package(&bound.package) {
            Err(e) => Err(e),
            Ok((installation, transfers)) => {
                download.record_installation(installation, transfers);
                Ok(())
            },
        }
    }

    fn settle_notification(
        &mut self,
        download: &mut Download,
        reply: Result<Acknowledgement, Es9pError>,
    )
        ensures
            (final(download)@, (*final(self).client)@) == delivered_on(
                (*old(self).client)@,
                old(self).slot,
                old(self).channel,
                old(download)@,
                acknowledged(reply),
            ),
            final(self).slot == old(self).slot,
            final(self).channel == old(self).channel,
            *final(final(self).client) == *final(old(self).client),
    {
        match reply {
            Err(error) => {
                download.outcome.notification_delivery_error = Some(error.to_string());
            },
            Ok(answer) => {
                download.record_step("handleNotification", answer.http_status, answer.elapsed_ms);
                download.outcome.notification_delivered = true;
                if let Some(number) = download.sequence_number {
                    match self.remove_notification(number) {
                        Ok(code) => {
                            download.outcome.notification_removed = Some(code);
                        },
                        Err(error) => {
                            let mut text: String = String::new();
                            text.append("delivered, but the card would not remove it: ");
                            error.push_to(&mut text);
                            proof {
                                assert(text@
                                    =~= "delivered, but the card would not remove it: "@
                                    + error@.text());
                            }
                            download.outcome.notification_delivery_error = Some(text);
                        },
                    }
                }
            },
        }
    }

    /// What follows once the notification went to the server, whether the
    /// installation succeeded or failed. It leaves the card only once the
    /// server has it: the other order loses it if the delivery fails, and the
    /// card will not produce it again.
    pub fn finish_download(
        &mut self,
        download: &mut Download,
        reply: Result<Acknowledgement, Es9pError>,
    ) -> (result: Result<(), SessionError>)
        ensures
            went(
                result,
                final(download)@,
                (*final(self).client)@,
                finished_on(
                    (*old(self).client)@,
                    old(self).slot,
                    old(self).channel,
                    old(download)@,
                    acknowledged(reply),
                ),
            ),
            final(self).slot == old(self).slot,
            final(self).channel == old(self).channel,
            *final(final(self).client) == *final(old(self).client),
    {
        self.settle_notification(download, reply);
        match self.close_download(download) {
            Err(e) => Err(e),
            Ok(_) => {
                if !download.outcome.installed {
                    download.outcome.stopped_after = Some(
                        owned("the eUICC refused the profile package"),
                    );
                }
                Ok(())
            },
        }
    }
}

// ---------------------------------------------------------------------------
// Laws
// ---------------------------------------------------------------------------

/// A profile that could never be removed is never fetched: whatever the server
/// says and whatever the card answers, the step after it is not
/// `GetBoundProfilePackage`, and where a step follows at all the outcome names
/// each rule that stopped it.
pub proof fn law_a_permanent_profile_is_never_fetched(
    client: ClientModel,
    slot: u8,
    channel: u8,
    download: DownloadModel,
    answer: AuthModel,
    code: Option<Seq<char>>,
)
    requires
        metadata_in(answer.profile_metadata) matches Ok(metadata) && rules_against(metadata).len()
            > 0,
    ensures
        ({
            let (next, after, _) = decided_on(client, slot, channel, download, Ok(answer), code);
            match next {
                Ok(step) => {
                    &&& !(step is FetchPackage)
                    &&& after.outcome.refused_policy_rules == rules_against(
                        metadata_in(answer.profile_metadata)->Ok_0,
                    )
                    &&& after.outcome.stopped_after is Some
                    &&& after.outcome.installed == download.outcome.installed
                },
                Err(_) => true,
            }
        }),
{
}

/// A profile that is fetched carries neither rule.
pub proof fn law_what_is_fetched_can_be_removed(
    client: ClientModel,
    slot: u8,
    channel: u8,
    download: DownloadModel,
    reply: Result<AuthModel, Es9pFault>,
    code: Option<Seq<char>>,
)
    requires
        decided_on(client, slot, channel, download, reply, code).0 matches Ok(step) && step
            is FetchPackage,
    ensures
        metadata_in(reply->Ok_0.profile_metadata) matches Ok(metadata) && forall|i: int|
            0 <= i < metadata.policy_rules.len() ==> !irreversible(
                #[trigger] metadata.policy_rules[i],
            ),
{
    let metadata = metadata_in(reply->Ok_0.profile_metadata)->Ok_0;
    let keep = |rule: Seq<char>| irreversible(rule);
    assert(rules_against(metadata) == metadata.policy_rules.filter(keep));
    metadata.policy_rules.filter_lemma(keep);
    assert forall|i: int| 0 <= i < metadata.policy_rules.len() implies !irreversible(
        #[trigger] metadata.policy_rules[i],
    ) by {
        if irreversible(metadata.policy_rules[i]) {
            assert(keep(metadata.policy_rules[i]));
            let kept = metadata.policy_rules.filter(keep);
            assert(kept.contains(metadata.policy_rules[i]));
        }
    }
}

/// A server that did not take the notification leaves it on the card: nothing
/// is asked of the card, and the outcome says why.
pub proof fn law_an_undelivered_notification_stays(
    client: ClientModel,
    slot: u8,
    channel: u8,
    download: DownloadModel,
    refusal: Es9pFault,
)
    ensures
        ({
            let (after, last) = delivered_on(client, slot, channel, download, Err(refusal));
            &&& last == client
            &&& after.outcome.notification_delivered == download.outcome.notification_delivered
            &&& after.outcome.notification_removed == download.outcome.notification_removed
            &&& after.outcome.notification_delivery_error == Some(refusal.text())
        }),
{
}

/// The transaction id of a session that goes back to the card says what the
/// server wrote: for text of two digits to an octet and nothing else, one
/// octet for each two digits, in order.
pub proof fn law_a_transaction_is_its_digits(raw: Seq<char>)
    requires
        raw.len() % 2 == 0,
        forall|i: int| 0 <= i < raw.len() ==> hex_value(#[trigger] raw[i]) is Some,
    ensures
        octets_from(hex_digits(raw)).len() == raw.len() / 2,
        forall|i: int|
            0 <= i < raw.len() / 2 ==> (#[trigger] octets_from(hex_digits(raw))[i]) == 16
                * hex_value(raw[2 * i])->0 + hex_value(raw[2 * i + 1])->0,
{
    lemma_all_digits(raw);
    assert forall|i: int| 0 <= i < raw.len() / 2 implies (#[trigger] octets_from(
        hex_digits(raw),
    )[i]) == 16 * hex_value(raw[2 * i])->0 + hex_value(raw[2 * i + 1])->0 by {
        assert(hex_digits(raw)[2 * i] == hex_value(raw[2 * i])->0);
        assert(hex_digits(raw)[2 * i + 1] == hex_value(raw[2 * i + 1])->0);
    }
}

proof fn lemma_all_digits(raw: Seq<char>)
    requires
        forall|i: int| 0 <= i < raw.len() ==> hex_value(#[trigger] raw[i]) is Some,
    ensures
        hex_digits(raw).len() == raw.len(),
        forall|i: int|
            0 <= i < raw.len() ==> (#[trigger] hex_digits(raw)[i]) == hex_value(raw[i])->0,
    decreases raw.len(),
{
    if raw.len() > 0 {
        lemma_all_digits(raw.drop_last());
    }
}

} // verus!
