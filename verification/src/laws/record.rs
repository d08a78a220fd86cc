//! What is kept of a download, of a probe and of a reading.

use crate::ber::ElementModel;
use crate::certificate::{
    authority_key_in, children_in, from_fields, subject_key_in, with_extension, KeyIds,
};
use crate::domain::{EvidenceModel, PlmnModel};
use crate::download::{
    blocks_of, delivered_on, finished_on, given_back_on, installed_on, loaded_on, snapshot_on,
    transfer_of, with_authentication, with_metadata, with_package, with_refusal, with_start,
    Acknowledgement, AuthModel, BoundModel, DownloadModel, HttpStep, TransferModel,
};
use crate::es10c::{block_count, MetadataModel, SegmentModel};
use crate::es9p::{Es9pFault, StartModel};
use crate::inbox::{fingerprint, fnv1a, stamp};
use crate::isdr::{eid_on, info2_on, notifications_on, profiles_on, removed_on, within_channel};
use crate::nas::{CellModel, ServingSystem};
use crate::probe::{described, inspected, introduced, located, mode_shown, probed, ProbeModel};
use crate::qmi_port::{cell_evidence, evidence_on, serving_evidence, serving_plmn};
use crate::session::{
    cell_location_on, manufacturer_on, messages_listed_on, model_on, operating_mode_on, revision_on,
    serial_numbers_on, serving_system_on, synced_on, ClientModel, SessionFault,
};
use crate::text::{decimal, joined_by, lossy, three_digits};
use crate::wms::{MessageMode, MessageTag, StorageType};
use vstd::prelude::*;
use vstd::utf8::encode_utf8;

verus! {

/// A snapshot of a chip is what it said of its memory, its profiles and its
/// notifications, each from its own question.
pub proof fn law_a_snapshot_is_what_the_chip_said(client: ClientModel, slot: u8, channel: u8)
    requires
        snapshot_on(client, slot, channel).0 is Ok,
    ensures
        ({
            let snapshot = snapshot_on(client, slot, channel).0->Ok_0;
            let (info, c1) = info2_on(client, slot, channel);
            let (held, c2) = profiles_on(c1, slot, channel);
            let (notified, c3) = notifications_on(c2, slot, channel);
            &&& info is Ok && info->Ok_0.free_non_volatile_memory
                == snapshot.free_non_volatile_memory
            &&& held == Ok::<_, SessionFault>(snapshot.profiles)
            &&& notified == Ok::<_, SessionFault>(snapshot.notifications)
            &&& snapshot_on(client, slot, channel).1 == c3
        }),
{
}

/// A start is kept as it came: its transaction, the challenge it echoes, its
/// own challenge, the key it names, and whether the chip takes that key.
pub proof fn law_a_start_is_kept_as_it_came(download: DownloadModel, start: StartModel)
    ensures
        ({
            let known = with_start(download, start);
            &&& known.transaction_id_raw == start.transaction_id_raw
            &&& known.outcome.transaction_id == start.transaction_id
            &&& known.outcome.echoed_euicc_challenge == start.echoed_euicc_challenge
            &&& known.outcome.server_challenge == start.server_challenge
            &&& known.outcome.euicc_ci_pkid_to_be_used == start.euicc_ci_pkid_to_be_used
            &&& known.outcome.ci_key_accepted_by_chip <==> exists|i: int|
                0 <= i < download.outcome.chip_ci_key_ids.len()
                    && download.outcome.chip_ci_key_ids[i] == start.euicc_ci_pkid_to_be_used
            &&& known.outcome.verification == start.verification
            &&& known.outcome.negotiated_tls == start.negotiated_tls
            &&& known.outcome.admin_protocol == start.admin_protocol
            &&& known.outcome.euicc_challenge == download.outcome.euicc_challenge
            &&& known.outcome.before == download.outcome.before
            &&& known.info1 == download.info1
        }),
{
}

/// What one exchange with a server adds to what is kept: its name, its status
/// and how long it took, behind everything before it.
pub open spec fn adds(
    before: DownloadModel,
    after: DownloadModel,
    step: &'static str,
    http_status: u16,
    elapsed_ms: u64,
) -> bool {
    after.outcome.http == before.outcome.http.push(HttpStep { step, http_status, elapsed_ms })
}

/// Every exchange with a server is kept once, under its own name, in the order
/// in which it came.
pub proof fn law_each_exchange_is_kept_once(
    client: ClientModel,
    slot: u8,
    channel: u8,
    download: DownloadModel,
    start: StartModel,
    answer: AuthModel,
    bound: BoundModel,
    reply: Acknowledgement,
)
    ensures
        adds(
            download,
            with_start(download, start),
            "initiateAuthentication",
            start.http_status,
            start.elapsed_ms,
        ),
        adds(
            download,
            with_authentication(download, answer),
            "authenticateClient",
            answer.http_status,
            answer.elapsed_ms,
        ),
        adds(
            download,
            with_package(download, bound),
            "getBoundProfilePackage",
            bound.http_status,
            bound.elapsed_ms,
        ),
        adds(
            download,
            given_back_on(client, slot, channel, download, Ok(reply)).1,
            "cancelSession",
            reply.http_status,
            reply.elapsed_ms,
        ),
        adds(
            download,
            delivered_on(client, slot, channel, download, Ok(reply)).0,
            "handleNotification",
            reply.http_status,
            reply.elapsed_ms,
        ),
        with_package(download, bound).outcome.bpp_bytes == bound.package.len() as usize,
{
}

/// What a card says of an installation is what is kept of it: whether it
/// succeeded, its notification and the number of that.
pub proof fn law_an_installation_is_kept_as_the_card_said(
    client: ClientModel,
    slot: u8,
    channel: u8,
    download: DownloadModel,
    bound: BoundModel,
)
    requires
        installed_on(client, slot, channel, download, bound).0 is Ok,
    ensures
        ({
            let (_, done, after) = installed_on(client, slot, channel, download, bound);
            let (loaded, last) = loaded_on(client, slot, channel, bound.package);
            &&& loaded is Ok
            &&& after == last
            &&& done.outcome.installed == loaded->Ok_0.0.success
            &&& done.outcome.installation == Some(loaded->Ok_0.0)
            &&& done.outcome.bpp_segments == loaded->Ok_0.1
            &&& done.notification == loaded->Ok_0.0.notification
            &&& done.sequence_number == loaded->Ok_0.0.sequence_number
            &&& done.transaction == download.transaction
        }),
{
}

/// A refusal keeps the rules that stand against a profile and ends the session
/// for them; what was wanted of it is kept beside.
pub proof fn law_a_refused_profile_says_why(
    download: DownloadModel,
    metadata: MetadataModel,
    required: bool,
    rules: Seq<Seq<char>>,
)
    ensures
        ({
            let known = with_metadata(download, metadata, required);
            let refused = with_refusal(known, rules);
            &&& known.outcome.metadata == Some(metadata)
            &&& known.outcome.confirmation_code_required == required
            &&& refused.outcome.metadata == Some(metadata)
            &&& refused.outcome.refused_policy_rules == rules
            &&& refused.outcome.session_cancelled == Some("pprNotAllowed")
            &&& refused.outcome.stopped_after == Some(
                "the profile carries "@ + joined_by(rules, " and "@)
                    + ", which cannot be removed once installed"@,
            )
        }),
{
}

/// The end of a download neither makes nor unmakes an installation; one that
/// the card refused says so; and the chip is looked at once more.
pub proof fn law_the_end_keeps_what_was_installed(
    client: ClientModel,
    slot: u8,
    channel: u8,
    download: DownloadModel,
    reply: Result<Acknowledgement, Es9pFault>,
)
    requires
        finished_on(client, slot, channel, download, reply).0 is Ok,
    ensures
        ({
            let done = finished_on(client, slot, channel, download, reply).1;
            let (delivered, after) = delivered_on(client, slot, channel, download, reply);
            &&& done.outcome.installed == download.outcome.installed
            &&& download.outcome.installed ==> done.outcome.stopped_after
                == download.outcome.stopped_after
            &&& !download.outcome.installed ==> done.outcome.stopped_after == Some(
                "the eUICC refused the profile package"@,
            )
            &&& done.outcome.after is Some
            &&& snapshot_on(after, slot, channel).0 == Ok::<_, SessionFault>(
                done.outcome.after->0,
            )
            &&& done.outcome.http == delivered.outcome.http
        }),
{
}

/// A notification is delivered where the server took it, and is then removed
/// from the card by its own number.
pub proof fn law_a_delivered_notification_is_removed(
    client: ClientModel,
    slot: u8,
    channel: u8,
    download: DownloadModel,
    reply: Acknowledgement,
    number: u64,
)
    requires
        download.sequence_number == Some(number),
    ensures
        ({
            let (done, after) = delivered_on(client, slot, channel, download, Ok(reply));
            let (removed, last) = removed_on(client, slot, channel, number);
            &&& done.outcome.notification_delivered
            &&& after == last
            &&& removed matches Ok(code) ==> done.outcome.notification_removed == Some(code)
            &&& removed is Err ==> done.outcome.notification_delivery_error is Some
        }),
{
}

/// A payload goes out in the fewest blocks of 255 octets that hold it, and the
/// blocks of segments add up.
pub proof fn law_blocks_are_counted(segment: SegmentModel, before: Seq<TransferModel>)
    requires
        0 < segment.bytes.len() <= 0xffff_ffff,
    ensures
        255 * (transfer_of(segment).blocks - 1) < segment.bytes.len() <= 255 * transfer_of(
            segment,
        ).blocks,
        transfer_of(segment).bytes == segment.bytes.len(),
        transfer_of(segment).label == segment.label,
        blocks_of(before.push(transfer_of(segment))) == blocks_of(before) + transfer_of(
            segment,
        ).blocks,
        blocks_of(Seq::empty()) == 0,
{
    let length = segment.bytes.len();
    let count = block_count(length);
    assert(255 * (count - 1) < length <= 255 * count && count <= length) by (nonlinear_arith)
        requires
            count == (length + 254) / 255,
            length > 0,
    ;
    assert(before.push(transfer_of(segment)).drop_last() =~= before);
}

// ---------------------------------------------------------------------------
// A server's certificate
// ---------------------------------------------------------------------------

/// What is read of a certificate stands at its places behind the version: the
/// end of its validity in the second half of the fourth field, its key in the
/// second half of the sixth, without the octet that counts unused bits.
pub proof fn law_a_certificate_is_read_by_its_places(
    tbs: ElementModel,
    signature: Seq<u8>,
    fields: Seq<ElementModel>,
    validity: Seq<ElementModel>,
    key: Seq<ElementModel>,
)
    requires
        fields.len() >= 7,
        fields[0].tag == seq![0xa0u8],
        children_in(fields[4].value) == Ok::<Seq<ElementModel>, Seq<char>>(validity),
        children_in(fields[6].value) == Ok::<Seq<ElementModel>, Seq<char>>(key),
        from_fields(tbs, signature, fields) is Ok,
    ensures
        ({
            let read = from_fields(tbs, signature, fields)->Ok_0;
            &&& validity.len() >= 2 && key.len() >= 2
            &&& read.tbs == tbs.whole
            &&& read.signature == signature
            &&& read.not_after == lossy(validity[1].value)
            &&& key[1].tag == seq![0x03u8]
            &&& key[1].value == seq![key[1].value[0]] + read.public_key
        }),
{
    let bits = key[1].value;
    if bits.len() > 0 {
        assert(bits =~= seq![bits[0]] + bits.skip(1));
    }
}

/// The key of a certificate and the key that signed it are told apart by the
/// extension they stand in, `2.5.29.14` and `2.5.29.35`.
pub proof fn law_two_keys_of_a_certificate_are_told_apart(
    ids: KeyIds,
    name: ElementModel,
    payload: ElementModel,
)
    ensures
        name.value == seq![0x55u8, 0x1du8, 14u8] ==> with_extension(ids, seq![name, payload])
            == (KeyIds { subject: subject_key_in(payload.value), ..ids }),
        name.value == seq![0x55u8, 0x1du8, 35u8] ==> with_extension(ids, seq![name, payload])
            == (KeyIds { authority: authority_key_in(payload.value), ..ids }),
{
    let parts = seq![name, payload];
    assert(parts.last() == payload);
    assert(seq![0x55u8, 0x1du8, 14u8][2] == 14);
    assert(seq![0x55u8, 0x1du8, 35u8][2] == 35);
}

// ---------------------------------------------------------------------------
// Where a module is registered
// ---------------------------------------------------------------------------

/// A module is registered where the network says so and nowhere else; its
/// network is a country of three digits and an operator; and where the country
/// is missing or zero there is no network.
pub proof fn law_where_a_module_is_registered(serving: ServingSystem, cell: CellModel)
    ensures
        serving_evidence(Ok(serving)) == seq![
            EvidenceModel::ServingSystem {
                registered: serving.registration_state is Registered,
                plmn: serving_plmn(serving),
            },
        ],
        serving.mcc is None || serving.mnc is None || serving.mcc == Some(0u16) ==> serving_plmn(
            serving,
        ) is None,
        forall|mcc: u16, mnc: u16|
            mcc != 0 && serving.mcc == Some(mcc) && serving.mnc == Some(mnc) ==> serving_plmn(
                serving,
            ) == Some(
                PlmnModel {
                    mcc: #[trigger] three_digits(mcc as nat),
                    mnc: #[trigger] decimal(mnc as nat),
                },
            ),
        cell_evidence(Ok(cell)) == seq![
            EvidenceModel::CellLocation {
                plmn: Some(PlmnModel { mcc: cell.mcc, mnc: cell.mnc }),
                global_cell_id: Some(cell.global_cell_id),
            },
        ],
{
}

/// A module is asked for its network and for its cell, in that order, and what
/// it refuses leaves no evidence.
pub proof fn law_evidence_is_what_was_answered(client: ClientModel)
    ensures
        ({
            let (serving, c1) = serving_system_on(client);
            let (cell, c2) = cell_location_on(c1);
            &&& evidence_on(client).1 == c2
            &&& evidence_on(client).0.len() == (if serving is Ok {
                1int
            } else {
                0
            }) + (if cell is Ok {
                1int
            } else {
                0
            })
            &&& serving is Ok ==> evidence_on(client).0[0] is ServingSystem
            &&& cell is Ok ==> evidence_on(client).0.last() is CellLocation
        }),
{
}

// ---------------------------------------------------------------------------
// A probe
// ---------------------------------------------------------------------------

/// A probe asks for one thing after the other and each line says what its own
/// question answered.
pub proof fn law_each_line_of_a_probe_answers_its_question(before: ProbeModel)
    ensures
        ({
            let (model, c1) = model_on(before.client);
            let (maker, c2) = manufacturer_on(c1);
            let lines = described(before).lines;
            &&& described(before).client == c2
            &&& lines.len() == before.lines.len() + 2
            &&& model matches Ok(text) ==> lines[before.lines.len() as int] == "  "@ + "model"@
                + "="@ + text
            &&& maker matches Ok(text) ==> lines[before.lines.len() as int + 1] == "  "@
                + "manufacturer"@ + "="@ + text
        }),
        ({
            let (serving, c1) = serving_system_on(before.client);
            let (cell, c2) = cell_location_on(c1);
            let lines = located(before).lines;
            &&& located(before).client == c2
            &&& lines.len() == before.lines.len() + 2
            &&& serving matches Ok(system) ==> lines[before.lines.len() as int]
                == crate::probe::serving_line(system)
            &&& cell matches Ok(place) ==> lines[before.lines.len() as int + 1] == crate::probe::cell_line(
                place,
            )
        }),
        ({
            let (mode, c1) = operating_mode_on(before.client);
            &&& mode_shown(before).client == c1
            &&& mode_shown(before).lines.len() == before.lines.len() + 1
            &&& mode matches Ok(value) ==> mode_shown(before).lines.last() == "  "@
                + "operating_mode"@ + "="@ + crate::probe::shown_mode(value)
        }),
        inspected(before).client == within_channel(
            messages_listed_on(
                before.client,
                StorageType::Uim,
                MessageTag::MtUnread,
                MessageMode::Gw,
            ).1,
            1,
            |c: ClientModel, channel: u8| eid_on(c, 1, channel),
        ).1,
{
}

/// A module that greets and names itself is asked on; one that does not is
/// left at that question.
pub proof fn law_a_probe_stops_at_the_first_silence(client: ClientModel)
    ensures
        ({
            let (synced, c1) = synced_on(client);
            let (serials, c2) = serial_numbers_on(c1);
            let (revision, c3) = revision_on(c2);
            &&& introduced(client).result is Ok <==> synced is Ok && serials is Ok && revision is Ok
            &&& synced is Err ==> introduced(client).client == c1
            &&& synced is Ok && serials is Err ==> introduced(client).client == c2
            &&& synced is Ok && serials is Ok ==> introduced(client).client == c3
            &&& introduced(client).result is Err ==> probed(client) == introduced(client)
        }),
{
}

// ---------------------------------------------------------------------------
// A fragment's name
// ---------------------------------------------------------------------------

/// One more octet in a digest is one step of the sixty-four bit FNV-1a: the
/// octet is added to the digest without carry, and that is multiplied by the
/// prime and cut to sixty-four bits.
pub proof fn law_a_digest_takes_one_octet_at_a_time(octets: Seq<u8>, octet: u8)
    ensures
        fnv1a(Seq::empty()) == 14695981039346656037u64,
        fnv1a(octets.push(octet)) == ((fnv1a(octets) ^ (octet as u64)) * 1099511628211)
            % 18446744073709551616,
{
    assert(octets.push(octet).drop_last() =~= octets);
}

/// The name of a fragment says who sent it and when, which message it is of,
/// how many parts that has and which this is, and what it holds.
pub proof fn law_a_fragment_is_named_by_what_it_is(
    sender: Seq<char>,
    at: i64,
    ref_id: u16,
    total: u8,
    part: u8,
    body: Seq<char>,
)
    ensures
        fingerprint(sender, Some(at), ref_id, total, part, body) == "v1|"@ + sender + "|"@ + stamp(
            Some(at),
        ) + "|"@ + (crate::text::hex_quad(ref_id) + "|"@ + decimal(total as nat) + "|"@ + decimal(
            part as nat,
        ) + "|"@ + crate::text::hex_sixteen(fnv1a(encode_utf8(body)))),
        at >= 0 ==> stamp(Some(at)) == decimal(at as nat),
        at < 0 ==> stamp(Some(at)) == "-"@ + decimal((-at) as nat),
        stamp(None) == "-"@,
{
}

} // verus!
