//! The ISD-R of an eUICC over a QMI session: one logical channel, and the ES10
//! functions that run on it.

use crate::es10c::{
    addresses_in, bare_request, blank_addresses, block_count, cancel_request, chain_of,
    challenge_in, command_result, eid_answer, eid_request, info1_in, info2_in,
    notification_models, notifications_in, octets_of, pending_in, pending_models,
    profile_models, profile_request, profiles_in, remove_request, removal_in, store_data_chain,
    AddressesModel, CancelSessionReason, ConfiguredAddresses, DownloadStep, Es10cError,
    Es10cFault, EuiccInfo1, EuiccInfo1Model, EuiccInfo2, EuiccInfo2Model, NotificationMetadata,
    NotificationModel, PendingModel, PendingNotification, Profile, ProfileCommand, ProfileModel,
    FN_CONFIGURED_ADDRESSES, FN_DISABLE_PROFILE, FN_ENABLE_PROFILE, FN_EUICC_CHALLENGE,
    FN_EUICC_INFO1, FN_EUICC_INFO2, FN_GET_PROFILES_INFO, FN_LIST_NOTIFICATION,
    FN_RETRIEVE_NOTIFICATIONS,
};
use crate::json::{json_string, json_string_of};
use crate::session::{
    apdu_sent_on, by_uim, channel_closed_on, channel_opened_on, ran, ran_to, ClientModel,
    QmiClient, QmiTransport, SessionError, SessionFault,
};
use crate::text::{
    all_digits, chars_of, decimal, digit, is_digit, opt_text, owned, push_decimal, same_text,
    string_of, texts, trim, trimmed,
};
use crate::uim::{
    eid_in, get_eid_apdu, get_eid_command, isd_r, isd_r_aid, join_rounds, joined, ApduModel,
    ApduResponse, UimError, MAX_GET_RESPONSE_ROUNDS,
};
use vstd::prelude::*;

verus! {

// ---------------------------------------------------------------------------
// One channel
// ---------------------------------------------------------------------------

/// An error with what was being done in front of it.
pub open spec fn during(what: Seq<char>, error: SessionFault) -> SessionFault {
    SessionFault::Transport(what + error.text())
}

fn failed_during(what: &str, error: &SessionError) -> (result: SessionError)
    ensures
        result@ == during(what@, error@),
{
    let mut text: String = owned(what);
    error.push_to(&mut text);
    SessionError::Transport(text)
}

/// An eUICC that never stops saying there is more.
pub open spec fn too_many_rounds(slot: u8) -> SessionFault {
    SessionFault::Transport(
        "eUICC on slot "@ + decimal(slot as nat) + " asked for more than "@ + decimal(
            MAX_GET_RESPONSE_ROUNDS as nat,
        ) + " GET RESPONSE rounds"@,
    )
}

/// Fetching what is left of an answer, round by round, until the card stops
/// saying there is more.
pub open spec fn drained(
    client: ClientModel,
    slot: u8,
    channel: u8,
    gathered: Seq<u8>,
    latest: ApduModel,
    rounds: nat,
) -> (Result<ApduModel, SessionFault>, ClientModel)
    decreases MAX_GET_RESPONSE_ROUNDS - rounds,
{
    if !latest.more() {
        (Ok(joined(gathered, latest)), client)
    } else if rounds >= MAX_GET_RESPONSE_ROUNDS {
        (Err(too_many_rounds(slot)), client)
    } else {
        let (answer, after) = apdu_sent_on(client, slot, channel, latest.fetch());
        match answer {
            Err(e) => (Err(during("GET RESPONSE: "@, e)), after),
            Ok(next) => drained(
                after,
                slot,
                channel,
                joined(gathered, latest).data,
                next,
                rounds + 1,
            ),
        }
    }
}

/// One APDU and all of its answer.
pub open spec fn transmitted(client: ClientModel, slot: u8, channel: u8, apdu: Seq<u8>) -> (
    Result<ApduModel, SessionFault>,
    ClientModel,
) {
    let (answer, after) = apdu_sent_on(client, slot, channel, apdu);
    match answer {
        Err(e) => (Err(during("ES10 command: "@, e)), after),
        Ok(first) => drained(after, slot, channel, Seq::empty(), first, 0),
    }
}

/// A chain of APDUs, each of which has to succeed. Only the last one carries
/// the answer: what an earlier one returns would corrupt it.
pub open spec fn chained(client: ClientModel, slot: u8, channel: u8, chain: Seq<Seq<u8>>) -> (
    Result<Seq<u8>, SessionFault>,
    ClientModel,
)
    decreases chain.len(),
{
    if chain.len() == 0 {
        (Ok(Seq::empty()), client)
    } else {
        let (answer, after) = transmitted(client, slot, channel, chain[0]);
        match answer {
            Err(e) => (Err(e), after),
            Ok(response) => if !response.success() {
                (
                    Err(
                        SessionFault::Uim(
                            UimError::ApduFailed { sw1: response.sw1, sw2: response.sw2 },
                        ),
                    ),
                    after,
                )
            } else if chain.len() == 1 {
                (Ok(response.data), after)
            } else {
                chained(after, slot, channel, chain.skip(1))
            },
        }
    }
}

/// One ES10 request, split across as many blocks as it takes.
pub open spec fn executed(client: ClientModel, slot: u8, channel: u8, payload: Seq<u8>) -> (
    Result<Seq<u8>, SessionFault>,
    ClientModel,
) {
    match chain_of(payload) {
        Err(e) => (Err(SessionFault::Es10c(e)), client),
        Ok(chain) => chained(client, slot, channel, chain),
    }
}

/// An ES10 reading as a session reports it.
pub open spec fn by_es10c<A>(reading: Result<A, Es10cFault>) -> Result<A, SessionFault> {
    match reading {
        Ok(value) => Ok(value),
        Err(e) => Err(SessionFault::Es10c(e)),
    }
}

/// One ES10 request whose answer is read by `parse`.
pub open spec fn asked<A>(
    client: ClientModel,
    slot: u8,
    channel: u8,
    payload: Seq<u8>,
    parse: spec_fn(Seq<u8>) -> Result<A, Es10cFault>,
) -> (Result<A, SessionFault>, ClientModel) {
    let (answer, after) = executed(client, slot, channel, payload);
    match answer {
        Err(e) => (Err(e), after),
        Ok(bytes) => (by_es10c(parse(bytes)), after),
    }
}

/// The EID: asked for the ES10c way first, then the GlobalPlatform way. Where
/// both fail the first failure is the one reported.
pub open spec fn eid_on(client: ClientModel, slot: u8, channel: u8) -> (
    Result<Seq<char>, SessionFault>,
    ClientModel,
) {
    let (first, after) = asked(
        client,
        slot,
        channel,
        eid_request(),
        |bytes: Seq<u8>| eid_answer(bytes),
    );
    match first {
        Ok(eid) => (Ok(eid), after),
        Err(fault) => {
            let (second, last) = transmitted(after, slot, channel, get_eid_command());
            match second {
                Ok(response) => if response.success() {
                    (by_uim(eid_in(response)), last)
                } else {
                    (Err(fault), last)
                },
                Err(_) => (Err(fault), last),
            }
        },
    }
}

/// `GetEUICCInfo2` on a channel.
pub open spec fn info2_on(client: ClientModel, slot: u8, channel: u8) -> (
    Result<EuiccInfo2Model, SessionFault>,
    ClientModel,
) {
    asked(client, slot, channel, bare_request(FN_EUICC_INFO2), |bytes: Seq<u8>| info2_in(bytes))
}

/// `GetEUICCChallenge` on a channel.
pub open spec fn challenge_on(client: ClientModel, slot: u8, channel: u8) -> (
    Result<Seq<u8>, SessionFault>,
    ClientModel,
) {
    asked(
        client,
        slot,
        channel,
        bare_request(FN_EUICC_CHALLENGE),
        |bytes: Seq<u8>| challenge_in(bytes),
    )
}

/// `GetEUICCInfo1` on a channel.
pub open spec fn info1_on(client: ClientModel, slot: u8, channel: u8) -> (
    Result<EuiccInfo1Model, SessionFault>,
    ClientModel,
) {
    asked(client, slot, channel, bare_request(FN_EUICC_INFO1), |bytes: Seq<u8>| info1_in(bytes))
}

/// `GetEuiccConfiguredAddresses` on a channel.
pub open spec fn addresses_on(client: ClientModel, slot: u8, channel: u8) -> (
    Result<AddressesModel, SessionFault>,
    ClientModel,
) {
    asked(
        client,
        slot,
        channel,
        bare_request(FN_CONFIGURED_ADDRESSES),
        |bytes: Seq<u8>| addresses_in(bytes),
    )
}

/// `ListNotification` on a channel.
pub open spec fn notifications_on(client: ClientModel, slot: u8, channel: u8) -> (
    Result<Seq<NotificationModel>, SessionFault>,
    ClientModel,
) {
    asked(
        client,
        slot,
        channel,
        bare_request(FN_LIST_NOTIFICATION),
        |bytes: Seq<u8>| notifications_in(bytes),
    )
}

/// `GetProfilesInfo` on a channel.
pub open spec fn profiles_on(client: ClientModel, slot: u8, channel: u8) -> (
    Result<Seq<ProfileModel>, SessionFault>,
    ClientModel,
) {
    asked(
        client,
        slot,
        channel,
        bare_request(FN_GET_PROFILES_INFO),
        |bytes: Seq<u8>| profiles_in(bytes),
    )
}

/// `RetrieveNotificationsList` on a channel.
pub open spec fn pending_on(client: ClientModel, slot: u8, channel: u8) -> (
    Result<Seq<PendingModel>, SessionFault>,
    ClientModel,
) {
    asked(
        client,
        slot,
        channel,
        bare_request(FN_RETRIEVE_NOTIFICATIONS),
        |bytes: Seq<u8>| pending_in(bytes),
    )
}

/// The first pending notification with a number.
pub open spec fn numbered(list: Seq<PendingModel>, sequence_number: u64) -> Option<PendingModel>
    decreases list.len(),
{
    if list.len() == 0 {
        None
    } else if list[0].metadata.sequence_number == sequence_number {
        Some(list[0])
    } else {
        numbered(list.skip(1), sequence_number)
    }
}

/// One pending notification, picked out of all of them.
pub open spec fn notification_on(
    client: ClientModel,
    slot: u8,
    channel: u8,
    sequence_number: u64,
) -> (Result<PendingModel, SessionFault>, ClientModel) {
    let (list, after) = pending_on(client, slot, channel);
    match list {
        Err(e) => (Err(e), after),
        Ok(pending) => match numbered(pending, sequence_number) {
            Some(entry) => (Ok(entry), after),
            None => (
                Err(
                    SessionFault::Transport(
                        "eUICC has no pending notification with sequence number "@ + decimal(
                            sequence_number as nat,
                        ),
                    ),
                ),
                after,
            ),
        },
    }
}

/// `RemoveNotificationFromList` on a channel.
pub open spec fn removed_on(
    client: ClientModel,
    slot: u8,
    channel: u8,
    sequence_number: u64,
) -> (Result<u64, SessionFault>, ClientModel) {
    asked(
        client,
        slot,
        channel,
        remove_request(sequence_number),
        |bytes: Seq<u8>| removal_in(bytes),
    )
}

/// `CancelSession` on a channel.
pub open spec fn cancelled_on(
    client: ClientModel,
    slot: u8,
    channel: u8,
    transaction_id: Seq<u8>,
    reason: CancelSessionReason,
) -> (Result<Seq<u8>, SessionFault>, ClientModel) {
    asked(
        client,
        slot,
        channel,
        cancel_request(transaction_id, reason),
        |bytes: Seq<u8>| crate::es10c::accepted_in(bytes, DownloadStep::CancelSession),
    )
}

/// An open ISD-R logical channel.
///
/// `close` gives it back and says whether that worked. Every function of this
/// crate that opens one closes it on each of its paths: an eUICC offers only a
/// few logical channels, and once they are gone every later profile operation
/// fails to open one.
pub struct IsdrSession<'a, T: QmiTransport> {
    pub client: &'a mut QmiClient<T>,
    pub slot: u8,
    pub channel: u8,
}

impl<'a, T: QmiTransport> IsdrSession<'a, T> {
    pub fn channel(&self) -> (channel: u8)
        ensures
            channel == self.channel,
    {
        self.channel
    }

    pub fn slot(&self) -> (slot: u8)
        ensures
            slot == self.slot,
    {
        self.slot
    }

    /// Send one APDU and keep asking for the rest until the card stops saying
    /// `61 xx`.
    ///
    /// One round was enough for a profile list and is not enough for anything
    /// in ES10b: `GetEUICCInfo2` needs two exchanges and the pending
    /// notification list needs sixteen. Stopping after the first returns a
    /// prefix that still parses as valid BER-TLV, so the truncation shows up
    /// as missing fields rather than as an error.
    pub fn transmit(&mut self, apdu: &[u8]) -> (result: Result<ApduResponse, SessionError>)
        ensures
            ran(
                result,
                (*final(self).client)@,
                transmitted((*old(self).client)@, old(self).slot, old(self).channel, apdu@),
            ),
            final(self).slot == old(self).slot,
            final(self).channel == old(self).channel,
            *final(final(self).client) == *final(old(self).client),
    {
        let slot: u8 = self.slot;
        let channel: u8 = self.channel;
        let ghost wanted = transmitted((*old(self).client)@, slot, channel, apdu@);
        let mut latest: ApduResponse = match self.client.send_apdu(slot, channel, apdu) {
            Ok(first) => first,
            Err(e) => return Err(failed_during("ES10 command: ", &e)),
        };
        let mut gathered: Vec<u8> = Vec::new();
        let mut rounds: usize = 0;
        proof {
            assert(gathered@ =~= Seq::empty());
        }
        loop
            invariant
                rounds <= MAX_GET_RESPONSE_ROUNDS,
                self.slot == slot,
                self.channel == channel,
                old(self).slot == slot,
                old(self).channel == channel,
                wanted == transmitted((*old(self).client)@, slot, channel, apdu@),
                drained(
                    (*self.client)@,
                    slot,
                    channel,
                    gathered@,
                    latest@,
                    rounds as nat,
                ) == wanted,
                *final(self.client) == *final(old(self).client),
            decreases MAX_GET_RESPONSE_ROUNDS - rounds,
        {
            let fetch: [u8; 5] = match latest.get_response_apdu() {
                Some(fetch) => fetch,
                None => return Ok(join_rounds(&gathered, latest)),
            };
            if rounds >= MAX_GET_RESPONSE_ROUNDS {
                let mut text: String = owned("eUICC on slot ");
                push_decimal(&mut text, slot as u64);
                text.append(" asked for more than ");
                push_decimal(&mut text, MAX_GET_RESPONSE_ROUNDS as u64);
                text.append(" GET RESPONSE rounds");
                proof {
                    assert(SessionFault::Transport(text@) == too_many_rounds(slot));
                }
                return Err(SessionError::Transport(text));
            }
            let next: ApduResponse = match self.client.send_apdu(slot, channel, &fetch) {
                Ok(next) => next,
                Err(e) => return Err(failed_during("GET RESPONSE: ", &e)),
            };
            gathered = join_rounds(&gathered, latest).data;
            latest = next;
            rounds = rounds + 1;
        }
    }

    /// Run one ES10 request, splitting it across `STORE DATA` blocks if it
    /// does not fit in one, and return the card's answer.
    pub fn execute(&mut self, payload: &[u8]) -> (result: Result<Vec<u8>, SessionError>)
        ensures
            ran(
                result,
                (*final(self).client)@,
                executed((*old(self).client)@, old(self).slot, old(self).channel, payload@),
            ),
            final(self).slot == old(self).slot,
            final(self).channel == old(self).channel,
            *final(final(self).client) == *final(old(self).client),
    {
        match self.execute_counted(payload) {
            Ok((answer, _)) => Ok(answer),
            Err(e) => Err(e),
        }
    }

    /// Run one ES10 request and say how many `STORE DATA` blocks it took.
    pub fn execute_counted(&mut self, payload: &[u8]) -> (result: Result<
        (Vec<u8>, usize),
        SessionError,
    >)
        ensures
            ({
                let wanted = executed(
                    (*old(self).client)@,
                    old(self).slot,
                    old(self).channel,
                    payload@,
                );
                (*final(self).client)@ == wanted.1 && match result {
                    Ok((answer, blocks)) => wanted.0 == Ok::<Seq<u8>, SessionFault>(answer@)
                        && blocks == block_count(payload@.len()),
                    Err(e) => wanted.0 == Err::<Seq<u8>, SessionFault>(e@),
                }
            }),
            final(self).slot == old(self).slot,
            final(self).channel == old(self).channel,
            *final(final(self).client) == *final(old(self).client),
    {
        let chain: Vec<Vec<u8>> = match store_data_chain(payload) {
            Ok(chain) => chain,
            Err(e) => return Err(SessionError::Es10c(e)),
        };
        let blocks: usize = chain.len();
        let ghost slot = self.slot;
        let ghost channel = self.channel;
        let ghost all = octets_of(chain@);
        let ghost wanted = executed((*old(self).client)@, slot, channel, payload@);
        let mut index: usize = 0;
        proof {
            assert(all.skip(0) =~= all);
        }
        loop
            invariant
                index < blocks,
                blocks == chain@.len(),
                blocks == block_count(payload@.len()),
                all == octets_of(chain@),
                self.slot == slot,
                self.channel == channel,
                old(self).slot == slot,
                old(self).channel == channel,
                wanted == executed((*old(self).client)@, slot, channel, payload@),
                chained((*self.client)@, slot, channel, all.skip(index as int)) == wanted,
                *final(self.client) == *final(old(self).client),
            decreases blocks - index,
        {
            proof {
                assert(all.skip(index as int)[0] == chain@[index as int]@);
                assert(all.skip(index as int).skip(1) =~= all.skip(index + 1));
                assert(all.skip(index as int).len() == blocks - index);
            }
            let response: ApduResponse = match self.transmit(&chain[index]) {
                Ok(response) => response,
                Err(e) => return Err(e),
            };
            if !response.is_success() {
                return Err(
                    SessionError::Uim(
                        UimError::ApduFailed { sw1: response.sw1, sw2: response.sw2 },
                    ),
                );
            }
            if index + 1 == blocks {
                return Ok((response.data, blocks));
            }
            index = index + 1;
        }
    }

    /// The EID, 32 digits.
    pub fn read_eid(&mut self) -> (result: Result<String, SessionError>)
        ensures
            ran(
                result,
                (*final(self).client)@,
                eid_on((*old(self).client)@, old(self).slot, old(self).channel),
            ),
            final(self).slot == old(self).slot,
            final(self).channel == old(self).channel,
            *final(final(self).client) == *final(old(self).client),
    {
        let first: SessionError = match self.execute(&crate::es10c::get_eid_payload()) {
            Ok(bytes) => match crate::es10c::parse_eid_response(&bytes) {
                Ok(eid) => return Ok(eid),
                Err(error) => SessionError::Es10c(error),
            },
            Err(error) => error,
        };
        let command: [u8; 5] = get_eid_apdu();
        match self.transmit(&command) {
            Ok(response) => {
                if response.is_success() {
                    return match crate::uim::parse_eid(&response) {
                        Ok(eid) => Ok(eid),
                        Err(e) => Err(SessionError::Uim(e)),
                    };
                }
                Err(first)
            },
            Err(_) => Err(first),
        }
    }

    /// `GetEUICCInfo2`, decoded in full.
    pub fn euicc_info2(&mut self) -> (result: Result<EuiccInfo2, SessionError>)
        ensures
            ran(
                result,
                (*final(self).client)@,
                info2_on((*old(self).client)@, old(self).slot, old(self).channel),
            ),
            final(self).slot == old(self).slot,
            final(self).channel == old(self).channel,
            *final(final(self).client) == *final(old(self).client),
    {
        let bytes: Vec<u8> = match self.execute(&crate::es10c::euicc_info2_payload()) {
            Ok(bytes) => bytes,
            Err(e) => return Err(e),
        };
        match crate::es10c::parse_euicc_info2(&bytes) {
            Ok(value) => Ok(value),
            Err(e) => Err(SessionError::Es10c(e)),
        }
    }

    /// `GetEUICCChallenge`: sixteen random bytes, generated now.
    ///
    /// Never cached. Two calls returning the same value would mean the chip
    /// was not consulted, and an ES9+ exchange built on a stale challenge
    /// proves nothing about which card is on the other end.
    pub fn euicc_challenge(&mut self) -> (result: Result<[u8; 16], SessionError>)
        ensures
            ran(
                result,
                (*final(self).client)@,
                challenge_on((*old(self).client)@, old(self).slot, old(self).channel),
            ),
            final(self).slot == old(self).slot,
            final(self).channel == old(self).channel,
            *final(final(self).client) == *final(old(self).client),
    {
        let bytes: Vec<u8> = match self.execute(&crate::es10c::euicc_challenge_payload()) {
            Ok(bytes) => bytes,
            Err(e) => return Err(e),
        };
        match crate::es10c::parse_euicc_challenge(&bytes) {
            Ok(value) => Ok(value),
            Err(e) => Err(SessionError::Es10c(e)),
        }
    }

    /// `GetEUICCInfo1`, decoded and kept in its encoded form.
    pub fn euicc_info1(&mut self) -> (result: Result<EuiccInfo1, SessionError>)
        ensures
            ran(
                result,
                (*final(self).client)@,
                info1_on((*old(self).client)@, old(self).slot, old(self).channel),
            ),
            final(self).slot == old(self).slot,
            final(self).channel == old(self).channel,
            *final(final(self).client) == *final(old(self).client),
    {
        let bytes: Vec<u8> = match self.execute(&crate::es10c::euicc_info1_payload()) {
            Ok(bytes) => bytes,
            Err(e) => return Err(e),
        };
        match crate::es10c::parse_euicc_info1(&bytes) {
            Ok(value) => Ok(value),
            Err(e) => Err(SessionError::Es10c(e)),
        }
    }

    /// ES10a `GetEuiccConfiguredAddresses`.
    pub fn configured_addresses(&mut self) -> (result: Result<ConfiguredAddresses, SessionError>)
        ensures
            ran(
                result,
                (*final(self).client)@,
                addresses_on((*old(self).client)@, old(self).slot, old(self).channel),
            ),
            final(self).slot == old(self).slot,
            final(self).channel == old(self).channel,
            *final(final(self).client) == *final(old(self).client),
    {
        let bytes: Vec<u8> = match self.execute(&crate::es10c::configured_addresses_payload()) {
            Ok(bytes) => bytes,
            Err(e) => return Err(e),
        };
        match crate::es10c::parse_configured_addresses(&bytes) {
            Ok(value) => Ok(value),
            Err(e) => Err(SessionError::Es10c(e)),
        }
    }

    /// `ListNotification` with no filter.
    pub fn list_notifications(&mut self) -> (result: Result<
        Vec<NotificationMetadata>,
        SessionError,
    >)
        ensures
            ({
                let wanted = notifications_on(
                    (*old(self).client)@,
                    old(self).slot,
                    old(self).channel,
                );
                (*final(self).client)@ == wanted.1 && match result {
                    Ok(list) => wanted.0 == Ok::<Seq<NotificationModel>, SessionFault>(
                        notification_models(list@),
                    ),
                    Err(e) => wanted.0 == Err::<Seq<NotificationModel>, SessionFault>(e@),
                }
            }),
            final(self).slot == old(self).slot,
            final(self).channel == old(self).channel,
            *final(final(self).client) == *final(old(self).client),
    {
        let bytes: Vec<u8> = match self.execute(&crate::es10c::list_notification_payload()) {
            Ok(bytes) => bytes,
            Err(e) => return Err(e),
        };
        match crate::es10c::parse_notification_metadata_list(&bytes) {
            Ok(value) => Ok(value),
            Err(e) => Err(SessionError::Es10c(e)),
        }
    }

    /// Every profile the chip holds.
    pub fn list_profiles(&mut self) -> (result: Result<Vec<Profile>, SessionError>)
        ensures
            ({
                let wanted = profiles_on(
                    (*old(self).client)@,
                    old(self).slot,
                    old(self).channel,
                );
                (*final(self).client)@ == wanted.1 && match result {
                    Ok(list) => wanted.0 == Ok::<Seq<ProfileModel>, SessionFault>(
                        profile_models(list@),
                    ),
                    Err(e) => wanted.0 == Err::<Seq<ProfileModel>, SessionFault>(e@),
                }
            }),
            final(self).slot == old(self).slot,
            final(self).channel == old(self).channel,
            *final(final(self).client) == *final(old(self).client),
    {
        let bytes: Vec<u8> = match self.execute(&crate::es10c::get_profiles_payload()) {
            Ok(bytes) => bytes,
            Err(e) => return Err(e),
        };
        match crate::es10c::parse_profiles(&bytes) {
            Ok(value) => Ok(value),
            Err(e) => Err(SessionError::Es10c(e)),
        }
    }

    /// Every pending notification, with the signed bytes ES9+ would carry.
    pub fn retrieve_notifications(&mut self) -> (result: Result<
        Vec<PendingNotification>,
        SessionError,
    >)
        ensures
            ({
                let wanted = pending_on(
                    (*old(self).client)@,
                    old(self).slot,
                    old(self).channel,
                );
                (*final(self).client)@ == wanted.1 && match result {
                    Ok(list) => wanted.0 == Ok::<Seq<PendingModel>, SessionFault>(
                        pending_models(list@),
                    ),
                    Err(e) => wanted.0 == Err::<Seq<PendingModel>, SessionFault>(e@),
                }
            }),
            final(self).slot == old(self).slot,
            final(self).channel == old(self).channel,
            *final(final(self).client) == *final(old(self).client),
    {
        let bytes: Vec<u8> = match self.execute(&crate::es10c::retrieve_notifications_payload()) {
            Ok(bytes) => bytes,
            Err(e) => return Err(e),
        };
        match crate::es10c::parse_pending_notifications(&bytes) {
            Ok(value) => Ok(value),
            Err(e) => Err(SessionError::Es10c(e)),
        }
    }

    /// One pending notification by sequence number.
    ///
    /// Selected here rather than on the card: chips refuse the `seqNumber`
    /// search form even for a sequence number their own `ListNotification`
    /// just reported, so the whole list comes back and the wanted entry is
    /// picked out of it.
    pub fn retrieve_notification(&mut self, sequence_number: u64) -> (result: Result<
        PendingNotification,
        SessionError,
    >)
        ensures
            ran(
                result,
                (*final(self).client)@,
                notification_on(
                    (*old(self).client)@,
                    old(self).slot,
                    old(self).channel,
                    sequence_number,
                ),
            ),
            final(self).slot == old(self).slot,
            final(self).channel == old(self).channel,
            *final(final(self).client) == *final(old(self).client),
    {
        let mut pending: Vec<PendingNotification> = match self.retrieve_notifications() {
            Ok(pending) => pending,
            Err(e) => return Err(e),
        };
        match find_numbered(&pending, sequence_number) {
            Some(index) => Ok(pending.remove(index)),
            None => {
                let mut text: String = owned(
                    "eUICC has no pending notification with sequence number ",
                );
                push_decimal(&mut text, sequence_number);
                Err(SessionError::Transport(text))
            },
        }
    }

    /// ES10b `RemoveNotificationFromList`. Returns the card's own code: 0 is
    /// removed, 1 is "there was nothing there".
    pub fn remove_notification(&mut self, sequence_number: u64) -> (result: Result<
        u64,
        SessionError,
    >)
        ensures
            ran(
                result,
                (*final(self).client)@,
                removed_on(
                    (*old(self).client)@,
                    old(self).slot,
                    old(self).channel,
                    sequence_number,
                ),
            ),
            final(self).slot == old(self).slot,
            final(self).channel == old(self).channel,
            *final(final(self).client) == *final(old(self).client),
    {
        let bytes: Vec<u8> = match self.execute(&crate::es10c::remove_notification_payload(sequence_number)) {
            Ok(bytes) => bytes,
            Err(e) => return Err(e),
        };
        match crate::es10c::parse_remove_notification_response(&bytes) {
            Ok(value) => Ok(value),
            Err(e) => Err(SessionError::Es10c(e)),
        }
    }

    /// ES10b `CancelSession`, returning the signed answer ES9+ has to relay.
    pub fn cancel_session(
        &mut self,
        transaction_id: &[u8],
        reason: CancelSessionReason,
    ) -> (result: Result<Vec<u8>, SessionError>)
        ensures
            ran(
                result,
                (*final(self).client)@,
                cancelled_on(
                    (*old(self).client)@,
                    old(self).slot,
                    old(self).channel,
                    transaction_id@,
                    reason,
                ),
            ),
            final(self).slot == old(self).slot,
            final(self).channel == old(self).channel,
            *final(final(self).client) == *final(old(self).client),
    {
        let bytes: Vec<u8> = match self.execute(&crate::es10c::cancel_session_payload(transaction_id, reason)) {
            Ok(bytes) => bytes,
            Err(e) => return Err(e),
        };
        match crate::es10c::parse_cancel_session_response(&bytes) {
            Ok(value) => Ok(value),
            Err(e) => Err(SessionError::Es10c(e)),
        }
    }

    /// Close the channel and say whether that worked.
    pub fn close(self) -> (result: Result<(), SessionError>)
        ensures
            ran_to(
                result,
                (*final(self.client))@,
                channel_closed_on((*old(self.client))@, self.slot, self.channel),
            ),
    {
        let slot: u8 = self.slot;
        let channel: u8 = self.channel;
        self.client.close_logical_channel(slot, channel)
    }
}

fn find_numbered(list: &Vec<PendingNotification>, sequence_number: u64) -> (index: Option<usize>)
    ensures
        match index {
            Some(i) => i < list@.len() && numbered(pending_models(list@), sequence_number) == Some(
                list@[i as int]@,
            ),
            None => numbered(pending_models(list@), sequence_number) is None,
        },
{
    let ghost models = pending_models(list@);
    let mut i: usize = 0;
    proof {
        assert(models.skip(0) =~= models);
    }
    while i < list.len()
        invariant
            i <= list@.len(),
            models == pending_models(list@),
            numbered(models.skip(i as int), sequence_number) == numbered(models, sequence_number),
        decreases list@.len() - i,
    {
        proof {
            assert(models.skip(i as int).skip(1) =~= models.skip(i + 1));
            assert(models.skip(i as int)[0] == list@[i as int]@);
        }
        if list[i].metadata.sequence_number == sequence_number {
            return Some(i);
        }
        i = i + 1;
    }
    None
}

// ---------------------------------------------------------------------------
// Whole operations, each on a channel of its own
// ---------------------------------------------------------------------------

/// What opening the ISD-R comes to.
pub open spec fn opened(client: ClientModel, slot: u8) -> (Result<u8, SessionFault>, ClientModel) {
    let (answer, after) = channel_opened_on(client, slot, isd_r());
    match answer {
        Ok(channel) => (Ok(channel), after),
        Err(e) => (Err(during("open ISD-R channel: "@, e)), after),
    }
}

/// Work on a channel that is closed whatever came of it. A failure of the work
/// is what is reported; only work that succeeded is followed by a failed close.
pub open spec fn within_channel<A>(
    client: ClientModel,
    slot: u8,
    work: spec_fn(ClientModel, u8) -> (Result<A, SessionFault>, ClientModel),
) -> (Result<A, SessionFault>, ClientModel) {
    let (channel, start) = opened(client, slot);
    match channel {
        Err(e) => (Err(e), start),
        Ok(channel) => {
            let (outcome, done) = work(start, channel);
            let (closed, after) = channel_closed_on(done, slot, channel);
            match outcome {
                Err(e) => (Err(e), after),
                Ok(value) => match closed {
                    Err(e) => (Err(e), after),
                    Ok(_) => (Ok(value), after),
                },
            }
        },
    }
}

/// Work on a channel that is closed whatever came of it. A failed close is
/// what is reported, in front of a failure of the work.
pub open spec fn around_channel<A>(
    client: ClientModel,
    slot: u8,
    work: spec_fn(ClientModel, u8) -> (Result<A, SessionFault>, ClientModel),
) -> (Result<A, SessionFault>, ClientModel) {
    let (channel, start) = opened(client, slot);
    match channel {
        Err(e) => (Err(e), start),
        Ok(channel) => {
            let (outcome, done) = work(start, channel);
            let (closed, after) = channel_closed_on(done, slot, channel);
            match closed {
                Err(e) => (Err(e), after),
                Ok(_) => (outcome, after),
            }
        },
    }
}

/// A channel that was opened is closed on every path: whatever the work did,
/// and whether it succeeded or failed, the client is left as the close of that
/// very channel leaves it.
pub proof fn law_an_opened_channel_is_closed<A>(
    client: ClientModel,
    slot: u8,
    work: spec_fn(ClientModel, u8) -> (Result<A, SessionFault>, ClientModel),
)
    requires
        opened(client, slot).0 is Ok,
    ensures
        ({
            let (channel, start) = opened(client, slot);
            let closed = channel_closed_on(work(start, channel->Ok_0).1, slot, channel->Ok_0).1;
            &&& within_channel(client, slot, work).1 == closed
            &&& around_channel(client, slot, work).1 == closed
        }),
{
}

/// Everything ES10b reports about one eUICC, read in a single channel.
#[derive(Clone, Debug, PartialEq, Eq)]
pub struct EsimLocalInfo {
    /// 32 digits identifying the chip itself, unchanged by profile switches.
    pub eid: String,
    pub info: EuiccInfo2,
    pub notifications: Vec<NotificationMetadata>,
    /// Why the notification list is empty, when the card refused rather than
    /// having nothing pending.
    pub notifications_error: Option<String>,
    pub profiles: Vec<Profile>,
    pub profiles_error: Option<String>,
}

/// The reading, by what it says.
#[verifier::ext_equal]
pub struct LocalInfoModel {
    pub eid: Seq<char>,
    pub info: EuiccInfo2Model,
    pub notifications: Seq<NotificationModel>,
    pub notifications_error: Option<Seq<char>>,
    pub profiles: Seq<ProfileModel>,
    pub profiles_error: Option<Seq<char>>,
}

impl View for EsimLocalInfo {
    type V = LocalInfoModel;

    open spec fn view(&self) -> LocalInfoModel {
        LocalInfoModel {
            eid: self.eid@,
            info: self.info@,
            notifications: notification_models(self.notifications@),
            notifications_error: opt_text(self.notifications_error),
            profiles: profile_models(self.profiles@),
            profiles_error: opt_text(self.profiles_error),
        }
    }
}

/// A list that may be refused: the list, or nothing and why.
pub open spec fn list_or_reason<A>(reading: Result<Seq<A>, SessionFault>) -> (
    Seq<A>,
    Option<Seq<char>>,
) {
    match reading {
        Ok(list) => (list, None),
        Err(e) => (Seq::empty(), Some(e.text())),
    }
}

/// The readings of a chip that change nothing on it, in sequence on one
/// channel. A card with nothing pending and a card that refused the query both
/// produce an empty list, so the refusal is kept.
pub open spec fn local_info_on(client: ClientModel, slot: u8, channel: u8) -> (
    Result<LocalInfoModel, SessionFault>,
    ClientModel,
) {
    let (eid, c1) = eid_on(client, slot, channel);
    match eid {
        Err(e) => (Err(e), c1),
        Ok(eid) => {
            let (info, c2) = info2_on(c1, slot, channel);
            match info {
                Err(e) => (Err(e), c2),
                Ok(info) => {
                    let (noted, c3) = notifications_on(c2, slot, channel);
                    let (held, c4) = profiles_on(c3, slot, channel);
                    (
                        Ok(
                            LocalInfoModel {
                                eid,
                                info,
                                notifications: list_or_reason(noted).0,
                                notifications_error: list_or_reason(noted).1,
                                profiles: list_or_reason(held).0,
                                profiles_error: list_or_reason(held).1,
                            },
                        ),
                        c4,
                    )
                },
            }
        },
    }
}

/// What an ES9+ session needs from the chip before it can start.
#[derive(Clone, Debug, PartialEq, Eq)]
pub struct EsimAuthenticationInputs {
    pub eid: String,
    /// Sixteen random bytes, fresh from this read.
    pub challenge: [u8; 16],
    pub info1: EuiccInfo1,
    pub addresses: ConfiguredAddresses,
    pub addresses_error: Option<String>,
    /// The SM-DP+ addresses the chip's pending notifications name, in the
    /// order it reported them and without repeats.
    ///
    /// A fallback with a real basis: a notification carries the address of the
    /// server that has to hear about it, so a chip with anything pending knows
    /// an SM-DP+ that has already dealt with this card even when no default
    /// one is configured.
    pub notification_addresses: Vec<String>,
    pub notification_addresses_error: Option<String>,
}

/// The inputs, by what they say.
#[verifier::ext_equal]
pub struct InputsModel {
    pub eid: Seq<char>,
    pub challenge: Seq<u8>,
    pub info1: EuiccInfo1Model,
    pub addresses: AddressesModel,
    pub addresses_error: Option<Seq<char>>,
    pub notification_addresses: Seq<Seq<char>>,
    pub notification_addresses_error: Option<Seq<char>>,
}

impl View for EsimAuthenticationInputs {
    type V = InputsModel;

    open spec fn view(&self) -> InputsModel {
        InputsModel {
            eid: self.eid@,
            challenge: self.challenge@,
            info1: self.info1@,
            addresses: self.addresses@,
            addresses_error: opt_text(self.addresses_error),
            notification_addresses: texts(self.notification_addresses@),
            notification_addresses_error: opt_text(self.notification_addresses_error),
        }
    }
}

/// The addresses that notifications name, in order and without repeats.
pub open spec fn distinct_addresses(list: Seq<NotificationModel>) -> Seq<Seq<char>>
    decreases list.len(),
{
    if list.len() == 0 {
        Seq::empty()
    } else {
        let before = distinct_addresses(list.drop_last());
        if before.contains(list.last().address) {
            before
        } else {
            before.push(list.last().address)
        }
    }
}

/// The inputs of an ES9+ session, in sequence on one channel. The addresses
/// name where to go next, and a chip that refuses one can still be reachable
/// through the other, so neither fails the reading.
pub open spec fn inputs_on(client: ClientModel, slot: u8, channel: u8) -> (
    Result<InputsModel, SessionFault>,
    ClientModel,
) {
    let (eid, c1) = eid_on(client, slot, channel);
    match eid {
        Err(e) => (Err(e), c1),
        Ok(eid) => {
            let (challenge, c2) = challenge_on(c1, slot, channel);
            match challenge {
                Err(e) => (Err(e), c2),
                Ok(challenge) => {
                    let (info1, c3) = info1_on(c2, slot, channel);
                    match info1 {
                        Err(e) => (Err(e), c3),
                        Ok(info1) => {
                            let (addresses, c4) = addresses_on(c3, slot, channel);
                            let (noted, c5) = notifications_on(c4, slot, channel);
                            (
                                Ok(
                                    InputsModel {
                                        eid,
                                        challenge,
                                        info1,
                                        addresses: match addresses {
                                            Ok(a) => a,
                                            Err(_) => blank_addresses(),
                                        },
                                        addresses_error: match addresses {
                                            Ok(_) => None,
                                            Err(e) => Some(e.text()),
                                        },
                                        notification_addresses: distinct_addresses(
                                            list_or_reason(noted).0,
                                        ),
                                        notification_addresses_error: list_or_reason(noted).1,
                                    },
                                ),
                                c5,
                            )
                        },
                    }
                },
            }
        },
    }
}

fn collect_addresses(list: &Vec<NotificationMetadata>) -> (addresses: Vec<String>)
    ensures
        texts(addresses@) == distinct_addresses(notification_models(list@)),
{
    let mut addresses: Vec<String> = Vec::new();
    let ghost all = notification_models(list@);
    let mut i: usize = 0;
    proof {
        assert(all.take(0) =~= Seq::empty());
        assert(texts(addresses@) =~= Seq::empty());
    }
    while i < list.len()
        invariant
            i <= list@.len(),
            all == notification_models(list@),
            texts(addresses@) == distinct_addresses(all.take(i as int)),
        decreases list@.len() - i,
    {
        let address: &str = list[i].address.as_str();
        proof {
            assert(all.take(i + 1).drop_last() =~= all.take(i as int));
            assert(all.take(i + 1).last().address == address@);
        }
        if !holds(&addresses, address) {
            let ghost before = texts(addresses@);
            addresses.push(owned(address));
            proof {
                assert(texts(addresses@) =~= before.push(address@));
            }
        }
        i = i + 1;
    }
    proof {
        assert(all.take(i as int) =~= all);
    }
    addresses
}

/// Whether a list holds a text.
pub fn holds(list: &Vec<String>, text: &str) -> (yes: bool)
    ensures
        yes == texts(list@).contains(text@),
{
    let mut i: usize = 0;
    while i < list.len()
        invariant
            i <= list@.len(),
            forall|j: int| 0 <= j < i ==> (#[trigger] texts(list@)[j]) != text@,
        decreases list@.len() - i,
    {
        proof {
            assert(texts(list@)[i as int] == list@[i as int]@);
        }
        if same_text(list[i].as_str(), text) {
            return true;
        }
        i = i + 1;
    }
    false
}

/// Running one ES10 request as the work of a channel.
pub open spec fn executing(slot: u8, payload: Seq<u8>) -> spec_fn(ClientModel, u8) -> (
    Result<Seq<u8>, SessionFault>,
    ClientModel,
) {
    |c: ClientModel, channel: u8| executed(c, slot, channel, payload)
}

/// What switching a profile comes to.
pub open spec fn profile_set_on(client: ClientModel, slot: u8, iccid: Seq<char>, enable: bool) -> (
    Result<(), SessionFault>,
    ClientModel,
) {
    let function = if enable {
        FN_ENABLE_PROFILE
    } else {
        FN_DISABLE_PROFILE
    };
    match profile_request(function, iccid, true) {
        Err(e) => (Err(SessionFault::Es10c(e)), client),
        Ok(payload) => {
            let (answer, after) = within_channel(client, slot, executing(slot, payload));
            match answer {
                Err(e) => (Err(e), after),
                Ok(bytes) => (
                    by_es10c(
                        command_result(
                            bytes,
                            if enable {
                                ProfileCommand::Enable
                            } else {
                                ProfileCommand::Disable
                            },
                        ),
                    ),
                    after,
                ),
            }
        },
    }
}

impl<'a, T: QmiTransport> IsdrSession<'a, T> {
    fn local_info(&mut self) -> (result: Result<EsimLocalInfo, SessionError>)
        ensures
            ran(
                result,
                (*final(self).client)@,
                local_info_on((*old(self).client)@, old(self).slot, old(self).channel),
            ),
            final(self).slot == old(self).slot,
            final(self).channel == old(self).channel,
            *final(final(self).client) == *final(old(self).client),
    {
        let eid: String = match self.read_eid() {
            Ok(eid) => eid,
            Err(e) => return Err(e),
        };
        let info: EuiccInfo2 = match self.euicc_info2() {
            Ok(info) => info,
            Err(e) => return Err(e),
        };
        let (notifications, notifications_error) = match self.list_notifications() {
            Ok(list) => (list, None),
            Err(error) => (Vec::new(), Some(error.to_string())),
        };
        let (profiles, profiles_error) = match self.list_profiles() {
            Ok(list) => (list, None),
            Err(error) => (Vec::new(), Some(error.to_string())),
        };
        let reading = EsimLocalInfo {
            eid,
            info,
            notifications,
            notifications_error,
            profiles,
            profiles_error,
        };
        proof {
            let wanted = local_info_on((*old(self).client)@, old(self).slot, old(self).channel);
            assert(reading@ =~= wanted.0->Ok_0);
        }
        Ok(reading)
    }

    fn authentication_inputs(&mut self) -> (result: Result<EsimAuthenticationInputs, SessionError>)
        ensures
            ran(
                result,
                (*final(self).client)@,
                inputs_on((*old(self).client)@, old(self).slot, old(self).channel),
            ),
            final(self).slot == old(self).slot,
            final(self).channel == old(self).channel,
            *final(final(self).client) == *final(old(self).client),
    {
        let eid: String = match self.read_eid() {
            Ok(eid) => eid,
            Err(e) => return Err(e),
        };
        let challenge: [u8; 16] = match self.euicc_challenge() {
            Ok(challenge) => challenge,
            Err(e) => return Err(e),
        };
        let info1: EuiccInfo1 = match self.euicc_info1() {
            Ok(info1) => info1,
            Err(e) => return Err(e),
        };
        let (addresses, addresses_error) = match self.configured_addresses() {
            Ok(addresses) => (addresses, None),
            Err(error) => (ConfiguredAddresses::default(), Some(error.to_string())),
        };
        let (notifications, notification_addresses_error) = match self.list_notifications() {
            Ok(list) => (list, None),
            Err(error) => (Vec::new(), Some(error.to_string())),
        };
        let notification_addresses: Vec<String> = collect_addresses(&notifications);
        let inputs = EsimAuthenticationInputs {
            eid,
            challenge,
            info1,
            addresses,
            addresses_error,
            notification_addresses,
            notification_addresses_error,
        };
        proof {
            let wanted = inputs_on((*old(self).client)@, old(self).slot, old(self).channel);
            let (noted, _c) = notifications_on(
                addresses_on(
                    info1_on(
                        challenge_on(
                            eid_on((*old(self).client)@, old(self).slot, old(self).channel).1,
                            old(self).slot,
                            old(self).channel,
                        ).1,
                        old(self).slot,
                        old(self).channel,
                    ).1,
                    old(self).slot,
                    old(self).channel,
                ).1,
                old(self).slot,
                old(self).channel,
            );
            assert(notification_models(notifications@) =~= list_or_reason(noted).0);
            assert(inputs@ =~= wanted.0->Ok_0);
        }
        Ok(inputs)
    }
}

impl<T: QmiTransport> QmiClient<T> {
    /// Open the ISD-R application on `slot`.
    pub fn isdr_session(&mut self, slot: u8) -> (session: Result<
        IsdrSession<'_, T>,
        SessionError,
    >)
        ensures
            match session {
                Ok(s) => opened(old(self)@, slot) == (
                    Ok::<u8, SessionFault>(s.channel),
                    (*s.client)@,
                ) && s.slot == slot && *final(s.client) == *final(self),
                Err(e) => opened(old(self)@, slot) == (
                    Err::<u8, SessionFault>(e@),
                    final(self)@,
                ),
            },
    {
        let aid: [u8; 16] = isd_r_aid();
        match self.open_logical_channel(slot, &aid) {
            Ok(channel) => Ok(IsdrSession { client: self, slot, channel }),
            Err(e) => Err(failed_during("open ISD-R channel: ", &e)),
        }
    }

    /// List every profile the eUICC holds.
    pub fn list_profiles(&mut self, slot: u8) -> (result: Result<Vec<Profile>, SessionError>)
        ensures
            ({
                let wanted = within_channel(
                    old(self)@,
                    slot,
                    |c: ClientModel, channel: u8| profiles_on(c, slot, channel),
                );
                final(self)@ == wanted.1 && match result {
                    Ok(list) => wanted.0 == Ok::<Seq<ProfileModel>, SessionFault>(
                        profile_models(list@),
                    ),
                    Err(e) => wanted.0 == Err::<Seq<ProfileModel>, SessionFault>(e@),
                }
            }),
    {
        let mut session = match self.isdr_session(slot) {
            Ok(session) => session,
            Err(e) => return Err(e),
        };
        let outcome: Result<Vec<Profile>, SessionError> = session.list_profiles();
        let closed: Result<(), SessionError> = session.close();
        match outcome {
            Err(e) => Err(e),
            Ok(profiles) => match closed {
                Err(e) => Err(e),
                Ok(_) => Ok(profiles),
            },
        }
    }

    fn run_on_isdr(&mut self, slot: u8, payload: &[u8]) -> (result: Result<Vec<u8>, SessionError>)
        ensures
            ran(
                result,
                final(self)@,
                within_channel(old(self)@, slot, executing(slot, payload@)),
            ),
    {
        let mut session = match self.isdr_session(slot) {
            Ok(session) => session,
            Err(e) => return Err(e),
        };
        let outcome: Result<Vec<u8>, SessionError> = session.execute(payload);
        let closed: Result<(), SessionError> = session.close();
        match outcome {
            Err(e) => Err(e),
            Ok(bytes) => match closed {
                Err(e) => Err(e),
                Ok(_) => Ok(bytes),
            },
        }
    }

    /// Enable or disable one profile by ICCID.
    ///
    /// `refresh` is requested so the modem re-reads the card immediately.
    /// Without it the switch only takes effect after a restart, which reads to
    /// an operator as if the command did nothing.
    pub fn set_profile(&mut self, slot: u8, iccid: &str, enable: bool) -> (result: Result<
        (),
        SessionError,
    >)
        ensures
            ran_to(result, final(self)@, profile_set_on(old(self)@, slot, iccid@, enable)),
    {
        let built: Result<Vec<u8>, Es10cError> = if enable {
            crate::es10c::enable_profile_payload(iccid, true)
        } else {
            crate::es10c::disable_profile_payload(iccid, true)
        };
        let payload: Vec<u8> = match built {
            Ok(payload) => payload,
            Err(e) => return Err(SessionError::Es10c(e)),
        };
        let answer: Result<Vec<u8>, SessionError> = self.run_on_isdr(slot, &payload);
        let ghost (wanted, after) = within_channel(old(self)@, slot, executing(slot, payload@));
        assert(self@ == after);
        let bytes: Vec<u8> = match answer {
            Ok(bytes) => bytes,
            Err(e) => return Err(e),
        };
        assert(wanted == Ok::<Seq<u8>, SessionFault>(bytes@));
        match crate::es10c::parse_profile_result(&bytes, enable) {
            Ok(_) => Ok(()),
            Err(e) => Err(SessionError::Es10c(e)),
        }
    }

    /// Open the ISD-R application and return the EID digits.
    pub fn read_eid(&mut self, slot: u8) -> (result: Result<String, SessionError>)
        ensures
            ran(
                result,
                final(self)@,
                within_channel(
                    old(self)@,
                    slot,
                    |c: ClientModel, channel: u8| eid_on(c, slot, channel),
                ),
            ),
    {
        let mut session = match self.isdr_session(slot) {
            Ok(session) => session,
            Err(e) => return Err(e),
        };
        let outcome: Result<String, SessionError> = session.read_eid();
        let closed: Result<(), SessionError> = session.close();
        match outcome {
            Err(e) => Err(e),
            Ok(eid) => match closed {
                Err(e) => Err(e),
                Ok(_) => Ok(eid),
            },
        }
    }

    /// Everything ES10b will say about a chip without changing anything on it.
    ///
    /// One channel for the whole read. The four commands are a sequence, not
    /// four unrelated errands, and opening a channel per command is both four
    /// times the round trips and four chances to leak one.
    pub fn read_esim_local_info(&mut self, slot: u8) -> (result: Result<
        EsimLocalInfo,
        SessionError,
    >)
        ensures
            ran(
                result,
                final(self)@,
                around_channel(
                    old(self)@,
                    slot,
                    |c: ClientModel, channel: u8| local_info_on(c, slot, channel),
                ),
            ),
    {
        let mut session = match self.isdr_session(slot) {
            Ok(session) => session,
            Err(e) => return Err(e),
        };
        let outcome: Result<EsimLocalInfo, SessionError> = session.local_info();
        match session.close() {
            Ok(_) => outcome,
            Err(e) => Err(e),
        }
    }

    /// Everything ES9+ `InitiateAuthentication` needs from the chip.
    ///
    /// One channel again, and for a stronger reason than tidiness: the
    /// challenge is only meaningful next to the `GetEUICCInfo1` that names the
    /// CI keys the same chip will verify with, and reading them through two
    /// sessions leaves room for them to come from two different cards.
    ///
    /// Read-only. `GetEUICCChallenge` generates a fresh random each call and
    /// stores nothing an operator can see.
    pub fn read_esim_authentication_inputs(&mut self, slot: u8) -> (result: Result<
        EsimAuthenticationInputs,
        SessionError,
    >)
        ensures
            ran(
                result,
                final(self)@,
                around_channel(
                    old(self)@,
                    slot,
                    |c: ClientModel, channel: u8| inputs_on(c, slot, channel),
                ),
            ),
    {
        let mut session = match self.isdr_session(slot) {
            Ok(session) => session,
            Err(e) => return Err(e),
        };
        let outcome: Result<EsimAuthenticationInputs, SessionError> =
            session.authentication_inputs();
        match session.close() {
            Ok(_) => outcome,
            Err(e) => Err(e),
        }
    }

    /// Pull one pending notification off the chip, signature and all.
    ///
    /// This is the first of the three steps in an ES9+ notification retry.
    /// The other two — handing it to the SM-DP+ over HTTPS and then removing
    /// it from the card — need an HTTP client and a write respectively.
    pub fn retrieve_esim_notification(&mut self, slot: u8, sequence_number: u64) -> (result: Result<
        PendingNotification,
        SessionError,
    >)
        ensures
            ran(
                result,
                final(self)@,
                around_channel(
                    old(self)@,
                    slot,
                    |c: ClientModel, channel: u8|
                        notification_on(c, slot, channel, sequence_number),
                ),
            ),
    {
        let mut session = match self.isdr_session(slot) {
            Ok(session) => session,
            Err(e) => return Err(e),
        };
        let outcome: Result<PendingNotification, SessionError> = session.retrieve_notification(
            sequence_number,
        );
        match session.close() {
            Ok(_) => outcome,
            Err(e) => Err(e),
        }
    }
}

// ---------------------------------------------------------------------------
// The inventory of a chip
// ---------------------------------------------------------------------------

/// Digits an EID has, and the only length an inventory stores one at.
pub const EID_DIGITS: usize = 32;

/// The widest inventory one payload will carry.
pub const MAX_INVENTORY_PROFILES: usize = 64;

/// Shortest and longest ICCID an inventory accepts.
pub const ICCID_MIN_DIGITS: usize = 19;

pub const ICCID_MAX_DIGITS: usize = 20;

/// Largest `collected_at` an inventory stores, in epoch milliseconds.
pub const MAX_EPOCH_MILLIS: i64 = 253402300799999;

/// The 32 decimal digits an eUICC reports as its EID: what separates an eUICC
/// from a card that is not one, once the chip has answered at all.
pub open spec fn is_eid(value: Seq<char>) -> bool {
    value.len() == EID_DIGITS && all_digits(value)
}

pub open spec fn is_iccid(value: Seq<char>) -> bool {
    ICCID_MIN_DIGITS <= value.len() <= ICCID_MAX_DIGITS && all_digits(value)
}

/// The nickname an inventory reports: an empty one is not a nickname.
pub open spec fn reported_nickname(profile: ProfileModel) -> Option<Seq<char>> {
    match profile.nickname {
        Some(nickname) => if trimmed(nickname).len() > 0 {
            Some(trimmed(nickname))
        } else {
            None
        },
        None => None,
    }
}

/// One profile of an inventory. Only two states can come from a card that
/// answered: it lists what it holds, and the enabled flag is the whole of what
/// it says about each one.
pub open spec fn profile_json(profile: ProfileModel) -> Seq<char> {
    "{\"iccid\":"@ + json_string(profile.iccid) + (match reported_nickname(profile) {
        Some(nickname) => ",\"nickname\":"@ + json_string(nickname),
        None => Seq::empty(),
    }) + (if profile.enabled {
        ",\"state\":\"enabled\"}"@
    } else {
        ",\"state\":\"disabled\"}"@
    })
}

/// The profiles of an inventory, with commas between them.
pub open spec fn profiles_json(profiles: Seq<ProfileModel>) -> Seq<char>
    decreases profiles.len(),
{
    if profiles.len() == 0 {
        Seq::empty()
    } else if profiles.len() == 1 {
        profile_json(profiles[0])
    } else {
        profiles_json(profiles.drop_last()) + ","@ + profile_json(profiles.last())
    }
}

/// Whether a reading can honestly stand for the complete contents of a chip.
pub open spec fn is_whole_inventory(reading: LocalInfoModel, collected_at: i64) -> bool {
    &&& reading.profiles_error is None
    &&& is_eid(reading.eid)
    &&& 0 <= collected_at <= MAX_EPOCH_MILLIS
    &&& reading.profiles.len() <= MAX_INVENTORY_PROFILES
    &&& forall|i: int|
        0 <= i < reading.profiles.len() ==> is_iccid((#[trigger] reading.profiles[i]).iccid)
}

/// The inventory of a chip as JSON.
pub open spec fn inventory_of(
    reading: LocalInfoModel,
    modem_imei: Seq<char>,
    collected_at: i64,
) -> Seq<
    char,
> {
    "{\"collected_at\":"@ + decimal(collected_at as nat) + ",\"eid\":"@ + json_string(reading.eid)
        + ",\"modem_imei\":"@ + json_string(modem_imei) + ",\"profiles\":["@ + profiles_json(
        reading.profiles,
    ) + "]}"@
}

fn digits_only(chars: &[char]) -> (yes: bool)
    ensures
        yes == all_digits(chars@),
{
    let mut i: usize = 0;
    while i < chars.len()
        invariant
            i <= chars@.len(),
            forall|j: int| 0 <= j < i ==> is_digit(#[trigger] chars@[j]),
        decreases chars@.len() - i,
    {
        if !digit(chars[i]) {
            return false;
        }
        i = i + 1;
    }
    true
}

fn push_profile(out: &mut String, profile: &Profile)
    ensures
        final(out)@ == old(out)@ + profile_json(profile@),
{
    out.append("{\"iccid\":");
    out.append(json_string_of(profile.iccid.as_str()).as_str());
    let ghost head = out@;
    match &profile.nickname {
        Some(nickname) => {
            let chars: Vec<char> = chars_of(nickname.as_str());
            let shown: &[char] = trim(&chars);
            if shown.len() > 0 {
                let name: String = string_of(shown);
                out.append(",\"nickname\":");
                out.append(json_string_of(name.as_str()).as_str());
            }
        },
        None => {},
    }
    proof {
        assert(head + Seq::<char>::empty() =~= head);
    }
    if profile.enabled {
        out.append(",\"state\":\"enabled\"}");
    } else {
        out.append(",\"state\":\"disabled\"}");
    }
    proof {
        assert(out@ =~= old(out)@ + profile_json(profile@));
    }
}

impl EsimLocalInfo {
    /// This read as an inventory in JSON, or `None` when it cannot honestly
    /// stand for one.
    ///
    /// An inventory is read as *the complete contents of one chip*: every
    /// ICCID on record for this EID that is not in it is marked deleted. That
    /// makes a partial answer worse than no answer, so this is deliberately
    /// all-or-nothing. A list the card refused (`profiles_error`), a profile
    /// whose ICCID came back the wrong shape, or more profiles than one
    /// payload can carry each produce `None`.
    ///
    /// `None` is also the answer for a card that is not an eUICC. Such a card
    /// has no EID, and so it cannot be represented here at all.
    pub fn inventory_json(&self, modem_imei: &str, collected_at: i64) -> (inventory: Option<String>)
        ensures
            match inventory {
                Some(text) => is_whole_inventory(self@, collected_at) && text@ == inventory_of(
                    self@,
                    modem_imei@,
                    collected_at,
                ),
                None => !is_whole_inventory(self@, collected_at),
            },
    {
        if self.profiles_error.is_some() {
            return None;
        }
        let eid: Vec<char> = chars_of(self.eid.as_str());
        if eid.len() != EID_DIGITS || !digits_only(&eid) {
            return None;
        }
        if collected_at < 0 || collected_at > MAX_EPOCH_MILLIS {
            return None;
        }
        if self.profiles.len() > MAX_INVENTORY_PROFILES {
            return None;
        }
        let mut out: String = String::new();
        out.append("{\"collected_at\":");
        push_decimal(&mut out, collected_at as u64);
        out.append(",\"eid\":");
        out.append(json_string_of(self.eid.as_str()).as_str());
        out.append(",\"modem_imei\":");
        out.append(json_string_of(modem_imei).as_str());
        out.append(",\"profiles\":[");
        let ghost head = out@;
        let ghost all = profile_models(self.profiles@);
        let mut i: usize = 0;
        proof {
            assert(all.take(0) =~= Seq::empty());
            assert(head + Seq::<char>::empty() =~= head);
        }
        while i < self.profiles.len()
            invariant
                i <= self.profiles@.len(),
                all == profile_models(self.profiles@),
                out@ == head + profiles_json(all.take(i as int)),
                forall|j: int| 0 <= j < i ==> is_iccid((#[trigger] all[j]).iccid),
            decreases self.profiles@.len() - i,
        {
            let iccid: Vec<char> = chars_of(self.profiles[i].iccid.as_str());
            proof {
                assert(all[i as int] == self.profiles@[i as int]@);
                assert(all.take(i + 1).drop_last() =~= all.take(i as int));
                assert(all.take(i + 1).last() == all[i as int]);
                assert(all == self@.profiles);
            }
            if iccid.len() < ICCID_MIN_DIGITS || iccid.len() > ICCID_MAX_DIGITS || !digits_only(
                &iccid,
            ) {
                proof {
                    assert(!is_iccid(self@.profiles[i as int].iccid));
                }
                return None;
            }
            if i > 0 {
                out.append(",");
            }
            push_profile(&mut out, &self.profiles[i]);
            proof {
                assert(out@ =~= head + profiles_json(all.take(i + 1)));
            }
            i = i + 1;
        }
        out.append("]}");
        proof {
            assert(all.take(i as int) =~= all);
            assert(self@.profiles == all);
            assert(out@ =~= inventory_of(self@, modem_imei@, collected_at));
        }
        Some(out)
    }
}

/// An inventory leaves nothing out: a reading that could not list its
/// profiles, or listed one that cannot be named, is no inventory at all.
pub proof fn law_a_partial_reading_is_no_inventory(reading: LocalInfoModel, collected_at: i64)
    requires
        reading.profiles_error is Some || exists|i: int|
            0 <= i < reading.profiles.len() && !is_iccid((#[trigger] reading.profiles[i]).iccid),
    ensures
        !is_whole_inventory(reading, collected_at),
{
}

} // verus!
