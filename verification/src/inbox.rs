//! Collecting what a modem received, and knowing what was collected before.

use crate::port::{ModemPort, PortError, PortFault};
use crate::text::{
    decimal, hex_quad, hex_sixteen, owned, push_decimal, push_hex_quad, push_hex_sixteen,
    same_text, texts,
};
use crate::wms::{
    received_only, retain_mobile_terminated, ListedMessage, MessageTag, RawMessage,
    RawMessageModel, StorageType,
};
use vstd::prelude::*;
use vstd::utf8::encode_utf8;

verus! {

/// One message that was read from a modem.
#[derive(Clone, Debug, PartialEq, Eq)]
pub struct CollectedMessage {
    pub index: u32,
    pub tag: MessageTag,
    /// Which store it came from. Carried so the delete afterwards targets the
    /// right one — the same index in the other store is a different message.
    pub storage: StorageType,
    pub raw: RawMessage,
}

/// One message that was read from a modem, by what it holds.
#[verifier::ext_equal]
pub struct CollectedModel {
    pub index: u32,
    pub tag: MessageTag,
    pub storage: StorageType,
    pub raw: RawMessageModel,
}

impl View for CollectedMessage {
    type V = CollectedModel;

    open spec fn view(&self) -> CollectedModel {
        CollectedModel { index: self.index, tag: self.tag, storage: self.storage, raw: self.raw@ }
    }
}

/// The models of collected messages.
pub open spec fn collected_models(list: Seq<CollectedMessage>) -> Seq<CollectedModel> {
    list.map_values(|message: CollectedMessage| message@)
}

/// Result of one inbound collection pass. MO rows are reported so callers can
/// see they were ignored; they are never read or deleted here.
#[derive(Clone, Debug, PartialEq, Eq)]
pub struct InboxPass {
    pub inbound: Vec<CollectedMessage>,
    pub skipped_mo: Vec<ListedMessage>,
}

/// Result of one inbound collection pass, by what it holds.
#[verifier::ext_equal]
pub struct PassModel {
    pub inbound: Seq<CollectedModel>,
    pub skipped_mo: Seq<ListedMessage>,
}

impl View for InboxPass {
    type V = PassModel;

    open spec fn view(&self) -> PassModel {
        PassModel {
            inbound: collected_models(self.inbound@),
            skipped_mo: self.skipped_mo@,
        }
    }
}

impl Default for InboxPass {
    fn default() -> (pass: Self)
        ensures
            pass@ == (PassModel { inbound: Seq::empty(), skipped_mo: Seq::empty() }),
    {
        let pass = InboxPass { inbound: Vec::new(), skipped_mo: Vec::new() };
        proof {
            assert(pass@ =~= (PassModel { inbound: Seq::empty(), skipped_mo: Seq::empty() }));
        }
        pass
    }
}

/// The entries whose returned tag does not say that they were received, in
/// order.
pub open spec fn not_received(messages: Seq<ListedMessage>) -> Seq<ListedMessage> {
    messages.filter(|m: ListedMessage| !m.tag.received())
}

/// Reading listed messages one after the other; the first that cannot be read
/// ends it.
pub open spec fn read_all<P: ModemPort>(
    model: P::Model,
    listed: Seq<ListedMessage>,
    gathered: Seq<CollectedModel>,
) -> (Result<Seq<CollectedModel>, PortFault>, P::Model)
    decreases listed.len(),
{
    if listed.len() == 0 {
        (Ok(gathered), model)
    } else {
        let (raw, after) = P::read(model, listed[0].storage, listed[0].index);
        match raw {
            Err(e) => (Err(e), after),
            Ok(raw) => read_all::<P>(
                after,
                listed.skip(1),
                gathered.push(
                    CollectedModel {
                        index: listed[0].index,
                        tag: listed[0].tag,
                        storage: listed[0].storage,
                        raw,
                    },
                ),
            ),
        }
    }
}

/// One collection pass.
pub open spec fn collected<P: ModemPort>(model: P::Model) -> (
    Result<PassModel, PortFault>,
    P::Model,
) {
    let (listed, after) = P::listed(model);
    match listed {
        Err(e) => (Err(e), after),
        Ok(listed) => {
            let (inbound, last) = read_all::<P>(after, received_only(listed), Seq::empty());
            match inbound {
                Err(e) => (Err(e), last),
                Ok(inbound) => (
                    Ok(PassModel { inbound, skipped_mo: not_received(listed) }),
                    last,
                ),
            }
        },
    }
}

fn retain_others(messages: &[ListedMessage]) -> (kept: Vec<ListedMessage>)
    ensures
        kept@ == not_received(messages@),
{
    let mut kept: Vec<ListedMessage> = Vec::new();
    let mut i: usize = 0;
    proof {
        reveal(Seq::filter);
        assert(messages@.take(0) =~= Seq::empty());
        assert(kept@ =~= not_received(messages@.take(0)));
    }
    while i < messages.len()
        invariant
            i <= messages@.len(),
            kept@ == not_received(messages@.take(i as int)),
        decreases messages@.len() - i,
    {
        proof {
            reveal(Seq::filter);
            assert(messages@.take(i + 1).drop_last() =~= messages@.take(i as int));
            assert(messages@.take(i + 1).last() == messages@[i as int]);
        }
        if !messages[i].tag.is_mobile_terminated() {
            kept.push(messages[i]);
        }
        i = i + 1;
    }
    proof {
        assert(messages@.take(i as int) =~= messages@);
    }
    kept
}

fn read_listed<P: ModemPort>(port: &mut P, listed: &Vec<ListedMessage>) -> (inbound: Result<
    Vec<CollectedMessage>,
    PortError,
>)
    ensures
        ({
            let wanted = read_all::<P>(old(port).model(), listed@, Seq::empty());
            final(port).model() == wanted.1 && match inbound {
                Ok(list) => wanted.0 == Ok::<Seq<CollectedModel>, PortFault>(
                    collected_models(list@),
                ),
                Err(e) => wanted.0 == Err::<Seq<CollectedModel>, PortFault>(e@),
            }
        }),
{
    let ghost wanted = read_all::<P>(port.model(), listed@, Seq::empty());
    let mut inbound: Vec<CollectedMessage> = Vec::new();
    let mut i: usize = 0;
    proof {
        assert(listed@.skip(0) =~= listed@);
        assert(collected_models(inbound@) =~= Seq::empty());
    }
    while i < listed.len()
        invariant
            i <= listed@.len(),
            wanted == read_all::<P>(old(port).model(), listed@, Seq::empty()),
            read_all::<P>(
                port.model(),
                listed@.skip(i as int),
                collected_models(inbound@),
            ) == wanted,
        decreases listed@.len() - i,
    {
        let message: ListedMessage = listed[i];
        proof {
            assert(listed@.skip(i as int)[0] == message);
            assert(listed@.skip(i as int).skip(1) =~= listed@.skip(i + 1));
        }
        let raw: RawMessage = match port.read_sms(message.storage, message.index) {
            Ok(raw) => raw,
            Err(e) => return Err(e),
        };
        let ghost before = collected_models(inbound@);
        let collected = CollectedMessage {
            index: message.index,
            tag: message.tag,
            storage: message.storage,
            raw,
        };
        let ghost shown = collected@;
        inbound.push(collected);
        proof {
            assert(collected_models(inbound@) =~= before.push(shown));
        }
        i = i + 1;
    }
    Ok(inbound)
}

/// List every stored message, keep only MT tags from the *response*, and read
/// those rows.
///
/// The tag is taken from what the modem returned, never from what the listing
/// asked for: a modem that ignores the request filter answers with MO rows
/// mixed in, and those must not be read or deleted here.
///
/// Read and unread are both collected. Read state says nothing about whether
/// we have stored a message — it says only that somebody, possibly a console AT
/// terminal, has looked at it. Whether a message is new is decided by
/// `fragment_fingerprint` against our own ledger.
pub fn collect_inbound<P: ModemPort>(port: &mut P) -> (pass: Result<InboxPass, PortError>)
    ensures
        (crate::port::answered(pass), final(port).model()) == collected::<P>(old(port).model()),
{
    let listed: Vec<ListedMessage> = match port.list_sms() {
        Ok(listed) => listed,
        Err(e) => return Err(e),
    };
    let inbound_listed: Vec<ListedMessage> = retain_mobile_terminated(&listed);
    let skipped_mo: Vec<ListedMessage> = retain_others(&listed);
    let inbound: Vec<CollectedMessage> = match read_listed(port, &inbound_listed) {
        Ok(inbound) => inbound,
        Err(e) => return Err(e),
    };
    Ok(InboxPass { inbound, skipped_mo })
}

/// Deleting the received among messages one after the other; the first that cannot
/// be deleted ends it.
pub open spec fn delete_all<P: ModemPort>(model: P::Model, inbound: Seq<CollectedModel>) -> (
    Result<(), PortFault>,
    P::Model,
)
    decreases inbound.len(),
{
    if inbound.len() == 0 {
        (Ok(()), model)
    } else if !inbound[0].tag.received() {
        delete_all::<P>(model, inbound.skip(1))
    } else {
        let (result, after) = P::deleted(model, inbound[0].storage, inbound[0].index);
        match result {
            Err(e) => (Err(e), after),
            Ok(_) => delete_all::<P>(after, inbound.skip(1)),
        }
    }
}

/// Delete only indexes that were collected as inbound MT. Never used for MO.
pub fn delete_inbound<P: ModemPort>(port: &mut P, inbound: &[CollectedMessage]) -> (result: Result<
    (),
    PortError,
>)
    ensures
        (crate::port::done(result), final(port).model()) == delete_all::<P>(
            old(port).model(),
            collected_models(inbound@),
        ),
{
    let ghost all = collected_models(inbound@);
    let mut i: usize = 0;
    proof {
        assert(all.skip(0) =~= all);
    }
    while i < inbound.len()
        invariant
            i <= inbound@.len(),
            all == collected_models(inbound@),
            delete_all::<P>(port.model(), all.skip(i as int)) == delete_all::<P>(
                old(port).model(),
                all,
            ),
        decreases inbound@.len() - i,
    {
        proof {
            assert(all.skip(i as int)[0] == inbound@[i as int]@);
            assert(all.skip(i as int).skip(1) =~= all.skip(i + 1));
        }
        if inbound[i].tag.is_mobile_terminated() {
            match port.delete_sms(inbound[i].storage, inbound[i].index) {
                Ok(_) => {},
                Err(e) => return Err(e),
            }
        }
        i = i + 1;
    }
    Ok(())
}

/// Nothing but what was received is ever deleted: where no message was, the module
/// is left as it is.
pub proof fn law_sent_messages_are_not_deleted<P: ModemPort>(
    model: P::Model,
    inbound: Seq<CollectedModel>,
)
    requires
        forall|i: int| 0 <= i < inbound.len() ==> !(#[trigger] inbound[i]).tag.received(),
    ensures
        delete_all::<P>(model, inbound) == (Ok::<(), PortFault>(()), model),
    decreases inbound.len(),
{
    if inbound.len() > 0 {
        assert(!inbound[0].tag.received());
        assert forall|i: int| 0 <= i < inbound.skip(1).len() implies !(#[trigger] inbound.skip(
            1,
        )[i]).tag.received() by {
            assert(inbound.skip(1)[i] == inbound[i + 1]);
        }
        law_sent_messages_are_not_deleted::<P>(model, inbound.skip(1));
    }
}

// ---------------------------------------------------------------------------
// The ledger
// ---------------------------------------------------------------------------

/// A signed number, as decimal digits.
pub open spec fn signed_decimal(n: int) -> Seq<char> {
    if n < 0 {
        "-"@ + decimal((-n) as nat)
    } else {
        decimal(n as nat)
    }
}

fn push_signed(out: &mut String, n: i64)
    ensures
        final(out)@ == old(out)@ + signed_decimal(n as int),
{
    if n < 0 {
        out.append("-");
        let size: u64 = if n == i64::MIN {
            0x8000_0000_0000_0000
        } else {
            (-n) as u64
        };
        push_decimal(out, size);
    } else {
        push_decimal(out, n as u64);
    }
    proof {
        assert(out@ =~= old(out)@ + signed_decimal(n as int));
    }
}

/// FNV-1a, 64 bit.
pub open spec fn fnv1a(bytes: Seq<u8>) -> u64
    decreases bytes.len(),
{
    if bytes.len() == 0 {
        0xcbf2_9ce4_8422_2325
    } else {
        (fnv1a(bytes.drop_last()) ^ (bytes.last() as u64)).wrapping_mul(0x0000_0100_0000_01b3u64)
    }
}

/// FNV-1a, 64 bit.
///
/// Written out because these values are persisted: the standard hasher is
/// explicitly not stable across Rust releases, so an upgrade would silently
/// invalidate the whole ledger and re-store every message still sitting on a
/// modem. Not a security boundary — the input is a message body we just decoded
/// ourselves.
fn fnv1a64(bytes: &[u8]) -> (hash: u64)
    ensures
        hash == fnv1a(bytes@),
{
    let mut hash: u64 = 0xcbf2_9ce4_8422_2325;
    let mut i: usize = 0;
    while i < bytes.len()
        invariant
            i <= bytes@.len(),
            hash == fnv1a(bytes@.take(i as int)),
        decreases bytes@.len() - i,
    {
        proof {
            assert(bytes@.take(i + 1).drop_last() =~= bytes@.take(i as int));
        }
        hash = (hash ^ (bytes[i] as u64)).wrapping_mul(0x0000_0100_0000_01b3u64);
        i = i + 1;
    }
    proof {
        assert(bytes@.take(i as int) =~= bytes@);
    }
    hash
}

/// When a fragment was stamped, as text.
pub open spec fn stamp(received_at: Option<i64>) -> Seq<char> {
    match received_at {
        Some(ms) => signed_decimal(ms as int),
        None => "-"@,
    }
}

/// What one received fragment is called, after the sender and the stamp.
pub open spec fn place(ref_id: u16, total: u8, seq: u8, body: Seq<char>) -> Seq<char> {
    hex_quad(ref_id) + "|"@ + decimal(total as nat) + "|"@ + decimal(seq as nat) + "|"@
        + hex_sixteen(fnv1a(encode_utf8(body)))
}

/// What one received fragment is called.
pub open spec fn fingerprint(
    sender: Seq<char>,
    received_at: Option<i64>,
    ref_id: u16,
    total: u8,
    seq: u8,
    body: Seq<char>,
) -> Seq<char> {
    "v1|"@ + sender + "|"@ + stamp(received_at) + "|"@ + place(ref_id, total, seq, body)
}

/// What our own books call one received fragment.
///
/// The collector reads every message the modem holds, read and unread alike,
/// because the read flag is not ours: one `AT+CMGR` from a console terminal
/// flips it, and a collector that skipped read rows lost that message for good.
/// Deduplication therefore cannot lean on the modem's state at all, and leans
/// on this instead — the service centre timestamp, the sender, and the
/// fragment's own place in its concatenation, plus a hash of the text so two
/// different messages stamped in the same second are still two messages.
///
/// Fragment-level rather than message-level on purpose: a multipart message is
/// stored only once all of its parts are in hand, so the parts that arrived
/// first must be recognisable on their own in a later pass.
pub fn fragment_fingerprint(
    sender: &str,
    received_at: Option<i64>,
    ref_id: u16,
    total: u8,
    seq: u8,
    body: &str,
) -> (name: String)
    ensures
        name@ == fingerprint(sender@, received_at, ref_id, total, seq, body@),
{
    let mut name: String = owned("v1|");
    name.append(sender);
    name.append("|");
    match received_at {
        Some(ms) => push_signed(&mut name, ms),
        None => name.append("-"),
    }
    name.append("|");
    push_hex_quad(&mut name, ref_id);
    name.append("|");
    push_decimal(&mut name, total as u64);
    name.append("|");
    push_decimal(&mut name, seq as u64);
    name.append("|");
    push_hex_sixteen(&mut name, fnv1a64(body.as_bytes()));
    proof {
        assert(name@ =~= fingerprint(sender@, received_at, ref_id, total, seq, body@));
    }
    name
}

/// How many copies of each fragment were stored on earlier passes. No fragment
/// is entered twice.
pub struct Ledger {
    names: Vec<String>,
    copies: Vec<u32>,
}

/// How many copies a list of entries has of one name.
pub open spec fn entered(names: Seq<Seq<char>>, copies: Seq<u32>, name: Seq<char>) -> u32
    decreases names.len(),
{
    if names.len() == 0 {
        0
    } else if names.last() == name {
        copies[names.len() - 1]
    } else {
        entered(names.drop_last(), copies, name)
    }
}

proof fn lemma_not_entered(names: Seq<Seq<char>>, copies: Seq<u32>, name: Seq<char>)
    requires
        !names.contains(name),
    ensures
        entered(names, copies, name) == 0,
    decreases names.len(),
{
    if names.len() > 0 {
        assert(names.contains(names.last()));
        assert forall|i: int| 0 <= i < names.drop_last().len() implies names.drop_last()[i]
            != name by {
            assert(names[i] != name);
        }
        lemma_not_entered(names.drop_last(), copies, name);
    }
}

proof fn lemma_entered_at(names: Seq<Seq<char>>, copies: Seq<u32>, name: Seq<char>, at: int)
    requires
        0 <= at < names.len() <= copies.len(),
        names[at] == name,
        forall|i: int| at < i < names.len() ==> names[i] != name,
    ensures
        entered(names, copies, name) == copies[at],
    decreases names.len(),
{
    if at < names.len() - 1 {
        lemma_entered_at(names.drop_last(), copies, name, at);
    }
}

proof fn lemma_entered_same(
    names: Seq<Seq<char>>,
    copies: Seq<u32>,
    other: Seq<u32>,
    name: Seq<char>,
)
    requires
        names.len() <= copies.len(),
        names.len() <= other.len(),
        forall|i: int| 0 <= i < names.len() && names[i] == name ==> copies[i] == other[i],
    ensures
        entered(names, copies, name) == entered(names, other, name),
    decreases names.len(),
{
    if names.len() > 0 && names.last() != name {
        lemma_entered_same(names.drop_last(), copies, other, name);
    }
}

impl Ledger {
    #[verifier::type_invariant]
    spec fn well_formed(self) -> bool {
        &&& self.names@.len() == self.copies@.len()
        &&& forall|i: int, j: int|
            0 <= i < j < self.names@.len() ==> (#[trigger] texts(self.names@)[i])
                != #[trigger] texts(self.names@)[j]
    }

    /// How many copies of a fragment were stored.
    pub closed spec fn count(&self, name: Seq<char>) -> u32 {
        entered(texts(self.names@), self.copies@, name)
    }

    pub fn new() -> (ledger: Self)
        ensures
            forall|name: Seq<char>| ledger.count(name) == 0,
    {
        Ledger { names: Vec::new(), copies: Vec::new() }
    }

    fn find(&self, name: &str) -> (at: Option<usize>)
        ensures
            match at {
                Some(i) => i < self.names@.len() && self.names@[i as int]@ == name@ && self.count(
                    name@,
                ) == self.copies@[i as int],
                None => !texts(self.names@).contains(name@) && self.count(name@) == 0,
            },
    {
        proof {
            use_type_invariant(self);
        }
        let ghost all = texts(self.names@);
        let mut i: usize = 0;
        while i < self.names.len()
            invariant
                i <= self.names@.len(),
                self.names@.len() == self.copies@.len(),
                all == texts(self.names@),
                forall|a: int, b: int|
                    0 <= a < b < self.names@.len() ==> (#[trigger] all[a]) != #[trigger] all[b],
                forall|j: int| 0 <= j < i ==> (#[trigger] all[j]) != name@,
            decreases self.names@.len() - i,
        {
            proof {
                assert(all[i as int] == self.names@[i as int]@);
            }
            if same_text(self.names[i].as_str(), name) {
                proof {
                    lemma_entered_at(all, self.copies@, name@, i as int);
                }
                return Some(i);
            }
            i = i + 1;
        }
        proof {
            lemma_not_entered(all, self.copies@, name@);
        }
        None
    }

    /// How many copies of a fragment were stored.
    pub fn copies(&self, name: &str) -> (copies: u32)
        ensures
            copies == self.count(name@),
    {
        match self.find(name) {
            Some(i) => {
                proof {
                    use_type_invariant(self);
                }
                self.copies[i]
            },
            None => 0,
        }
    }

    /// Enter how many copies of a fragment were stored.
    pub fn enter(self, name: &str, copies: u32) -> (ledger: Self)
        ensures
            forall|other: Seq<char>|
                #[trigger] ledger.count(other) == if other == name@ {
                    copies
                } else {
                    self.count(other)
                },
    {
        let at: Option<usize> = self.find(name);
        proof {
            use_type_invariant(&self);
        }
        let ghost before = self;
        let ghost old_names = texts(self.names@);
        let Ledger { names: mut names, copies: mut counts } = self;
        match at {
            Some(i) => {
                counts.set(i, copies);
                proof {
                    assert(old_names[i as int] == name@);
                    assert forall|other: Seq<char>| #[trigger] entered(
                        old_names,
                        counts@,
                        other,
                    ) == if other == name@ {
                        copies
                    } else {
                        before.count(other)
                    } by {
                        if other == name@ {
                            lemma_entered_at(old_names, counts@, other, i as int);
                        } else {
                            lemma_entered_same(old_names, counts@, before.copies@, other);
                        }
                    }
                }
            },
            None => {
                names.push(owned(name));
                counts.push(copies);
                proof {
                    let new_names = texts(names@);
                    assert(new_names =~= old_names.push(name@));
                    assert(new_names.drop_last() =~= old_names);
                    assert forall|a: int, b: int| 0 <= a < b < new_names.len() implies (
                    #[trigger] new_names[a]) != #[trigger] new_names[b] by {
                        if b == new_names.len() - 1 {
                            assert(old_names.contains(old_names[a]));
                        } else {
                            assert(old_names[a] != old_names[b]);
                        }
                    }
                    assert forall|other: Seq<char>| #[trigger] entered(
                        new_names,
                        counts@,
                        other,
                    ) == if other == name@ {
                        copies
                    } else {
                        before.count(other)
                    } by {
                        if other != name@ {
                            lemma_entered_same(old_names, counts@, before.copies@, other);
                        }
                    }
                }
            },
        }
        Ledger { names, copies: counts }
    }
}

/// How often a name stands in a list.
pub open spec fn occurrences(list: Seq<Seq<char>>, name: Seq<char>) -> nat
    decreases list.len(),
{
    if list.len() == 0 {
        0
    } else {
        occurrences(list.drop_last(), name) + (if list.last() == name {
            1nat
        } else {
            0
        })
    }
}

fn count_before(fingerprints: &[String], end: usize) -> (count: u64)
    requires
        end < fingerprints@.len(),
    ensures
        count == occurrences(texts(fingerprints@).take(end as int), fingerprints@[end as int]@),
{
    let ghost all = texts(fingerprints@);
    let ghost name = fingerprints@[end as int]@;
    let mut count: u64 = 0;
    let mut i: usize = 0;
    proof {
        assert(all.take(0) =~= Seq::empty());
    }
    while i < end
        invariant
            i <= end < fingerprints@.len(),
            all == texts(fingerprints@),
            name == fingerprints@[end as int]@,
            count <= i,
            count == occurrences(all.take(i as int), name),
        decreases end - i,
    {
        proof {
            assert(all.take(i + 1).drop_last() =~= all.take(i as int));
            assert(all.take(i + 1).last() == fingerprints@[i as int]@);
        }
        if same_text(fingerprints[i].as_str(), fingerprints[end].as_str()) {
            count = count + 1;
        }
        i = i + 1;
    }
    count
}

/// Which fragments of this pass our books already account for, in the order
/// they were listed.
///
/// `ingested` says how many copies of each fingerprint were stored on earlier
/// passes. Copies matter: a service centre can deliver the same message twice,
/// and both deliveries are real messages the operator should see. So the first
/// `n` occurrences of a fingerprint already stored `n` times are old, and
/// everything beyond that is new.
///
/// A fragment reported here is not lost — it is one whose delete did not take
/// last time, and the caller should delete it rather than store it again.
pub fn seen_before(fingerprints: &[String], ingested: &Ledger) -> (seen: Vec<bool>)
    ensures
        seen@.len() == fingerprints@.len(),
        forall|i: int|
            0 <= i < seen@.len() ==> (#[trigger] seen@[i]) == (occurrences(
                texts(fingerprints@).take(i),
                fingerprints@[i]@,
            ) < ingested.count(fingerprints@[i]@)),
{
    let mut seen: Vec<bool> = Vec::new();
    let mut i: usize = 0;
    while i < fingerprints.len()
        invariant
            i <= fingerprints@.len(),
            seen@.len() == i,
            forall|j: int|
                0 <= j < i ==> (#[trigger] seen@[j]) == (occurrences(
                    texts(fingerprints@).take(j),
                    fingerprints@[j]@,
                ) < ingested.count(fingerprints@[j]@)),
        decreases fingerprints@.len() - i,
    {
        let used: u64 = count_before(fingerprints, i);
        let already: u32 = ingested.copies(fingerprints[i].as_str());
        seen.push(used < already as u64);
        i = i + 1;
    }
    seen
}

// ---------------------------------------------------------------------------
// Laws
// ---------------------------------------------------------------------------

proof fn lemma_decimal(n: nat)
    ensures
        decimal(n).len() > 0,
        forall|i: int|
            0 <= i < decimal(n).len() ==> crate::text::is_digit(#[trigger] decimal(n)[i]),
        crate::text::digits_value(decimal(n)) == n,
    decreases n,
{
    let text = decimal(n);
    if n >= 10 {
        lemma_decimal(n / 10);
        assert(text.drop_last() =~= decimal(n / 10));
        assert forall|i: int| 0 <= i < text.len() implies crate::text::is_digit(
            #[trigger] text[i],
        ) by {
            if i < text.len() - 1 {
                assert(text[i] == decimal(n / 10)[i]);
            }
        }
    } else {
        assert(text.drop_last() =~= Seq::empty());
        assert(crate::text::digits_value(Seq::<char>::empty()) == 0);
    }
}

proof fn lemma_first_bar(text: Seq<char>, rest: Seq<char>)
    requires
        forall|i: int| 0 <= i < text.len() ==> crate::text::is_digit(#[trigger] text[i]),
    ensures
        crate::text::first_index(text + seq!['|'] + rest, '|') == text.len(),
        (text + seq!['|'] + rest).take(text.len() as int) == text,
        (text + seq!['|'] + rest).skip(text.len() as int + 1) == rest,
{
    let whole = text + seq!['|'] + rest;
    assert forall|i: int| 0 <= i < text.len() implies whole[i] != '|' by {
        assert(crate::text::is_digit(text[i]));
    }
    crate::text::lemma_first_index_is(whole, '|', text.len() as int);
    assert(whole.take(text.len() as int) =~= text);
    assert(whole.skip(text.len() as int + 1) =~= rest);
}

/// Two fragments of one sender and stamp that stand in different places are two
/// rows, whatever they say.
pub proof fn law_fragments_are_told_apart(
    sender: Seq<char>,
    received_at: Option<i64>,
    first: (u16, u8, u8),
    second: (u16, u8, u8),
    first_body: Seq<char>,
    second_body: Seq<char>,
)
    requires
        first != second,
    ensures
        fingerprint(sender, received_at, first.0, first.1, first.2, first_body) != fingerprint(
            sender,
            received_at,
            second.0,
            second.1,
            second.2,
            second_body,
        ),
{
    reveal_strlit("|");
    let head = "v1|"@ + sender + "|"@ + stamp(received_at) + "|"@;
    let p1 = place(first.0, first.1, first.2, first_body);
    let p2 = place(second.0, second.1, second.2, second_body);
    let f1 = fingerprint(sender, received_at, first.0, first.1, first.2, first_body);
    let f2 = fingerprint(sender, received_at, second.0, second.1, second.2, second_body);
    assert(f1 =~= head + p1);
    assert(f2 =~= head + p2);
    if f1 == f2 {
        assert(f1.skip(head.len() as int) =~= p1);
        assert(f2.skip(head.len() as int) =~= p2);
        lemma_place(first, second, first_body, second_body);
    }
}

proof fn lemma_place(
    first: (u16, u8, u8),
    second: (u16, u8, u8),
    first_body: Seq<char>,
    second_body: Seq<char>,
)
    requires
        place(first.0, first.1, first.2, first_body) == place(
            second.0,
            second.1,
            second.2,
            second_body,
        ),
    ensures
        first == second,
{
    let h1 = hex_sixteen(fnv1a(encode_utf8(first_body)));
    let h2 = hex_sixteen(fnv1a(encode_utf8(second_body)));
    lemma_decimal(first.1 as nat);
    lemma_decimal(second.1 as nat);
    lemma_decimal(first.2 as nat);
    lemma_decimal(second.2 as nat);
    lemma_split(
        (hex_quad(first.0), decimal(first.1 as nat), decimal(first.2 as nat), h1),
        (hex_quad(second.0), decimal(second.1 as nat), decimal(second.2 as nat), h2),
    );
    lemma_hex_quad(first.0, second.0);
}

proof fn lemma_split(
    first: (Seq<char>, Seq<char>, Seq<char>, Seq<char>),
    second: (Seq<char>, Seq<char>, Seq<char>, Seq<char>),
)
    requires
        first.0.len() == 4,
        second.0.len() == 4,
        first.0 + "|"@ + first.1 + "|"@ + first.2 + "|"@ + first.3 == second.0 + "|"@ + second.1
            + "|"@ + second.2 + "|"@ + second.3,
        forall|i: int| 0 <= i < first.1.len() ==> crate::text::is_digit(#[trigger] first.1[i]),
        forall|i: int| 0 <= i < first.2.len() ==> crate::text::is_digit(#[trigger] first.2[i]),
        forall|i: int| 0 <= i < second.1.len() ==> crate::text::is_digit(#[trigger] second.1[i]),
        forall|i: int| 0 <= i < second.2.len() ==> crate::text::is_digit(#[trigger] second.2[i]),
    ensures
        first.0 == second.0,
        first.1 == second.1,
        first.2 == second.2,
{
    reveal_strlit("|");
    let bar = seq!['|'];
    assert("|"@ =~= bar);
    let tail1 = first.2 + bar + first.3;
    let tail2 = second.2 + bar + second.3;
    let rest1 = first.1 + bar + tail1;
    let rest2 = second.1 + bar + tail2;
    let p1 = first.0 + bar + rest1;
    let p2 = second.0 + bar + rest2;
    assert(p1 =~= first.0 + "|"@ + first.1 + "|"@ + first.2 + "|"@ + first.3);
    assert(p2 =~= second.0 + "|"@ + second.1 + "|"@ + second.2 + "|"@ + second.3);
    assert(p1.take(4) =~= first.0);
    assert(p2.take(4) =~= second.0);
    assert(p1.skip(5) =~= rest1);
    assert(p2.skip(5) =~= rest2);
    lemma_first_bar(first.1, tail1);
    lemma_first_bar(second.1, tail2);
    lemma_first_bar(first.2, first.3);
    lemma_first_bar(second.2, second.3);
}

proof fn lemma_hex_quad(left: u16, right: u16)
    ensures
        hex_quad(left) == hex_quad(right) ==> left == right,
{
    if hex_quad(left) == hex_quad(right) {
        assert(hex_quad(left)[0] == hex_quad(right)[0]);
        assert(hex_quad(left)[1] == hex_quad(right)[1]);
        assert(hex_quad(left)[2] == hex_quad(right)[2]);
        assert(hex_quad(left)[3] == hex_quad(right)[3]);
    }
}

/// A fragment that was never stored is new, and having stored some copies of
/// one never hides more than that many.
pub proof fn law_copies_hide_no_more_than_themselves(
    list: Seq<Seq<char>>,
    name: Seq<char>,
    stored: u32,
)
    ensures
        hidden(list, name, stored) <= stored,
        stored == 0 ==> hidden(list, name, stored) == 0,
    decreases list.len(),
{
    lemma_hidden(list, name, stored);
}

/// How many of the fragments of a name in a list count as seen.
pub open spec fn hidden(list: Seq<Seq<char>>, name: Seq<char>, stored: u32) -> nat
    decreases list.len(),
{
    if list.len() == 0 {
        0
    } else {
        hidden(list.drop_last(), name, stored) + (if list.last() == name && occurrences(
            list.drop_last(),
            name,
        ) < stored {
            1nat
        } else {
            0
        })
    }
}

proof fn lemma_hidden(list: Seq<Seq<char>>, name: Seq<char>, stored: u32)
    ensures
        hidden(list, name, stored) == if occurrences(list, name) < stored {
            occurrences(list, name)
        } else {
            stored as nat
        },
    decreases list.len(),
{
    if list.len() > 0 {
        lemma_hidden(list.drop_last(), name, stored);
    }
}

/// Nothing that was not received is read: a pass that succeeds read exactly the
/// listed messages whose returned tag says so, in order.
pub proof fn law_only_received_messages_are_read<P: ModemPort>(model: P::Model)
    requires
        collected::<P>(model).0 is Ok,
    ensures
        ({
            let pass = collected::<P>(model).0->Ok_0;
            let listed = received_only(P::listed(model).0->Ok_0);
            &&& pass.inbound.len() == listed.len()
            &&& forall|i: int|
                0 <= i < listed.len() ==> {
                    &&& (#[trigger] pass.inbound[i]).index == listed[i].index
                    &&& pass.inbound[i].storage == listed[i].storage
                    &&& pass.inbound[i].tag == listed[i].tag
                    &&& pass.inbound[i].tag.received()
                }
        }),
{
    let all = P::listed(model).0->Ok_0;
    let listed = received_only(all);
    lemma_read_all::<P>(P::listed(model).1, listed, Seq::empty());
    let keep = |m: ListedMessage| m.tag.received();
    all.filter_lemma(keep);
    assert forall|i: int| 0 <= i < listed.len() implies (#[trigger] listed[i]).tag.received() by {
        assert(keep(all.filter(keep)[i]));
    }
    let pass = collected::<P>(model).0->Ok_0;
    assert forall|i: int| 0 <= i < listed.len() implies {
        &&& (#[trigger] pass.inbound[i]).index == listed[i].index
        &&& pass.inbound[i].storage == listed[i].storage
        &&& pass.inbound[i].tag == listed[i].tag
        &&& pass.inbound[i].tag.received()
    } by {
        assert(pass.inbound[Seq::<CollectedModel>::empty().len() + i].index == listed[i].index);
    }
}

proof fn lemma_read_all<P: ModemPort>(
    model: P::Model,
    listed: Seq<ListedMessage>,
    gathered: Seq<CollectedModel>,
)
    ensures
        read_all::<P>(model, listed, gathered).0 matches Ok(list) ==> {
            &&& list.len() == gathered.len() + listed.len()
            &&& forall|i: int| 0 <= i < gathered.len() ==> list[i] == gathered[i]
            &&& forall|i: int|
                0 <= i < listed.len() ==> {
                    &&& (#[trigger] list[gathered.len() + i]).index == listed[i].index
                    &&& list[gathered.len() + i].storage == listed[i].storage
                    &&& list[gathered.len() + i].tag == listed[i].tag
                }
        },
    decreases listed.len(),
{
    if listed.len() > 0 {
        let (raw, after) = P::read(model, listed[0].storage, listed[0].index);
        if raw is Ok {
            let next = gathered.push(
                CollectedModel {
                    index: listed[0].index,
                    tag: listed[0].tag,
                    storage: listed[0].storage,
                    raw: raw->Ok_0,
                },
            );
            lemma_read_all::<P>(after, listed.skip(1), next);
            let result = read_all::<P>(model, listed, gathered).0;
            if result is Ok {
                let list = result->Ok_0;
                assert forall|i: int| 0 <= i < listed.len() implies {
                    &&& (#[trigger] list[gathered.len() + i]).index == listed[i].index
                    &&& list[gathered.len() + i].storage == listed[i].storage
                    &&& list[gathered.len() + i].tag == listed[i].tag
                } by {
                    if i == 0 {
                        assert(list[gathered.len() as int] == next[gathered.len() as int]);
                    } else {
                        assert(listed.skip(1)[i - 1] == listed[i]);
                        assert(list[next.len() + (i - 1)].index == listed.skip(1)[i - 1].index);
                    }
                }
                assert forall|i: int| 0 <= i < gathered.len() implies list[i] == gathered[i] by {
                    assert(list[i] == next[i]);
                }
            }
        }
    }
}

} // verus!
