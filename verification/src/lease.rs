//! Modem arbitration and the local AT lease.
//!
//! The AT port is a single serial line and the module answers one command at a
//! time. Once the tunnel stack is a second process, its AKA challenges are not
//! background work: each one sits inside a timed, blocking exchange with
//! somebody else's server. So the arbiter is priority-aware: an AKA request
//! goes ahead of anything merely waiting.
//!
//! The lease itself is a Unix socket and nothing else, on purpose. It runs
//! arbitrary AT commands, which is complete control of the module — the SIM,
//! the radio, the firmware. A socket file is reachable by whoever the
//! filesystem says, and it is created 0600.

use crate::aka::{
    decode_hex, hex_octets, hex_upper, AkaError, AkaOutcome, OutcomeModel, AUTN_BYTES, RAND_BYTES,
};
use crate::at::{ended_ok, AtExchange, ExchangeModel};
use crate::json::{
    find_json_fault, find_json_text, json_at, json_fault, json_item, json_string, json_string_of,
    json_text, JsonItem, JsonModel,
};
use crate::text::{
    chars_of, decimal, hex_pair_upper, hex_text_upper, opt_str, opt_text, owned, push_decimal,
    push_hex_pair_upper, quoted, quoted_text, same_text, string_of, texts, trim, trimmed,
};
use vstd::prelude::*;
use vstd::utf8::encode_utf8;

verus! {

// ---------------------------------------------------------------------------
// Arbitration
// ---------------------------------------------------------------------------

/// Who is asking for the module.
#[derive(Clone, Copy, Debug, PartialEq, Eq, Structural)]
pub enum ModemPriority {
    /// Console commands, the poll loop, eUICC profile management.
    Normal,
    /// A USIM authentication on a timed protocol path. Overtakes anything
    /// that is only queued; it cannot interrupt work already running, because
    /// half an ES10 sequence is worse than a late challenge.
    Aka,
}

impl ModemPriority {
    pub open spec fn name(self) -> &'static str {
        match self {
            ModemPriority::Normal => "normal",
            ModemPriority::Aka => "aka",
        }
    }

    pub fn label(&self) -> (label: &'static str)
        ensures
            label == self.name(),
    {
        match self {
            ModemPriority::Normal => "normal",
            ModemPriority::Aka => "aka",
        }
    }
}

/// How many callers are queued, for tests and for a status page.
#[derive(Clone, Copy, Debug, PartialEq, Eq, Structural)]
pub struct ArbiterWaiting {
    pub normal: usize,
    pub aka: usize,
    pub held: bool,
}

/// Serialises every conversation with one module, with AKA jumping the queue.
///
/// Deliberately not a lock: the point is that the waiters are not equal, and an
/// arbitrary wake order is exactly what this replaces. Callers enter one after
/// the other; whoever may not enter yet waits for the next change.
pub struct ModemArbiter {
    held: bool,
    waiting_normal: usize,
    waiting_aka: usize,
}

impl View for ModemArbiter {
    type V = ArbiterWaiting;

    closed spec fn view(&self) -> ArbiterWaiting {
        ArbiterWaiting { normal: self.waiting_normal, aka: self.waiting_aka, held: self.held }
    }
}

/// A caller joins the queue.
pub open spec fn queued(state: ArbiterWaiting, priority: ModemPriority) -> ArbiterWaiting {
    match priority {
        ModemPriority::Normal => ArbiterWaiting { normal: (state.normal + 1) as usize, ..state },
        ModemPriority::Aka => ArbiterWaiting { aka: (state.aka + 1) as usize, ..state },
    }
}

/// How many callers of a priority wait.
pub open spec fn waiters(state: ArbiterWaiting, priority: ModemPriority) -> usize {
    match priority {
        ModemPriority::Normal => state.normal,
        ModemPriority::Aka => state.aka,
    }
}

/// Whether a caller of a priority may have the module now. An AKA caller waits
/// only for the current holder; a normal caller also waits for every queued AKA
/// caller.
pub open spec fn admitted(state: ArbiterWaiting, priority: ModemPriority) -> bool {
    match priority {
        ModemPriority::Normal => !state.held && state.aka == 0,
        ModemPriority::Aka => !state.held,
    }
}

/// A caller leaves the queue with the module.
pub open spec fn entered(state: ArbiterWaiting, priority: ModemPriority) -> ArbiterWaiting {
    match priority {
        ModemPriority::Normal => ArbiterWaiting {
            normal: (state.normal - 1) as usize,
            held: true,
            ..state
        },
        ModemPriority::Aka => ArbiterWaiting { aka: (state.aka - 1) as usize, held: true, ..state },
    }
}

/// The module is given back.
pub open spec fn released(state: ArbiterWaiting) -> ArbiterWaiting {
    ArbiterWaiting { held: false, ..state }
}

impl Default for ModemArbiter {
    fn default() -> (arbiter: Self)
        ensures
            arbiter@ == (ArbiterWaiting { normal: 0, aka: 0, held: false }),
    {
        ModemArbiter::new()
    }
}

impl ModemArbiter {
    pub fn new() -> (arbiter: Self)
        ensures
            arbiter@ == (ArbiterWaiting { normal: 0, aka: 0, held: false }),
    {
        ModemArbiter { held: false, waiting_normal: 0, waiting_aka: 0 }
    }

    /// A caller joins the queue.
    pub fn queue(&mut self, priority: ModemPriority)
        requires
            waiters(old(self)@, priority) < usize::MAX,
        ensures
            final(self)@ == queued(old(self)@, priority),
    {
        match priority {
            ModemPriority::Normal => {
                self.waiting_normal = self.waiting_normal + 1;
            },
            ModemPriority::Aka => {
                self.waiting_aka = self.waiting_aka + 1;
            },
        }
    }

    /// A queued caller takes the module, if it may have it now.
    pub fn acquire(&mut self, priority: ModemPriority) -> (ours: bool)
        requires
            waiters(old(self)@, priority) > 0,
        ensures
            ours == admitted(old(self)@, priority),
            final(self)@ == (if ours {
                entered(old(self)@, priority)
            } else {
                old(self)@
            }),
    {
        match priority {
            ModemPriority::Aka => {
                if self.held {
                    return false;
                }
                self.waiting_aka = self.waiting_aka - 1;
            },
            ModemPriority::Normal => {
                if self.held || self.waiting_aka > 0 {
                    return false;
                }
                self.waiting_normal = self.waiting_normal - 1;
            },
        }
        self.held = true;
        true
    }

    pub fn waiting(&self) -> (waiting: ArbiterWaiting)
        ensures
            waiting == self@,
    {
        ArbiterWaiting { normal: self.waiting_normal, aka: self.waiting_aka, held: self.held }
    }

    /// The module is given back.
    pub fn release(&mut self)
        ensures
            final(self)@ == released(old(self)@),
    {
        self.held = false;
    }
}

/// Whoever waits for an AKA challenge goes ahead of everyone who waits for
/// something else: as long as one does, no normal caller is admitted, and as
/// soon as the module is free that one is.
pub proof fn law_aka_overtakes(state: ArbiterWaiting)
    requires
        state.aka > 0,
    ensures
        !admitted(state, ModemPriority::Normal),
        admitted(released(state), ModemPriority::Aka),
{
}

/// The module has one holder: while it is held nobody is admitted, and whoever
/// is admitted holds it.
pub proof fn law_the_module_has_one_holder(
    state: ArbiterWaiting,
    first: ModemPriority,
    second: ModemPriority,
)
    requires
        admitted(state, first),
    ensures
        entered(state, first).held,
        !admitted(entered(state, first), second),
        released(entered(state, first)).held == state.held,
{
}

/// What happens to an arbiter: a caller joins the queue, a queued caller tries to
/// take the module, or whoever has the module gives it back.
pub enum ArbiterEvent {
    Queue(ModemPriority),
    Acquire(ModemPriority),
    Release,
}

/// An arbiter that nobody has come to.
pub open spec fn idle() -> ArbiterWaiting {
    ArbiterWaiting { normal: 0, aka: 0, held: false }
}

/// An arbiter after one event.
pub open spec fn arbitrated(state: ArbiterWaiting, event: ArbiterEvent) -> ArbiterWaiting {
    match event {
        ArbiterEvent::Queue(priority) => queued(state, priority),
        ArbiterEvent::Acquire(priority) => if admitted(state, priority) {
            entered(state, priority)
        } else {
            state
        },
        ArbiterEvent::Release => released(state),
    }
}

/// An arbiter after events, one after the other, from the beginning.
pub open spec fn arbitrated_all(events: Seq<ArbiterEvent>) -> ArbiterWaiting
    decreases events.len(),
{
    if events.len() == 0 {
        idle()
    } else {
        arbitrated(arbitrated_all(events.drop_last()), events.last())
    }
}

/// Whether the event at `i` is a caller of a priority that gets the module.
pub open spec fn grants(events: Seq<ArbiterEvent>, i: int, priority: ModemPriority) -> bool {
    events[i] == ArbiterEvent::Acquire(priority) && admitted(
        arbitrated_all(events.take(i)),
        priority,
    )
}

/// How many callers of a priority have joined the queue and not got the module yet.
pub open spec fn unserved(events: Seq<ArbiterEvent>, priority: ModemPriority) -> int
    decreases events.len(),
{
    if events.len() == 0 {
        0
    } else {
        unserved(events.drop_last(), priority) + (if events.last() == ArbiterEvent::Queue(
            priority,
        ) {
            1int
        } else if grants(events, events.len() - 1, priority) {
            -1int
        } else {
            0int
        })
    }
}

/// How many callers have got the module and not given it back yet.
pub open spec fn holders(events: Seq<ArbiterEvent>) -> int
    decreases events.len(),
{
    if events.len() == 0 {
        0
    } else {
        holders(events.drop_last()) + (match events.last() {
            ArbiterEvent::Queue(_) => 0int,
            ArbiterEvent::Acquire(priority) => if grants(events, events.len() - 1, priority) {
                1int
            } else {
                0int
            },
            ArbiterEvent::Release => -1int,
        })
    }
}

/// Whether callers keep to their part: only a caller that waits tries to take the
/// module, only one that has it gives it back, and there are no more of them than
/// can be counted.
pub open spec fn orderly(events: Seq<ArbiterEvent>) -> bool {
    forall|i: int|
        0 <= i < events.len() ==> match #[trigger] events[i] {
            ArbiterEvent::Queue(priority) => unserved(events.take(i), priority) < usize::MAX,
            ArbiterEvent::Acquire(priority) => unserved(events.take(i), priority) > 0,
            ArbiterEvent::Release => holders(events.take(i)) > 0,
        }
}

proof fn lemma_arbitration(events: Seq<ArbiterEvent>)
    requires
        orderly(events),
    ensures
        arbitrated_all(events).normal == unserved(events, ModemPriority::Normal),
        arbitrated_all(events).aka == unserved(events, ModemPriority::Aka),
        holders(events) == (if arbitrated_all(events).held {
            1int
        } else {
            0int
        }),
    decreases events.len(),
{
    if events.len() > 0 {
        let before = events.drop_last();
        let last = events.len() - 1;
        assert(events.take(last) =~= before);
        assert forall|i: int| 0 <= i < before.len() implies match #[trigger] before[i] {
            ArbiterEvent::Queue(priority) => unserved(before.take(i), priority) < usize::MAX,
            ArbiterEvent::Acquire(priority) => unserved(before.take(i), priority) > 0,
            ArbiterEvent::Release => holders(before.take(i)) > 0,
        } by {
            assert(before[i] == events[i]);
            assert(before.take(i) =~= events.take(i));
        }
        lemma_arbitration(before);
        assert(events[last] == events.last());
    }
}

proof fn lemma_orderly_before(events: Seq<ArbiterEvent>, n: int)
    requires
        orderly(events),
        0 <= n <= events.len(),
    ensures
        orderly(events.take(n)),
{
    let before = events.take(n);
    assert forall|i: int| 0 <= i < before.len() implies match #[trigger] before[i] {
        ArbiterEvent::Queue(priority) => unserved(before.take(i), priority) < usize::MAX,
        ArbiterEvent::Acquire(priority) => unserved(before.take(i), priority) > 0,
        ArbiterEvent::Release => holders(before.take(i)) > 0,
    } by {
        assert(before[i] == events[i]);
        assert(before.take(i) =~= events.take(i));
    }
}

/// However many callers come and go: the module has at most one holder, at every
/// moment; whoever gets it gets it while nobody has it, so no holder is ever
/// interrupted; a normal caller gets it only while no AKA caller waits; the arbiter
/// counts exactly who waits; and once all have got the module and given it back, it
/// is as it was in the beginning.
pub proof fn law_the_module_is_shared_in_order(events: Seq<ArbiterEvent>, i: int)
    requires
        orderly(events),
        0 <= i < events.len(),
    ensures
        0 <= holders(events) <= 1,
        0 <= holders(events.take(i)) <= 1,
        forall|priority: ModemPriority| #[trigger]
            grants(events, i, priority) ==> holders(events.take(i)) == 0,
        grants(events, i, ModemPriority::Normal) ==> unserved(events.take(i), ModemPriority::Aka)
            == 0,
        arbitrated_all(events).held == (holders(events) == 1),
        arbitrated_all(events).normal == unserved(events, ModemPriority::Normal),
        arbitrated_all(events).aka == unserved(events, ModemPriority::Aka),
        holders(events) == 0 && unserved(events, ModemPriority::Normal) == 0 && unserved(
            events,
            ModemPriority::Aka,
        ) == 0 ==> arbitrated_all(events) == idle(),
{
    lemma_arbitration(events);
    lemma_orderly_before(events, i);
    lemma_arbitration(events.take(i));
}

// ---------------------------------------------------------------------------
// The lease
// ---------------------------------------------------------------------------

/// A refusal the lease reports to its client.
#[derive(Clone, Debug, PartialEq, Eq)]
pub struct LeaseFailure {
    pub code: String,
    pub message: String,
}

/// A refusal, by what it says.
#[verifier::ext_equal]
pub struct FailureModel {
    pub code: Seq<char>,
    pub message: Seq<char>,
}

impl View for LeaseFailure {
    type V = FailureModel;

    open spec fn view(&self) -> FailureModel {
        FailureModel {
            code: self.code@,
            message: self.message@,
        }
    }
}

impl LeaseFailure {
    pub fn new(code: &str, message: &str) -> (failure: Self)
        ensures
            failure@ == (FailureModel { code: code@, message: message@ }),
    {
        LeaseFailure { code: owned(code), message: owned(message) }
    }

    /// A failed authentication, as a refusal.
    pub fn from_aka(error: &AkaError) -> (failure: Self)
        ensures
            failure@ == (FailureModel { code: error@.code_of()@, message: error@.text() }),
    {
        LeaseFailure { code: owned(error.code()), message: error.to_string() }
    }
}

/// What a lease does, seen over its whole life: what it has still to make of
/// commands and of challenges, the next one first, and what it was asked, the last
/// one last.
pub struct LeaseModel {
    pub exchanges: spec_fn(nat) -> Result<ExchangeModel, FailureModel>,
    pub outcomes: spec_fn(nat) -> Result<OutcomeModel, FailureModel>,
    pub asked: Seq<RequestModel>,
}

/// One command: the lease is asked to run it, and the next exchange comes back.
pub open spec fn executed(
    lease: LeaseModel,
    imei: Option<Seq<char>>,
    command: Seq<char>,
    timeout_ms: u64,
    priority: ModemPriority,
) -> (Result<ExchangeModel, FailureModel>, LeaseModel) {
    (
        (lease.exchanges)(0),
        LeaseModel {
            exchanges: |n: nat| (lease.exchanges)(n + 1),
            asked: lease.asked.push(
                RequestModel::ExecuteAt { imei, command, timeout_ms, priority },
            ),
            ..lease
        },
    )
}

/// One challenge: the lease is asked to put it to the card, and the next outcome
/// comes back.
pub open spec fn authenticated(
    lease: LeaseModel,
    imei: Option<Seq<char>>,
    rand: Seq<u8>,
    autn: Seq<u8>,
) -> (Result<OutcomeModel, FailureModel>, LeaseModel) {
    (
        (lease.outcomes)(0),
        LeaseModel {
            outcomes: |n: nat| (lease.outcomes)(n + 1),
            asked: lease.asked.push(RequestModel::Authenticate { imei, rand, autn }),
            ..lease
        },
    )
}

/// What a command came to, by what it says.
pub open spec fn exchange_shown(result: Result<AtExchange, LeaseFailure>) -> Result<
    ExchangeModel,
    FailureModel,
> {
    match result {
        Ok(exchange) => Ok(exchange@),
        Err(failure) => Err(failure@),
    }
}

/// What a challenge came to, by what it says.
pub open spec fn outcome_shown(result: Result<AkaOutcome, LeaseFailure>) -> Result<
    OutcomeModel,
    FailureModel,
> {
    match result {
        Ok(outcome) => Ok(outcome@),
        Err(failure) => Err(failure@),
    }
}

/// What the daemon lets a local process do with a module.
///
/// Two operations rather than one. `execute` is the general lease the tunnel
/// process needs; `authenticate` exists as well because an AKA challenge is the
/// one thing that must be able to overtake the queue, and because the
/// status-word classification belongs on this side of the boundary — the caller
/// learns "the card rejected this", not `9862`.
///
/// A lease is asked through a handle of its own for each client, so that it can be
/// said what a client made it do, and how often.
pub trait AtLease: Send + Sync {
    /// What this handle does over its whole life, which only contracts speak of.
    spec fn lease(&self) -> LeaseModel;

    fn execute(
        &mut self,
        imei: Option<&str>,
        command: &str,
        timeout_ms: u64,
        priority: ModemPriority,
    ) -> (result: Result<AtExchange, LeaseFailure>)
        ensures
            (exchange_shown(result), final(self).lease()) == executed(
                old(self).lease(),
                opt_str(imei),
                command@,
                timeout_ms,
                priority,
            ),
    ;

    fn authenticate(&mut self, imei: Option<&str>, rand16: &[u8], autn16: &[u8]) -> (
        result: Result<AkaOutcome, LeaseFailure>)
        ensures
            (outcome_shown(result), final(self).lease()) == authenticated(
                old(self).lease(),
                opt_str(imei),
                rand16@,
                autn16@,
            ),
    ;
}

/// Longest command budget a client may ask for, in milliseconds.
///
/// A band scan legitimately runs past a minute, so the ceiling is generous; it
/// exists so that one request cannot pin the module forever.
pub const MAX_LEASE_TIMEOUT: u64 = 300_000;

/// Used when a request does not say, in milliseconds.
pub const DEFAULT_LEASE_TIMEOUT: u64 = 10_000;

/// Concurrent clients. The arbiter serialises them anyway; this only stops a
/// misbehaving peer from spawning threads without bound.
pub const MAX_LEASE_CLIENTS: usize = 8;

/// Default socket path. Under `/run` because the socket is per-boot state and a
/// stale one left in a data directory is a confusing thing to find.
pub const DEFAULT_LEASE_SOCKET: &'static str = "/run/vodoge-edge/at-lease.sock";

/// Environment variable that overrides it.
pub const LEASE_SOCKET_ENV: &'static str = "VODOGE_AT_LEASE_SOCKET";

/// Where the lease socket should live: what the environment says, if it says
/// anything.
pub fn lease_socket_path(configured: Option<&str>) -> (path: String)
    ensures
        path@ == match configured {
            Some(path) => path@,
            None => DEFAULT_LEASE_SOCKET@,
        },
{
    match configured {
        Some(path) => owned(path),
        None => owned(DEFAULT_LEASE_SOCKET),
    }
}

// ---------------------------------------------------------------------------
// Requests
// ---------------------------------------------------------------------------

/// What a request asks for.
#[derive(Clone, Debug, PartialEq, Eq)]
pub enum LeaseRequest {
    ExecuteAt {
        imei: Option<String>,
        command: String,
        timeout_ms: u64,
        priority: ModemPriority,
    },
    Authenticate { imei: Option<String>, rand: Vec<u8>, autn: Vec<u8> },
}

/// What a request asks for, by what it says.
#[allow(inconsistent_fields)]
pub enum RequestModel {
    ExecuteAt {
        imei: Option<Seq<char>>,
        command: Seq<char>,
        timeout_ms: u64,
        priority: ModemPriority,
    },
    Authenticate { imei: Option<Seq<char>>, rand: Seq<u8>, autn: Seq<u8> },
}

impl View for LeaseRequest {
    type V = RequestModel;

    open spec fn view(&self) -> RequestModel {
        match *self {
            LeaseRequest::ExecuteAt { imei, command, timeout_ms, priority } => {
                RequestModel::ExecuteAt {
                    imei: opt_text(imei),
                    command: command@,
                    timeout_ms,
                    priority,
                }
            },
            LeaseRequest::Authenticate { imei, rand, autn } => RequestModel::Authenticate {
                imei: opt_text(imei),
                rand: rand@,
                autn: autn@,
            },
        }
    }
}

/// What a request line holds, before anything is made of it: why it is no JSON,
/// where it is none, and what stands in the fields that are looked at.
pub struct LeaseFields {
    pub fault: Option<String>,
    pub op: Option<String>,
    pub imei: Option<String>,
    pub command: Option<String>,
    pub timeout_ms: JsonItem,
    pub priority: Option<String>,
    pub rand: Option<String>,
    pub autn: Option<String>,
}

/// What a request line holds, by what it says.
#[verifier::ext_equal]
pub struct FieldsModel {
    pub fault: Option<Seq<char>>,
    pub op: Option<Seq<char>>,
    pub imei: Option<Seq<char>>,
    pub command: Option<Seq<char>>,
    pub timeout_ms: JsonModel,
    pub priority: Option<Seq<char>>,
    pub rand: Option<Seq<char>>,
    pub autn: Option<Seq<char>>,
}

impl View for LeaseFields {
    type V = FieldsModel;

    open spec fn view(&self) -> FieldsModel {
        FieldsModel {
            fault: opt_text(self.fault),
            op: opt_text(self.op),
            imei: opt_text(self.imei),
            command: opt_text(self.command),
            timeout_ms: self.timeout_ms@,
            priority: opt_text(self.priority),
            rand: opt_text(self.rand),
            autn: opt_text(self.autn),
        }
    }
}

/// The module that a request names, if it names one.
pub open spec fn imei_in(field: Option<Seq<char>>) -> Option<Seq<char>> {
    match field {
        None => None,
        Some(text) => if trimmed(text).len() == 0 {
            None
        } else {
            Some(trimmed(text))
        },
    }
}

/// The module that a request names, if it names one.
pub fn read_imei(field: &Option<String>) -> (imei: Option<String>)
    ensures
        opt_text(imei) == imei_in(opt_text(*field)),
{
    match field {
        None => None,
        Some(text) => {
            let chars: Vec<char> = chars_of(text.as_str());
            let name: &[char] = trim(&chars);
            if name.len() == 0 {
                None
            } else {
                Some(string_of(name))
            }
        },
    }
}

/// How long a request may take, or why what it says of that is refused.
pub open spec fn timeout_in(field: JsonModel) -> Result<u64, Seq<char>> {
    match field {
        JsonModel::Missing => Ok(DEFAULT_LEASE_TIMEOUT),
        JsonModel::Count(millis) => if millis == 0 {
            Err("timeout_ms must be a positive integer"@)
        } else if millis > MAX_LEASE_TIMEOUT {
            Ok(MAX_LEASE_TIMEOUT)
        } else {
            Ok(millis)
        },
        _ => Err("timeout_ms must be a positive integer"@),
    }
}

/// How long a request may take, or why what it says of that is refused.
pub fn read_timeout(field: &JsonItem) -> (timeout_ms: Result<u64, String>)
    ensures
        match timeout_ms {
            Ok(t) => timeout_in(field@) == Ok::<u64, Seq<char>>(t),
            Err(e) => timeout_in(field@) == Err::<u64, Seq<char>>(e@),
        },
{
    match field {
        JsonItem::Missing => Ok(DEFAULT_LEASE_TIMEOUT),
        JsonItem::Count(millis) => {
            if *millis == 0 {
                Err(owned("timeout_ms must be a positive integer"))
            } else if *millis > MAX_LEASE_TIMEOUT {
                Ok(MAX_LEASE_TIMEOUT)
            } else {
                Ok(*millis)
            }
        },
        _ => Err(owned("timeout_ms must be a positive integer")),
    }
}

/// How urgent a request says it is, or why what it says of that is refused.
pub open spec fn priority_in(field: Option<Seq<char>>) -> Result<ModemPriority, Seq<char>> {
    match field {
        None => Ok(ModemPriority::Normal),
        Some(text) => if text == "normal"@ {
            Ok(ModemPriority::Normal)
        } else if text == "aka"@ {
            Ok(ModemPriority::Aka)
        } else {
            Err("unknown priority "@ + quoted(text))
        },
    }
}

/// How urgent a request says it is, or why what it says of that is refused.
pub fn read_priority(field: &Option<String>) -> (priority: Result<ModemPriority, String>)
    ensures
        match priority {
            Ok(p) => priority_in(opt_text(*field)) == Ok::<ModemPriority, Seq<char>>(p),
            Err(e) => priority_in(opt_text(*field)) == Err::<ModemPriority, Seq<char>>(e@),
        },
{
    match field {
        None => Ok(ModemPriority::Normal),
        Some(text) => {
            if same_text(text.as_str(), "normal") {
                Ok(ModemPriority::Normal)
            } else if same_text(text.as_str(), "aka") {
                Ok(ModemPriority::Aka)
            } else {
                let mut reason: String = owned("unknown priority ");
                reason.append(quoted_text(text.as_str()).as_str());
                Err(reason)
            }
        },
    }
}

/// The octets of a field in base sixteen, or why they are refused.
pub open spec fn octets_field(field: Option<Seq<char>>, name: Seq<char>, expected: nat) -> Result<
    Seq<u8>,
    Seq<char>,
> {
    match field {
        None => Err("authenticate needs "@ + name + " as a hex string"@),
        Some(text) => match hex_octets(text) {
            None => Err(name + " is not hex"@),
            Some(bytes) => if bytes.len() != expected {
                Err(
                    name + " must be "@ + decimal(expected) + " bytes, got "@ + decimal(
                        bytes.len(),
                    ),
                )
            } else {
                Ok(bytes)
            },
        },
    }
}

/// The octets of a field in base sixteen, or why they are refused.
pub fn hex_field(field: &Option<String>, name: &str, expected: usize) -> (octets: Result<
    Vec<u8>,
    String,
>)
    ensures
        match octets {
            Ok(bytes) => octets_field(opt_text(*field), name@, expected as nat) == Ok::<
                Seq<u8>,
                Seq<char>,
            >(bytes@),
            Err(e) => octets_field(opt_text(*field), name@, expected as nat) == Err::<
                Seq<u8>,
                Seq<char>,
            >(e@),
        },
{
    let text: &String = match field {
        Some(text) => text,
        None => {
            let mut reason: String = owned("authenticate needs ");
            reason.append(name);
            reason.append(" as a hex string");
            return Err(reason);
        },
    };
    let bytes: Vec<u8> = match decode_hex(text.as_str()) {
        Some(bytes) => bytes,
        None => {
            let mut reason: String = owned(name);
            reason.append(" is not hex");
            return Err(reason);
        },
    };
    if bytes.len() != expected {
        let mut reason: String = owned(name);
        reason.append(" must be ");
        push_decimal(&mut reason, expected as u64);
        reason.append(" bytes, got ");
        push_decimal(&mut reason, bytes.len() as u64);
        return Err(reason);
    }
    Ok(bytes)
}

/// A request to run a command, or why it is refused.
pub open spec fn execute_in(fields: FieldsModel) -> Result<RequestModel, Seq<char>> {
    match fields.command {
        None => Err("execute_at needs a command"@),
        Some(command) => match timeout_in(fields.timeout_ms) {
            Err(e) => Err(e),
            Ok(timeout_ms) => match priority_in(fields.priority) {
                Err(e) => Err(e),
                Ok(priority) => Ok(
                    RequestModel::ExecuteAt {
                        imei: imei_in(fields.imei),
                        command,
                        timeout_ms,
                        priority,
                    },
                ),
            },
        },
    }
}

/// A request to authenticate, or why it is refused.
pub open spec fn authenticate_in(fields: FieldsModel) -> Result<RequestModel, Seq<char>> {
    match octets_field(fields.rand, "rand"@, RAND_BYTES as nat) {
        Err(e) => Err(e),
        Ok(rand) => match octets_field(fields.autn, "autn"@, AUTN_BYTES as nat) {
            Err(e) => Err(e),
            Ok(autn) => Ok(
                RequestModel::Authenticate { imei: imei_in(fields.imei), rand, autn },
            ),
        },
    }
}

/// What the fields of a request line ask for, or why it is refused.
pub open spec fn request_of(fields: FieldsModel) -> Result<RequestModel, Seq<char>> {
    match fields.fault {
        Some(reason) => Err("not JSON: "@ + reason),
        None => match fields.op {
            None => Err("missing op"@),
            Some(op) => if op == "execute_at"@ {
                execute_in(fields)
            } else if op == "authenticate"@ {
                authenticate_in(fields)
            } else {
                Err("unknown op "@ + quoted(op))
            },
        },
    }
}

/// What a request line holds.
pub open spec fn fields_in(line: Seq<char>) -> FieldsModel {
    let request = encode_utf8(line);
    FieldsModel {
        fault: json_fault(request),
        op: json_text(request, "/op"@),
        imei: json_text(request, "/imei"@),
        command: json_text(request, "/command"@),
        timeout_ms: json_at(request, "/timeout_ms"@),
        priority: json_text(request, "/priority"@),
        rand: json_text(request, "/rand"@),
        autn: json_text(request, "/autn"@),
    }
}

/// What a request line asks for, or why it is refused.
pub open spec fn request_in(line: Seq<char>) -> Result<RequestModel, Seq<char>> {
    request_of(fields_in(line))
}

fn read_execute(fields: &LeaseFields) -> (parsed: Result<LeaseRequest, String>)
    ensures
        match parsed {
            Ok(r) => execute_in(fields@) == Ok::<RequestModel, Seq<char>>(r@),
            Err(e) => execute_in(fields@) == Err::<RequestModel, Seq<char>>(e@),
        },
{
    let command: String = match &fields.command {
        Some(command) => owned(command.as_str()),
        None => return Err(owned("execute_at needs a command")),
    };
    let timeout_ms: u64 = match read_timeout(&fields.timeout_ms) {
        Ok(timeout_ms) => timeout_ms,
        Err(e) => return Err(e),
    };
    let priority: ModemPriority = match read_priority(&fields.priority) {
        Ok(priority) => priority,
        Err(e) => return Err(e),
    };
    Ok(LeaseRequest::ExecuteAt { imei: read_imei(&fields.imei), command, timeout_ms, priority })
}

fn read_authenticate(fields: &LeaseFields) -> (parsed: Result<LeaseRequest, String>)
    ensures
        match parsed {
            Ok(r) => authenticate_in(fields@) == Ok::<RequestModel, Seq<char>>(r@),
            Err(e) => authenticate_in(fields@) == Err::<RequestModel, Seq<char>>(e@),
        },
{
    let rand: Vec<u8> = match hex_field(&fields.rand, "rand", RAND_BYTES) {
        Ok(rand) => rand,
        Err(e) => return Err(e),
    };
    let autn: Vec<u8> = match hex_field(&fields.autn, "autn", AUTN_BYTES) {
        Ok(autn) => autn,
        Err(e) => return Err(e),
    };
    Ok(LeaseRequest::Authenticate { imei: read_imei(&fields.imei), rand, autn })
}

/// What the fields of a request line ask for, or why it is refused.
pub fn parse_lease_fields(fields: &LeaseFields) -> (parsed: Result<LeaseRequest, String>)
    ensures
        match parsed {
            Ok(r) => request_of(fields@) == Ok::<RequestModel, Seq<char>>(r@),
            Err(e) => request_of(fields@) == Err::<RequestModel, Seq<char>>(e@),
        },
{
    if let Some(reason) = &fields.fault {
        let mut text: String = owned("not JSON: ");
        text.append(reason.as_str());
        return Err(text);
    }
    match &fields.op {
        None => Err(owned("missing op")),
        Some(op) => {
            if same_text(op.as_str(), "execute_at") {
                read_execute(fields)
            } else if same_text(op.as_str(), "authenticate") {
                read_authenticate(fields)
            } else {
                let mut text: String = owned("unknown op ");
                text.append(quoted_text(op.as_str()).as_str());
                Err(text)
            }
        },
    }
}

/// What a request line asks for, or why it is refused.
pub fn read_lease_request(line: &str) -> (parsed: Result<LeaseRequest, String>)
    ensures
        match parsed {
            Ok(r) => request_in(line@) == Ok::<RequestModel, Seq<char>>(r@),
            Err(e) => request_in(line@) == Err::<RequestModel, Seq<char>>(e@),
        },
{
    let request: &[u8] = line.as_bytes();
    let fields = LeaseFields {
        fault: find_json_fault(request),
        op: find_json_text(request, "/op"),
        imei: find_json_text(request, "/imei"),
        command: find_json_text(request, "/command"),
        timeout_ms: json_item(request, "/timeout_ms"),
        priority: find_json_text(request, "/priority"),
        rand: find_json_text(request, "/rand"),
        autn: find_json_text(request, "/autn"),
    };
    proof {
        assert(fields@ =~= fields_in(line@));
    }
    parse_lease_fields(&fields)
}

// ---------------------------------------------------------------------------
// Replies
// ---------------------------------------------------------------------------

/// A refusal, as a reply.
pub open spec fn failure_reply(code: Seq<char>, message: Seq<char>) -> Seq<char> {
    "{\"error\":"@ + json_string(code) + ",\"message\":"@ + json_string(message)
        + ",\"ok\":false}"@
}

/// A refusal, as a reply.
pub fn failure_json(code: &str, message: &str) -> (reply: String)
    ensures
        reply@ == failure_reply(code@, message@),
{
    let mut reply: String = owned("{\"error\":");
    reply.append(json_string_of(code).as_str());
    reply.append(",\"message\":");
    reply.append(json_string_of(message).as_str());
    reply.append(",\"ok\":false}");
    reply
}

/// Texts, written as a JSON list without its brackets.
pub open spec fn json_list(list: Seq<Seq<char>>) -> Seq<char>
    decreases list.len(),
{
    if list.len() == 0 {
        Seq::empty()
    } else if list.len() == 1 {
        json_string(list[0])
    } else {
        json_list(list.drop_last()) + ","@ + json_string(list.last())
    }
}

fn push_json_list(out: &mut String, list: &Vec<String>)
    ensures
        final(out)@ == old(out)@ + json_list(texts(list@)),
{
    let ghost all = texts(list@);
    let mut i: usize = 0;
    proof {
        assert(all.take(0) =~= Seq::empty());
        assert(out@ =~= old(out)@ + json_list(all.take(0)));
    }
    while i < list.len()
        invariant
            i <= list@.len(),
            all == texts(list@),
            out@ == old(out)@ + json_list(all.take(i as int)),
        decreases list@.len() - i,
    {
        if i > 0 {
            out.append(",");
        }
        out.append(json_string_of(list[i].as_str()).as_str());
        proof {
            assert(all.take(i + 1).drop_last() =~= all.take(i as int));
            assert(all.take(i + 1).last() == list@[i as int]@);
            assert(out@ =~= old(out)@ + json_list(all.take(i + 1)));
        }
        i = i + 1;
    }
    proof {
        assert(all.take(i as int) =~= all);
    }
}

/// A flag, as JSON writes it.
pub open spec fn json_flag(flag: bool) -> Seq<char> {
    if flag {
        "true"@
    } else {
        "false"@
    }
}

/// An exchange, as a reply.
pub open spec fn exchange_reply(exchange: ExchangeModel) -> Seq<char> {
    "{\"elapsed_ms\":"@ + decimal(exchange.elapsed_ms as nat) + ",\"lines\":["@ + json_list(
        exchange.lines,
    ) + "],\"ok\":true,\"op\":\"execute_at\",\"response\":"@ + json_string(exchange.whole())
        + ",\"succeeded\":"@ + json_flag(ended_ok(exchange.terminator)) + ",\"terminator\":"@
        + json_string(exchange.terminator) + "}"@
}

fn exchange_json(exchange: &AtExchange) -> (reply: String)
    ensures
        reply@ == exchange_reply(exchange@),
{
    let mut reply: String = owned("{\"elapsed_ms\":");
    push_decimal(&mut reply, exchange.elapsed_ms);
    reply.append(",\"lines\":[");
    push_json_list(&mut reply, &exchange.lines);
    reply.append("],\"ok\":true,\"op\":\"execute_at\",\"response\":");
    reply.append(json_string_of(exchange.transcript().as_str()).as_str());
    reply.append(",\"succeeded\":");
    if exchange.succeeded() {
        reply.append("true");
    } else {
        reply.append("false");
    }
    reply.append(",\"terminator\":");
    reply.append(json_string_of(exchange.terminator.as_str()).as_str());
    reply.append("}");
    proof {
        assert(reply@ =~= exchange_reply(exchange@));
    }
    reply
}

/// What is the same in every answer to an authentication.
pub open spec fn outcome_head(outcome: OutcomeModel) -> Seq<char> {
    "\"ok\":true,\"op\":\"authenticate\",\"outcome\":"@ + json_string(outcome.name()@)
}

/// What the card said, as a reply.
pub open spec fn outcome_reply(outcome: OutcomeModel) -> Seq<char> {
    match outcome {
        OutcomeModel::Success { res, ck, ik, kc } => "{\"ck\":"@ + json_string(hex_text_upper(ck))
            + ",\"ik\":"@ + json_string(hex_text_upper(ik)) + (match kc {
            Some(kc) => ",\"kc\":"@ + json_string(hex_text_upper(kc)),
            None => Seq::empty(),
        }) + ","@ + outcome_head(outcome) + ",\"res\":"@ + json_string(hex_text_upper(res)) + "}"@,
        OutcomeModel::SyncFailure { auts } => "{\"auts\":"@ + json_string(hex_text_upper(auts))
            + ","@ + outcome_head(outcome) + "}"@,
        OutcomeModel::AuthenticationFailure { sw1, sw2, detail } => "{\"detail\":"@ + json_string(
            detail@,
        ) + ","@ + outcome_head(outcome) + ",\"sw\":"@ + json_string(
            hex_pair_upper(sw1) + hex_pair_upper(sw2),
        ) + "}"@,
    }
}

fn push_octets(reply: &mut String, bytes: &[u8])
    ensures
        final(reply)@ == old(reply)@ + json_string(hex_text_upper(bytes@)),
{
    reply.append(json_string_of(hex_upper(bytes).as_str()).as_str());
}

fn push_head(reply: &mut String, outcome: &AkaOutcome)
    ensures
        final(reply)@ == old(reply)@ + outcome_head(outcome@),
{
    reply.append("\"ok\":true,\"op\":\"authenticate\",\"outcome\":");
    reply.append(json_string_of(outcome.label()).as_str());
    proof {
        assert(reply@ =~= old(reply)@ + outcome_head(outcome@));
    }
}

/// What the card said, as a reply.
pub fn outcome_json(outcome: &AkaOutcome) -> (reply: String)
    ensures
        reply@ == outcome_reply(outcome@),
{
    let mut reply: String = String::new();
    match outcome {
        AkaOutcome::Success { res, ck, ik, kc } => {
            reply.append("{\"ck\":");
            push_octets(&mut reply, ck);
            reply.append(",\"ik\":");
            push_octets(&mut reply, ik);
            if let Some(kc) = kc {
                reply.append(",\"kc\":");
                push_octets(&mut reply, kc);
            }
            reply.append(",");
            push_head(&mut reply, outcome);
            reply.append(",\"res\":");
            push_octets(&mut reply, res);
            reply.append("}");
        },
        AkaOutcome::SyncFailure { auts } => {
            reply.append("{\"auts\":");
            push_octets(&mut reply, auts);
            reply.append(",");
            push_head(&mut reply, outcome);
            reply.append("}");
        },
        AkaOutcome::AuthenticationFailure { sw1, sw2, detail } => {
            let mut word: String = String::new();
            push_hex_pair_upper(&mut word, *sw1);
            push_hex_pair_upper(&mut word, *sw2);
            proof {
                assert(word@ =~= hex_pair_upper(*sw1) + hex_pair_upper(*sw2));
            }
            reply.append("{\"detail\":");
            reply.append(json_string_of(detail).as_str());
            reply.append(",");
            push_head(&mut reply, outcome);
            reply.append(",\"sw\":");
            reply.append(json_string_of(word.as_str()).as_str());
            reply.append("}");
        },
    }
    proof {
        assert(reply@ =~= outcome_reply(outcome@));
    }
    reply
}

/// What a command came to, as a reply.
pub open spec fn executed_reply(result: Result<ExchangeModel, FailureModel>) -> Seq<char> {
    match result {
        Ok(exchange) => exchange_reply(exchange),
        Err(failure) => failure_reply(failure.code, failure.message),
    }
}

/// What a command came to, as a reply.
pub fn execute_reply(result: &Result<AtExchange, LeaseFailure>) -> (reply: String)
    ensures
        reply@ == executed_reply(exchange_shown(*result)),
{
    match result {
        Ok(exchange) => exchange_json(exchange),
        Err(failure) => failure_json(failure.code.as_str(), failure.message.as_str()),
    }
}

/// What an authentication came to, as a reply.
pub open spec fn authenticated_reply(result: Result<OutcomeModel, FailureModel>) -> Seq<char> {
    match result {
        Ok(outcome) => outcome_reply(outcome),
        Err(failure) => failure_reply(failure.code, failure.message),
    }
}

/// What an authentication came to, as a reply.
pub fn authenticate_reply(result: &Result<AkaOutcome, LeaseFailure>) -> (reply: String)
    ensures
        reply@ == authenticated_reply(outcome_shown(*result)),
{
    match result {
        Ok(outcome) => outcome_json(outcome),
        Err(failure) => failure_json(failure.code.as_str(), failure.message.as_str()),
    }
}

/// What a request line comes to: the reply, and the lease after it. A refused line
/// gets the reason, and the lease is not asked for anything; any other line has the
/// lease asked once, for exactly what the line says, and gets what came of it.
pub open spec fn handled(lease: LeaseModel, line: Seq<char>) -> (Seq<char>, LeaseModel) {
    match request_in(line) {
        Err(reason) => (failure_reply("bad_request"@, reason), lease),
        Ok(request) => served(lease, request),
    }
}

/// What a request comes to: the reply, and the lease after it.
pub open spec fn served(lease: LeaseModel, request: RequestModel) -> (Seq<char>, LeaseModel) {
    match request {
        RequestModel::ExecuteAt { imei, command, timeout_ms, priority } => {
            let (result, after) = executed(lease, imei, command, timeout_ms, priority);
            (executed_reply(result), after)
        },
        RequestModel::Authenticate { imei, rand, autn } => {
            let (result, after) = authenticated(lease, imei, rand, autn);
            (authenticated_reply(result), after)
        },
    }
}

fn borrowed(text: &Option<String>) -> (view: Option<&str>)
    ensures
        opt_str(view) == opt_text(*text),
{
    match text {
        Some(t) => Some(t.as_str()),
        None => None,
    }
}

/// Have a lease do what a request asks for, and produce the response line.
pub fn serve_request<L: AtLease>(lease: &mut L, request: &LeaseRequest) -> (reply: String)
    ensures
        (reply@, final(lease).lease()) == served(old(lease).lease(), request@),
{
    match request {
        LeaseRequest::ExecuteAt { imei, command, timeout_ms, priority } => {
            let result: Result<AtExchange, LeaseFailure> = lease.execute(
                borrowed(imei),
                command.as_str(),
                *timeout_ms,
                *priority,
            );
            execute_reply(&result)
        },
        LeaseRequest::Authenticate { imei, rand, autn } => {
            let result: Result<AkaOutcome, LeaseFailure> = lease.authenticate(
                borrowed(imei),
                rand,
                autn,
            );
            authenticate_reply(&result)
        },
    }
}

/// Handle one request line and produce the response line.
///
/// Split out from the socket so the protocol is testable without one, which
/// also means a change to the wire format cannot be verified only against
/// itself.
pub fn handle_lease_request<L: AtLease>(lease: &mut L, line: &str) -> (reply: String)
    ensures
        (reply@, final(lease).lease()) == handled(old(lease).lease(), line@),
{
    match read_lease_request(line) {
        Err(reason) => failure_json("bad_request", reason.as_str()),
        Ok(request) => serve_request(lease, &request),
    }
}

/// What a client over the limit is told, if the number of clients is at it.
pub fn refuse_client(clients: usize) -> (refusal: Option<String>)
    ensures
        match refusal {
            Some(reply) => clients >= MAX_LEASE_CLIENTS && reply@ == failure_reply(
                "too_many_clients"@,
                "AT lease is at its connection limit"@,
            ),
            None => clients < MAX_LEASE_CLIENTS,
        },
{
    if clients >= MAX_LEASE_CLIENTS {
        Some(failure_json("too_many_clients", "AT lease is at its connection limit"))
    } else {
        None
    }
}

// ---------------------------------------------------------------------------
// Laws
// ---------------------------------------------------------------------------

/// A line that is refused leaves the module untouched: the lease is as it was, and
/// was asked for nothing.
pub proof fn law_a_refused_line_touches_nothing(lease: LeaseModel, line: Seq<char>)
    requires
        request_in(line) is Err,
    ensures
        handled(lease, line).1 == lease,
        handled(lease, line).0 == failure_reply("bad_request"@, request_in(line)->Err_0),
{
}

/// A line that is accepted has the lease asked once, for exactly what the line says,
/// and the reply is what came of it.
pub proof fn law_a_request_is_served_once(lease: LeaseModel, line: Seq<char>)
    requires
        request_in(line) is Ok,
    ensures
        handled(lease, line).1.asked == lease.asked.push(request_in(line)->Ok_0),
        handled(lease, line).0 == match request_in(line)->Ok_0 {
            RequestModel::ExecuteAt { .. } => executed_reply((lease.exchanges)(0)),
            RequestModel::Authenticate { .. } => authenticated_reply((lease.outcomes)(0)),
        },
{
}

/// A challenge whose RAND or AUTN is not sixteen octets of hex is refused before the
/// module is touched, whatever else the line says.
pub proof fn law_a_short_challenge_touches_nothing(lease: LeaseModel, line: Seq<char>)
    requires
        fields_in(line).fault is None,
        fields_in(line).op == Some("authenticate"@),
        octets_field(fields_in(line).rand, "rand"@, RAND_BYTES as nat) is Err || octets_field(
            fields_in(line).autn,
            "autn"@,
            AUTN_BYTES as nat,
        ) is Err,
    ensures
        request_in(line) is Err,
        handled(lease, line).1 == lease,
{
    reveal_strlit("authenticate");
    reveal_strlit("execute_at");
    assert("authenticate"@[0] != "execute_at"@[0]);
}

/// A challenge that reaches the module has a RAND and an AUTN of the right
/// size.
pub proof fn law_only_whole_challenges_are_leased(line: Seq<char>)
    requires
        request_in(line) is Ok,
    ensures
        request_in(line)->Ok_0 matches RequestModel::Authenticate { rand, autn, .. } ==> rand.len()
            == RAND_BYTES && autn.len() == AUTN_BYTES,
{
}

/// No request pins the module: whatever it asks for, a command gets some time,
/// and no more than the limit.
pub proof fn law_a_leased_command_has_a_limit(line: Seq<char>)
    requires
        request_in(line) is Ok,
    ensures
        request_in(line)->Ok_0 matches RequestModel::ExecuteAt { timeout_ms, .. } ==> 0
            < timeout_ms <= MAX_LEASE_TIMEOUT,
{
}

} // verus!
