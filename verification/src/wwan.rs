//! Turning an established packet session into a network interface.
//!
//! QMI starting a session gets an address from the network; it does not put
//! that address on anything. The `wwan` device stays `DOWN` with no address
//! until somebody configures it.
//!
//! # Which interface belongs to which modem
//!
//! A `cdc-wdm` control node and its `wwan` data interface are two functions of
//! one USB interface, so sysfs already relates them:
//!
//! ```text
//! /sys/class/usbmisc/cdc-wdm1/device/net/wwan1
//! ```
//!
//! Walking that is the only mapping that survives re-enumeration. Pairing them
//! by ordinal is the tempting shortcut and it is wrong: the numbers are assigned
//! independently, and where modules come and go they drift apart.
//!
//! # Why the default route does not go in the main table
//!
//! A modem's default route must never land in the main routing table: it would
//! move the box's own traffic onto a modem, and the session configuring it with
//! it. So each interface gets its own table and a rule that sends traffic
//! sourced from its address there. Four modules then have four working defaults
//! at once.
//!
//! # `raw_ip`
//!
//! `qmi_wwan` defaults to an Ethernet framing the modules do not speak. The
//! driver exposes a `raw_ip` toggle, and it can only be written while the
//! interface is down.

use crate::at::text_before;
use crate::text::{
    all_digits, below, chars_of, decimal, decimal_text, digit, is_digit, join_path, number_in,
    opt_str, opt_text, owned, parse_number, push_decimal, texts,
};
use vstd::prelude::*;

verus! {

/// Where the data plane's shell-outs are described rather than run.
///
/// Built as data so the order can be stated. The order is not incidental: the
/// address has to be flushed before the mode changes, the mode has to change
/// while the link is down, and the route cannot be added before the address it
/// goes out of exists.
#[derive(Clone, Debug, PartialEq, Eq)]
pub struct Step {
    pub program: &'static str,
    pub args: Vec<String>,
    /// Whether a failure is expected and may be ignored.
    ///
    /// The deletes are: removing a rule that is not there, or flushing a table
    /// that is already empty, both fail and both mean the state is already what
    /// was wanted.
    pub tolerant: bool,
}

/// A step, by what its texts say.
#[verifier::ext_equal]
pub struct StepModel {
    pub program: &'static str,
    pub args: Seq<Seq<char>>,
    pub tolerant: bool,
}

impl View for Step {
    type V = StepModel;

    open spec fn view(&self) -> StepModel {
        StepModel {
            program: self.program,
            args: texts(self.args@),
            tolerant: self.tolerant,
        }
    }
}

/// What `bring_up` needs, decoupled from the QMI parser's own type.
#[derive(Clone, Debug, PartialEq, Eq)]
pub struct Ipv4View {
    pub address: String,
    pub prefix: u8,
    pub gateway: Option<String>,
    pub mtu: Option<u32>,
}

/// Settings, by what their texts say.
#[verifier::ext_equal]
pub struct SettingsModel {
    pub address: Seq<char>,
    pub prefix: u8,
    pub gateway: Option<Seq<char>>,
    pub mtu: Option<u32>,
}

impl View for Ipv4View {
    type V = SettingsModel;

    open spec fn view(&self) -> SettingsModel {
        SettingsModel {
            address: self.address@,
            prefix: self.prefix,
            gateway: opt_text(self.gateway),
            mtu: self.mtu,
        }
    }
}

/// The models of steps.
pub open spec fn step_models(steps: Seq<Step>) -> Seq<StepModel> {
    steps.map_values(|step: Step| step@)
}

/// A run of `ip`.
pub open spec fn ip(args: Seq<Seq<char>>) -> StepModel {
    StepModel { program: "ip", args, tolerant: false }
}

/// A run of `ip` whose failure means "already so".
pub open spec fn optional(args: Seq<Seq<char>>) -> StepModel {
    StepModel { program: "ip", args, tolerant: true }
}

fn owned_args(args: &[&str]) -> (list: Vec<String>)
    ensures
        texts(list@) == words_of(args@),
{
    let mut list: Vec<String> = Vec::new();
    let mut i: usize = 0;
    while i < args.len()
        invariant
            i <= args@.len(),
            list@.len() == i,
            forall|j: int| 0 <= j < i ==> (#[trigger] list@[j])@ == args@[j]@,
        decreases args@.len() - i,
    {
        list.push(owned(args[i]));
        i = i + 1;
    }
    proof {
        assert(texts(list@) =~= words_of(args@));
    }
    list
}

/// The characters of each argument.
pub open spec fn words_of(args: Seq<&str>) -> Seq<Seq<char>> {
    args.map_values(|arg: &str| arg@)
}

impl Step {
    fn ip(args: &[&str]) -> (step: Self)
        ensures
            step@ == ip(words_of(args@)),
    {
        Step { program: "ip", args: owned_args(args), tolerant: false }
    }

    /// A step whose failure means "already so".
    fn optional(args: &[&str]) -> (step: Self)
        ensures
            step@ == optional(words_of(args@)),
    {
        Step { program: "ip", args: owned_args(args), tolerant: true }
    }
}

fn push_step(steps: &mut Vec<Step>, step: Step)
    ensures
        step_models(final(steps)@) == step_models(old(steps)@).push(step@),
{
    let ghost shown = step@;
    steps.push(step);
    proof {
        assert(step_models(steps@) =~= step_models(old(steps)@).push(shown));
    }
}

/// The digits at the end of a name.
pub open spec fn trailing_digits(name: Seq<char>) -> Seq<char>
    decreases name.len(),
{
    if name.len() > 0 && is_digit(name.last()) {
        trailing_digits(name.drop_last()).push(name.last())
    } else {
        Seq::empty()
    }
}

/// The routing table of an interface: 100, and the number at the end of its
/// name.
pub open spec fn table_of(interface: Seq<char>) -> nat {
    100 + (match number_in(trailing_digits(interface), u32::MAX as nat) {
        Some(n) => n,
        None => 0,
    })
}

proof fn lemma_trailing(name: Seq<char>, from: int)
    requires
        0 <= from <= name.len(),
        forall|i: int| from <= i < name.len() ==> is_digit(#[trigger] name[i]),
        from > 0 ==> !is_digit(name[from - 1]),
    ensures
        trailing_digits(name) == name.skip(from),
    decreases name.len() - from,
{
    if from < name.len() {
        assert(is_digit(name[name.len() - 1]));
        lemma_trailing(name.drop_last(), from);
        assert(trailing_digits(name) =~= name.skip(from));
    } else {
        assert(name.skip(from) =~= Seq::empty());
    }
}

/// The routing table this interface's default route lives in.
///
/// Derived from the trailing digits of the name so the tables are legible in
/// `ip rule` output — `wwan0` is 100, `wwan1` is 101 — and stable for as long as
/// the name is. A name with no number falls back to the base, which collides
/// only among unnumbered interfaces, and this driver names them all.
pub fn table_for(interface: &str) -> (table: u32)
    requires
        table_of(interface@) <= u32::MAX,
    ensures
        table == table_of(interface@),
{
    let chars: Vec<char> = chars_of(interface);
    let total: usize = chars.len();
    let mut from: usize = total;
    while from > 0 && digit(chars[from - 1])
        invariant
            from <= total,
            total == chars@.len(),
            forall|i: int| from <= i < total ==> is_digit(#[trigger] chars@[i]),
        decreases from,
    {
        from = from - 1;
    }
    proof {
        lemma_trailing(chars@, from as int);
        assert(chars@.subrange(from as int, total as int) =~= chars@.skip(from as int));
    }
    match parse_number(&chars[from..total], u32::MAX as u64) {
        Some(number) => 100 + number as u32,
        None => 100,
    }
}

/// Path of the driver's framing toggle for an interface. `root` is the sysfs
/// mount.
pub fn raw_ip_path(root: &str, interface: &str) -> (path: String)
    ensures
        path@ == below(below(below(root@, "class/net"@), interface@), "qmi/raw_ip"@),
{
    join_path(join_path(join_path(root, "class/net").as_str(), interface).as_str(), "qmi/raw_ip")
}

/// Where sysfs lists the data interfaces of a control node. `root` is the sysfs
/// mount.
pub fn data_interface_dir(root: &str, node: &str) -> (path: String)
    ensures
        path@ == below(below(below(root@, "class/usbmisc"@), node@), "device/net"@),
{
    join_path(join_path(join_path(root, "class/usbmisc").as_str(), node).as_str(), "device/net")
}

fn stands_before(left: &str, right: &str) -> (yes: bool)
    ensures
        yes == text_before(left@, right@),
{
    let l: Vec<char> = chars_of(left);
    let r: Vec<char> = chars_of(right);
    crate::at::chars_before(&l, &r)
}

/// The `wwan` interface among those that share a USB interface with a control
/// node: the first by name, so a module that somehow exposes two data
/// interfaces produces the same answer every time.
pub fn interface_for(names: &Vec<String>) -> (interface: Option<String>)
    ensures
        match interface {
            Some(name) => {
                &&& texts(names@).contains(name@)
                &&& forall|i: int|
                    0 <= i < names@.len() ==> !text_before(#[trigger] texts(names@)[i], name@)
            },
            None => names@.len() == 0,
        },
{
    if names.len() == 0 {
        return None;
    }
    let ghost all = texts(names@);
    let mut best: usize = 0;
    let mut i: usize = 1;
    proof {
        assert(all[0] == names@[0]@);
        crate::at::lemma_text_order(all[0], all[0], all[0]);
    }
    while i < names.len()
        invariant
            1 <= i <= names@.len(),
            best < i,
            all == texts(names@),
            forall|j: int| 0 <= j < i ==> !text_before(#[trigger] all[j], all[best as int]),
        decreases names@.len() - i,
    {
        proof {
            assert(all[i as int] == names@[i as int]@);
            assert(all[best as int] == names@[best as int]@);
        }
        if stands_before(names[i].as_str(), names[best].as_str()) {
            proof {
                assert forall|j: int| 0 <= j < i + 1 implies !text_before(
                    #[trigger] all[j],
                    all[i as int],
                ) by {
                    crate::at::lemma_text_order(all[j], all[i as int], all[best as int]);
                }
            }
            best = i;
        }
        i = i + 1;
    }
    proof {
        assert(all[best as int] == names@[best as int]@);
    }
    Some(owned(names[best].as_str()))
}

/// The steps that put an address on an interface.
pub open spec fn address_steps(interface: Seq<char>, settings: SettingsModel) -> Seq<StepModel> {
    seq![
        ip(seq!["link"@, "set"@, interface, "down"@]),
        optional(seq!["addr"@, "flush"@, "dev"@, interface]),
        ip(seq!["link"@, "set"@, interface, "up"@]),
        ip(
            seq![
                "addr"@,
                "add"@,
                settings.address + "/"@ + decimal(settings.prefix as nat),
                "dev"@,
                interface,
            ],
        ),
    ]
}

/// The step that sets how large a packet may be, where the network says.
pub open spec fn mtu_steps(interface: Seq<char>, mtu: Option<u32>) -> Seq<StepModel> {
    match mtu {
        None => Seq::empty(),
        Some(mtu) => seq![
            ip(seq!["link"@, "set"@, interface, "mtu"@, decimal(mtu as nat)]),
        ],
    }
}

/// The steps that route through an interface, in its own table, where there is
/// a gateway.
pub open spec fn route_steps(interface: Seq<char>, settings: SettingsModel) -> Seq<StepModel> {
    let table = decimal(table_of(interface));
    match settings.gateway {
        None => Seq::empty(),
        Some(gateway) => seq![
            ip(
                seq![
                    "route"@,
                    "add"@,
                    "default"@,
                    "via"@,
                    gateway,
                    "dev"@,
                    interface,
                    "onlink"@,
                    "table"@,
                    table,
                ],
            ),
            optional(seq!["rule"@, "del"@, "from"@, settings.address, "lookup"@, table]),
            ip(seq!["rule"@, "add"@, "from"@, settings.address, "lookup"@, table]),
        ],
    }
}

fn add_route(steps: &mut Vec<Step>, interface: &str, settings: &Ipv4View)
    requires
        settings@.gateway is Some ==> table_of(interface@) <= u32::MAX,
    ensures
        step_models(final(steps)@) == step_models(old(steps)@) + route_steps(
            interface@,
            settings@,
        ),
{
    let ghost before = step_models(steps@);
    match &settings.gateway {
        None => {
            proof {
                assert(before + Seq::<StepModel>::empty() =~= before);
            }
        },
        Some(gateway) => {
            let number: u32 = table_for(interface);
            let table: String = decimal_text(number as u64);
            let address: &str = settings.address.as_str();
            let via: [&str; 10] = [
                "route",
                "add",
                "default",
                "via",
                gateway.as_str(),
                "dev",
                interface,
                "onlink",
                "table",
                table.as_str(),
            ];
            let del: [&str; 6] = ["rule", "del", "from", address, "lookup", table.as_str()];
            let add_rule: [&str; 6] = ["rule", "add", "from", address, "lookup", table.as_str()];
            // Onlink: the gateway a mobile network hands back is routinely
            // outside the prefix it also hands back, and without this `ip`
            // refuses the route as unreachable.
            push_step(steps, Step::ip(&via));
            // Deleted first so a re-run does not stack duplicate rules.
            push_step(steps, Step::optional(&del));
            push_step(steps, Step::ip(&add_rule));
            proof {
                let wanted = route_steps(interface@, settings@);
                assert(words_of(via@) =~= wanted[0].args);
                assert(words_of(del@) =~= wanted[1].args);
                assert(words_of(add_rule@) =~= wanted[2].args);
                assert(step_models(steps@) =~= before + wanted);
            }
        },
    }
}

/// The steps that take an interface from wherever it is to carrying `settings`.
///
/// Split from running them so the sequence is a value. Down first: `raw_ip`
/// refuses to change on a live interface, and an address left over from a
/// previous session would survive the flush order otherwise.
pub fn bring_up(interface: &str, settings: &Ipv4View) -> (steps: Vec<Step>)
    requires
        settings@.gateway is Some ==> table_of(interface@) <= u32::MAX,
    ensures
        step_models(steps@) == address_steps(interface@, settings@) + mtu_steps(
            interface@,
            settings@.mtu,
        ) + route_steps(interface@, settings@),
{
    let mut steps: Vec<Step> = Vec::new();
    proof {
        assert(step_models(steps@) =~= Seq::empty());
    }
    let mut address: String = owned(settings.address.as_str());
    address.append("/");
    push_decimal(&mut address, settings.prefix as u64);
    let down: [&str; 4] = ["link", "set", interface, "down"];
    let flush: [&str; 4] = ["addr", "flush", "dev", interface];
    let up: [&str; 4] = ["link", "set", interface, "up"];
    let own: [&str; 5] = ["addr", "add", address.as_str(), "dev", interface];
    push_step(&mut steps, Step::ip(&down));
    push_step(&mut steps, Step::optional(&flush));
    push_step(&mut steps, Step::ip(&up));
    push_step(&mut steps, Step::ip(&own));
    proof {
        let wanted = address_steps(interface@, settings@);
        assert(words_of(down@) =~= wanted[0].args);
        assert(words_of(flush@) =~= wanted[1].args);
        assert(words_of(up@) =~= wanted[2].args);
        assert(words_of(own@) =~= wanted[3].args);
        assert(step_models(steps@) =~= wanted);
    }
    let ghost first = step_models(steps@);
    match settings.mtu {
        None => {
            proof {
                assert(first + Seq::<StepModel>::empty() =~= first);
            }
        },
        Some(mtu) => {
            let size: String = decimal_text(mtu as u64);
            let set: [&str; 5] = ["link", "set", interface, "mtu", size.as_str()];
            push_step(&mut steps, Step::ip(&set));
            proof {
                let wanted = mtu_steps(interface@, settings@.mtu);
                assert(words_of(set@) =~= wanted[0].args);
                assert(step_models(steps@) =~= first + wanted);
            }
        },
    }
    add_route(&mut steps, interface, settings);
    steps
}

/// The step that takes back the rule of an address.
pub open spec fn rule_steps(interface: Seq<char>, address: Option<Seq<char>>) -> Seq<StepModel> {
    match address {
        None => Seq::empty(),
        Some(address) => seq![
            optional(
                seq!["rule"@, "del"@, "from"@, address, "lookup"@, decimal(table_of(interface))],
            ),
        ],
    }
}

/// The steps that take an interface down.
pub open spec fn down_steps(interface: Seq<char>) -> Seq<StepModel> {
    seq![
        optional(seq!["route"@, "flush"@, "table"@, decimal(table_of(interface))]),
        ip(seq!["addr"@, "flush"@, "dev"@, interface]),
        ip(seq!["link"@, "set"@, interface, "down"@]),
    ]
}

/// The steps that undo `bring_up`, for a session that has ended.
///
/// The rule goes before the address it matches on: a rule left behind pointing
/// at an empty table black-holes anything that later gets the same address,
/// which is the next session on the same module.
pub fn tear_down(interface: &str, address: Option<&str>) -> (steps: Vec<Step>)
    requires
        table_of(interface@) <= u32::MAX,
    ensures
        step_models(steps@) == rule_steps(interface@, opt_str(address)) + down_steps(interface@),
{
    let number: u32 = table_for(interface);
    let table: String = decimal_text(number as u64);
    let mut steps: Vec<Step> = Vec::new();
    proof {
        assert(step_models(steps@) =~= Seq::empty());
    }
    if let Some(address) = address {
        let del: [&str; 6] = ["rule", "del", "from", address, "lookup", table.as_str()];
        push_step(&mut steps, Step::optional(&del));
        proof {
            let wanted = rule_steps(interface@, Some(address@));
            assert(words_of(del@) =~= wanted[0].args);
            assert(step_models(steps@) =~= wanted);
        }
    }
    let ghost first = step_models(steps@);
    let flush_table: [&str; 4] = ["route", "flush", "table", table.as_str()];
    let flush: [&str; 4] = ["addr", "flush", "dev", interface];
    let down: [&str; 4] = ["link", "set", interface, "down"];
    push_step(&mut steps, Step::optional(&flush_table));
    push_step(&mut steps, Step::ip(&flush));
    push_step(&mut steps, Step::ip(&down));
    proof {
        let wanted = down_steps(interface@);
        assert(words_of(flush_table@) =~= wanted[0].args);
        assert(words_of(flush@) =~= wanted[1].args);
        assert(words_of(down@) =~= wanted[2].args);
        assert(step_models(steps@) =~= first + wanted);
    }
    steps
}

/// A default route never lands in the main table: every step that adds a route
/// names the interface's own table, which is 100 or above, and is on-link.
pub proof fn law_no_default_route_in_the_main_table(
    interface: Seq<char>,
    settings: SettingsModel,
    i: int,
)
    requires
        0 <= i < (address_steps(interface, settings) + mtu_steps(interface, settings.mtu)
            + route_steps(interface, settings)).len(),
        (address_steps(interface, settings) + mtu_steps(interface, settings.mtu) + route_steps(
            interface,
            settings,
        ))[i].args[0] == "route"@,
    ensures
        ({
            let step = (address_steps(interface, settings) + mtu_steps(interface, settings.mtu)
                + route_steps(interface, settings))[i];
            &&& settings.gateway is Some
            &&& step.args[7] == "onlink"@
            &&& step.args[8] == "table"@
            &&& step.args[9] == decimal(table_of(interface))
            &&& table_of(interface) >= 100
        }),
{
    reveal_strlit("route");
    reveal_strlit("link");
    reveal_strlit("addr");
    reveal_strlit("rule");
    assert("route"@.len() != "link"@.len());
    assert("route"@.len() != "addr"@.len());
    assert("route"@.len() != "rule"@.len());
}

/// Interfaces whose names end in different numbers have different tables.
pub proof fn law_each_interface_has_its_own_table(left: Seq<char>, right: Seq<char>)
    requires
        number_in(trailing_digits(left), u32::MAX as nat) is Some,
        number_in(trailing_digits(right), u32::MAX as nat) is Some,
        number_in(trailing_digits(left), u32::MAX as nat) != number_in(
            trailing_digits(right),
            u32::MAX as nat,
        ),
    ensures
        table_of(left) != table_of(right),
{
}

/// The table of an interface is one hundred and the number that its name ends
/// in.
pub proof fn law_a_table_is_numbered_by_its_interface(stem: Seq<char>, number: u32)
    requires
        stem.len() > 0,
        !is_digit(stem.last()),
    ensures
        table_of(stem + decimal(number as nat)) == 100 + number,
        table_of(stem) == 100,
{
    let digits = decimal(number as nat);
    crate::laws::spelling::law_a_number_reads_back(number as nat, u32::MAX as nat);
    lemma_ends_in(stem, digits);
    assert(trailing_digits(stem) =~= Seq::<char>::empty());
}

proof fn lemma_ends_in(stem: Seq<char>, digits: Seq<char>)
    requires
        stem.len() > 0,
        !is_digit(stem.last()),
        all_digits(digits),
    ensures
        trailing_digits(stem + digits) == digits,
    decreases digits.len(),
{
    let name = stem + digits;
    if digits.len() == 0 {
        assert(name =~= stem);
    } else {
        let front = digits.drop_last();
        assert(is_digit(digits[digits.len() - 1]));
        assert forall|i: int| 0 <= i < front.len() implies is_digit(#[trigger] front[i]) by {
            assert(is_digit(digits[i]));
        }
        lemma_ends_in(stem, front);
        assert(name.drop_last() =~= stem + front);
        assert(front.push(digits.last()) =~= digits);
    }
}

} // verus!
