//! What is done to the machine that a module is plugged into, and what is read
//! from it.

use crate::cdc_wdm::{device_fault, gone, is_answer, is_report, poll_fault, rest_of};
use crate::laws::link::{answering, asking};
use crate::session::SessionFault;
use crate::text::{after_prefix, decimal, lemma_first_index_is, three_digits, trimmed};
use crate::usb::{
    device_above, identity_of, interfaces_in, looked, node_of, reauthorized, IdentityModel,
    MoveModel, UsbFault, UsbRecovery,
};
use crate::wwan::{
    address_steps, down_steps, mtu_steps, route_steps, rule_steps, table_of, SettingsModel,
    StepModel,
};
use vstd::prelude::*;

verus! {

/// A run of `ip` that has to succeed.
pub open spec fn has_to(step: StepModel, words: Seq<Seq<char>>) -> bool {
    step.program == "ip" && step.args == words && !step.tolerant
}

/// A run of `ip` that may fail.
pub open spec fn may(step: StepModel, words: Seq<Seq<char>>) -> bool {
    step.program == "ip" && step.args == words && step.tolerant
}

/// Everything that brings an interface up, in order.
pub open spec fn bringing_up(interface: Seq<char>, settings: SettingsModel) -> Seq<StepModel> {
    address_steps(interface, settings) + mtu_steps(interface, settings.mtu) + route_steps(
        interface,
        settings,
    )
}

/// Everything that takes an interface down, in order.
pub open spec fn taking_down(interface: Seq<char>, address: Option<Seq<char>>) -> Seq<StepModel> {
    rule_steps(interface, address) + down_steps(interface)
}

/// An interface is taken down, emptied, put up and given its address, in that
/// order; then its packet size, where one is known; then, where there is a
/// gateway, the route and the rule of its own table.
pub proof fn law_an_interface_is_brought_up_in_order(
    interface: Seq<char>,
    settings: SettingsModel,
)
    ensures
        ({
            let steps = bringing_up(interface, settings);
            let table = decimal(table_of(interface));
            let n = if settings.mtu is Some {
                5int
            } else {
                4
            };
            &&& steps.len() == n + if settings.gateway is Some {
                3int
            } else {
                0
            }
            &&& has_to(steps[0], seq!["link"@, "set"@, interface, "down"@])
            &&& may(steps[1], seq!["addr"@, "flush"@, "dev"@, interface])
            &&& has_to(steps[2], seq!["link"@, "set"@, interface, "up"@])
            &&& has_to(
                steps[3],
                seq![
                    "addr"@,
                    "add"@,
                    settings.address + "/"@ + decimal(settings.prefix as nat),
                    "dev"@,
                    interface,
                ],
            )
            &&& settings.mtu matches Some(mtu) ==> has_to(
                steps[4],
                seq!["link"@, "set"@, interface, "mtu"@, decimal(mtu as nat)],
            )
            &&& settings.gateway matches Some(gateway) ==> {
                &&& has_to(
                    steps[n],
                    seq![
                        "route"@,
                        "add"@,
                        "default"@,
                        "via"@,
                        gateway,
                        "dev"@,
                        interface,
                        "onlink"@,
                        "table"@,
                        table,
                    ],
                )
                &&& may(
                    steps[n + 1],
                    seq!["rule"@, "del"@, "from"@, settings.address, "lookup"@, table],
                )
                &&& has_to(
                    steps[n + 2],
                    seq!["rule"@, "add"@, "from"@, settings.address, "lookup"@, table],
                )
            }
        }),
{
}

/// Taking an interface down undoes bringing it up: the rule that was added is
/// deleted, for the same address and the same table; the table that the route
/// was put in is emptied; the address goes, and the interface last of all.
pub proof fn law_taking_down_undoes_bringing_up(
    interface: Seq<char>,
    settings: SettingsModel,
)
    requires
        settings.gateway is Some,
    ensures
        ({
            let up = bringing_up(interface, settings);
            let down = taking_down(interface, Some(settings.address));
            let added = up.last().args;
            let route = up[up.len() - 3].args;
            &&& down.len() == 4
            &&& added[1] == "add"@ && may(down[0], added.update(1, "del"@))
            &&& may(down[1], seq!["route"@, "flush"@, "table"@, route[9]])
            &&& has_to(down[2], seq!["addr"@, "flush"@, "dev"@, route[6]])
            &&& has_to(down[3], seq!["link"@, "set"@, route[6], "down"@])
            &&& route[6] == interface
        }),
{
    let up = bringing_up(interface, settings);
    let down = taking_down(interface, Some(settings.address));
    assert(down[0].args =~= up.last().args.update(1, "del"@));
}

/// A number below a thousand, in three digits.
pub proof fn law_three_digits_are_padded(n: nat)
    requires
        n < 1000,
    ensures
        three_digits(n).len() == 3,
        three_digits(n)[0] as int == 48 + n / 100,
        three_digits(n)[1] as int == 48 + n / 10 % 10,
        three_digits(n)[2] as int == 48 + n % 10,
{
    reveal_strlit("00");
    reveal_strlit("0");
    reveal_with_fuel(decimal, 4);
}

/// The node of a device is under its bus first and its address second.
pub proof fn law_a_node_is_under_its_bus(bus: u32, address: u32)
    ensures
        node_of(Some(bus), Some(address)) == Some(
            "/dev/bus/usb/"@ + three_digits(bus as nat) + "/"@ + three_digits(address as nat),
        ),
        node_of(None, Some(address)) is None,
        node_of(Some(bus), None) is None,
{
}

/// The device of an interface is what stands before the colon of the last part
/// of a path that has one.
pub proof fn law_an_interface_belongs_to_its_device(
    above: Seq<Seq<char>>,
    device: Seq<char>,
    interface: Seq<char>,
    below: Seq<char>,
)
    requires
        !device.contains(':'),
        !below.contains(':'),
    ensures
        device_above(above.push(device + seq![':'] + interface)) == Some(device),
        device_above(above.push(device + seq![':'] + interface).push(below)) == Some(device),
        device_above(above.push(below)) == device_above(above),
{
    let part = device + seq![':'] + interface;
    assert forall|i: int| 0 <= i < device.len() implies part[i] != ':' by {
        assert(part[i] == device[i]);
        assert(device.contains(device[i]));
    }
    assert(part[device.len() as int] == ':');
    lemma_first_index_is(part, ':', device.len() as int);
    assert(part.take(device.len() as int) =~= device);
    assert forall|i: int| 0 <= i < below.len() implies below[i] != ':' by {
        assert(below.contains(below[i]));
    }
    lemma_first_index_is(below, ':', below.len() as int);
    assert(above.push(part).last() == part);
    assert(above.push(part).push(below).drop_last() =~= above.push(part));
    assert(above.push(below).drop_last() =~= above);
}

/// A frame answers a request exactly where it comes from the same service, to
/// the same client and under the same number.
pub proof fn law_an_answer_is_known_by_its_address(
    service: u8,
    client: u8,
    transaction: u16,
    message: int,
    body: Seq<u8>,
    from: u8,
    to: u8,
    number: u16,
    other: int,
    content: Seq<u8>,
)
    requires
        service != 0,
        from != 0,
    ensures
        is_answer(
            asking(service, client, transaction, message, body),
            answering(from, to, number, other, content),
        ) <==> service == from && client == to && transaction == number,
        !is_report(answering(from, to, number, other, content)),
{
    let request = asking(service, client, transaction, message, body);
    let frame = answering(from, to, number, other, content);
    assert(request[4] == service && request[5] == client);
    assert(request[7] == (transaction % 256) as u8 && request[8] == (transaction / 256) as u8);
    assert(frame[4] == from && frame[5] == to && frame[6] == 0x02);
    assert(frame[7] == (number % 256) as u8 && frame[8] == (number / 256) as u8);
}

/// The first three octets of a frame say how many more there are.
pub proof fn law_a_frame_says_how_long_it_is(
    service: u8,
    client: u8,
    transaction: u16,
    message: int,
    body: Seq<u8>,
)
    requires
        body.len() <= 65523,
    ensures
        ({
            let frame = answering(service, client, transaction, message, body);
            rest_of(frame.take(3)) == Ok::<nat, SessionFault>((frame.len() - 3) as nat)
        }),
{
    let frame = answering(service, client, transaction, message, body);
    assert(frame.take(3)[0] == 0x01);
    assert(frame.take(3)[1] == ((body.len() + 12) % 256) as u8);
    assert(frame.take(3)[2] == ((body.len() + 12) / 256) as u8);
}

/// A device that was let go is looked for until it is back, a quarter of a
/// second apart and for twenty seconds at most.
pub proof fn law_a_device_is_looked_for_until_it_is_back(device: Seq<char>, waited_ms: u64)
    ensures
        looked(device, true, waited_ms) == MoveModel::Done(UsbRecovery::Reauthorized),
        waited_ms < 20_000 ==> looked(device, false, waited_ms) == (MoveModel::Look {
            after_ms: 250,
        }),
        waited_ms >= 20_000 ==> looked(device, false, waited_ms) == MoveModel::Failed(
            UsbFault::DidNotReturn { device, waited_ms: 20_000 },
        ),
{
}

/// Letting a device back in is tried five times, four tenths of a second
/// apart; where it worked the device is looked for at once.
pub proof fn law_a_device_is_let_in_five_times_at_most(
    device: Seq<char>,
    attempt: u32,
    reason: Seq<char>,
)
    ensures
        reauthorized(device, attempt, None) == (MoveModel::Look { after_ms: 0 }),
        attempt < 5 ==> reauthorized(device, attempt, Some(reason)) == (MoveModel::Reauthorize {
            after_ms: 400,
        }),
        attempt >= 5 ==> reauthorized(device, attempt, Some(reason)) is Failed,
{
}

/// A device is its vendor and its product, without the space around them.
pub proof fn law_a_device_is_its_vendor_and_its_product(vendor: Seq<char>, product: Seq<char>)
    ensures
        identity_of(Some(vendor), Some(product)) == Some(
            IdentityModel { vendor: trimmed(vendor), product: trimmed(product) },
        ),
        identity_of(None, Some(product)) is None,
        identity_of(Some(vendor), None) is None,
{
}

/// A device is gone where the system has no such device (19), no such address
/// (6) or shut it down (108), or where reading ends; then a caller that waits
/// for an answer is told so, and otherwise is told the reason.
pub proof fn law_a_device_is_gone_by_its_number(
    device: Seq<char>,
    what: Seq<char>,
    reason: Seq<char>,
    number: Option<i32>,
    at_end: bool,
    waiting: bool,
)
    ensures
        gone(number, at_end) <==> at_end || number == Some(6i32) || number == Some(19i32) || number
            == Some(108i32),
        device_fault(device, what, reason, true, waiting) == (SessionFault::Disconnected {
            device,
            awaiting_response: waiting,
        }),
        device_fault(device, what, reason, false, waiting) == SessionFault::Transport(
            what + ": "@ + reason,
        ),
{
}

/// What can be read is read, whatever else is reported; a hangup without it is
/// a disconnect.
pub proof fn law_what_can_be_read_is_read(device: Seq<char>, revents: i16)
    ensures
        poll_fault(device, revents) is None <==> revents & 0x01i16 != 0,
        revents & 0x01i16 == 0 && revents & 0x30i16 != 0 ==> poll_fault(device, revents) == Some(
            SessionFault::Disconnected { device, awaiting_response: true },
        ),
        revents & 0x01i16 == 0 && revents & 0x30i16 == 0 ==> poll_fault(
            device,
            revents,
        )->0 is Transport,
{
    assert(0x10i16 | 0x20i16 == 0x30i16) by (bit_vector);
}

/// A device has come back where one of its own interfaces is there.
pub proof fn law_a_device_is_back_with_its_interfaces(
    device: Seq<char>,
    interface: Seq<char>,
    before: Seq<Seq<char>>,
)
    ensures
        interfaces_in(before.push(device + ":"@ + interface), device),
        interfaces_in(before.push(device), device) == interfaces_in(before, device),
{
    let name = device + ":"@ + interface;
    let all = before.push(name);
    let stem = device + ":"@;
    reveal_strlit(":");
    assert(name.take(stem.len() as int) =~= stem);
    assert(all[before.len() as int] == name);
    let with = before.push(device);
    if interfaces_in(before, device) {
        let i = choose|i: int|
            0 <= i < before.len() && after_prefix(#[trigger] before[i], stem) is Some;
        assert(with[i] == before[i]);
    }
    if interfaces_in(with, device) {
        let i = choose|i: int|
            0 <= i < with.len() && after_prefix(#[trigger] with[i], stem) is Some;
        assert(i < before.len());
        assert(before[i] == with[i]);
    }
}

} // verus!
