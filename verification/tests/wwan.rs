use edge_modem::wwan::{Ipv4View, bring_up, data_interface_dir, interface_for, table_for, tear_down};

/// The mapping that must not be done by ordinal. `cdc-wdm1` here owns
/// `wwan3`, which is the case a "same number" shortcut gets wrong -- and
/// getting it wrong puts one module's address on another module's link.
#[test]
fn the_interface_is_found_through_sysfs_not_by_matching_numbers() {
    assert_eq!(
        data_interface_dir("/sys", "cdc-wdm1"),
        "/sys/class/usbmisc/cdc-wdm1/device/net"
    );
    assert_eq!(interface_for(&vec!["wwan3".to_owned()]), Some("wwan3".to_owned()));
}

/// A control node with no data interface behind it is not an error to
/// report loudly: plenty of modules expose one, and the caller's answer is
/// "no data plane here" either way.
#[test]
fn a_node_with_no_data_interface_maps_to_nothing() {
    assert_eq!(interface_for(&Vec::new()), None);
}

/// The ordering rules, as assertions. `raw_ip` cannot be written to a
/// live interface, so the link goes down before anything else; the address
/// cannot be added before the link is up; the route cannot be added before
/// the address exists.
#[test]
fn the_sequence_puts_the_link_down_before_it_configures_anything() {
    let steps = bring_up(
        "wwan0",
        &Ipv4View {
            address: "10.115.32.7".into(),
            prefix: 30,
            gateway: Some("10.115.32.8".into()),
            mtu: Some(1500),
        },
    );
    let rendered: Vec<String> = steps
        .iter()
        .map(|step| format!("{} {}", step.program, step.args.join(" ")))
        .collect();
    assert_eq!(rendered[0], "ip link set wwan0 down");
    assert_eq!(rendered[1], "ip addr flush dev wwan0");
    let up = rendered.iter().position(|line| line == "ip link set wwan0 up");
    let addr = rendered
        .iter()
        .position(|line| line.starts_with("ip addr add"));
    let route = rendered
        .iter()
        .position(|line| line.starts_with("ip route add"));
    assert!(up < addr, "an address was added to a down interface");
    assert!(addr < route, "a route was added before its source address");
}

/// The default route goes in the interface's own table, never the main
/// one. `ip route add default ... ` in the main table
/// is refused `File exists` on a box that already has a default -- and the
/// refusal is the good outcome, because succeeding would have moved the
/// box's own traffic, and the session configuring it, onto a modem.
#[test]
fn the_default_route_never_lands_in_the_main_table() {
    let steps = bring_up(
        "wwan0",
        &Ipv4View {
            address: "10.115.32.7".into(),
            prefix: 30,
            gateway: Some("10.64.64.64".into()),
            mtu: None,
        },
    );
    let route = steps
        .iter()
        .find(|step| step.args.first().map(String::as_str) == Some("route"))
        .expect("a default route");
    let table = route
        .args
        .iter()
        .position(|arg| arg == "table")
        .expect("the route must name a table");
    assert_eq!(route.args[table + 1], "100", "wwan0's table is 100");
    assert!(
        steps.iter().any(|step| step.args.first().map(String::as_str) == Some("rule")
            && step.args.contains(&"add".to_owned())),
        "a table with no rule pointing at it routes nothing"
    );
}

/// Four modules, four tables, four simultaneous defaults. One shared table
/// could only ever serve one of them, which is not what a box that egresses
/// through a chosen module can do.
#[test]
fn each_interface_gets_its_own_table() {
    assert_eq!(table_for("wwan0"), 100);
    assert_eq!(table_for("wwan3"), 103);
    assert_ne!(table_for("wwan0"), table_for("wwan1"));
    // No trailing number is the only collision, and this driver numbers
    // every interface it creates.
    assert_eq!(table_for("wwan"), 100);
}

/// `onlink`, because a mobile network routinely hands back a gateway
/// outside the prefix it hands back with it. Without it `ip` refuses the
/// route and a session that came up perfectly carries nothing.
#[test]
fn the_default_route_is_onlink() {
    let steps = bring_up(
        "wwan0",
        &Ipv4View {
            address: "10.115.32.7".into(),
            prefix: 30,
            gateway: Some("10.64.64.64".into()),
            mtu: None,
        },
    );
    let route = steps
        .iter()
        .find(|step| step.args.first().map(String::as_str) == Some("route"))
        .expect("a default route");
    assert!(
        route.args.iter().any(|arg| arg == "onlink"),
        "the gateway is outside the prefix here and this route would be refused: {route:?}"
    );
}

/// A session with no gateway still gets its address. Reporting an address
/// and no route is a fault an operator can see; refusing to configure
/// anything hides it.
#[test]
fn an_absent_gateway_does_not_stop_the_address() {
    let steps = bring_up(
        "wwan0",
        &Ipv4View {
            address: "10.115.32.7".into(),
            prefix: 30,
            gateway: None,
            mtu: None,
        },
    );
    assert!(steps.iter().any(|step| step.args.contains(&"add".to_owned())));
    assert!(
        !steps
            .iter()
            .any(|step| step.args.first().map(String::as_str) == Some("route")),
        "a route was invented for a session that named no gateway"
    );
}

#[test]
fn tearing_down_removes_the_rule_before_the_address_it_matches() {
    let steps = tear_down("wwan0", Some("10.115.32.7"));
    let rendered: Vec<String> = steps
        .iter()
        .map(|step| format!("{} {}", step.program, step.args.join(" ")))
        .collect();
    let rule = rendered.iter().position(|line| line.starts_with("ip rule del"));
    let addr = rendered.iter().position(|line| line.starts_with("ip addr flush"));
    assert!(rule < addr, "a rule left pointing at an empty table black-holes the next session");
    assert!(rendered.iter().any(|line| line.starts_with("ip route flush table")));
}

/// Without a gateway no table is named, so any name will do.
#[test]
fn a_name_needs_no_table_where_there_is_no_gateway() {
    let steps = bring_up(
        "wwan4294967295",
        &Ipv4View { address: "10.0.0.2".into(), prefix: 30, gateway: None, mtu: None },
    );
    assert_eq!(steps.len(), 4);
    assert_eq!(steps[3].args, ["addr", "add", "10.0.0.2/30", "dev", "wwan4294967295"]);
}
