use ifconfig::cli::{DnsArgs, IpArgs, SetOperation};
use ifconfig::control::{
    check_mac, cidr_error_message, interface_down, interface_up, lines_of, netsh_outcome, parse_cidr,
    powershell_outcome, run_set, same_ignoring_ascii_case, step_outcome, CidrError, Program, Step,
};

fn say_text(s: &Step) -> String {
    match s {
        Step::Say(l) => l.iter().map(|x| x.text.as_str()).collect::<Vec<_>>().concat(),
        Step::Run { .. } => panic!("expected a line"),
    }
}

fn run_of(s: &Step) -> (Program, Vec<String>, bool) {
    match s {
        Step::Run { invocation, may_fail } => (invocation.program, invocation.args.clone(), *may_fail),
        Step::Say(_) => panic!("expected a run"),
    }
}

fn args(v: &[&str]) -> Vec<String> {
    v.iter().map(|s| s.to_string()).collect()
}

#[test]
fn up_and_down_plans() {
    let up = interface_up("Ethernet");
    assert_eq!(up.len(), 3);
    assert_eq!(say_text(&up[0]), "⬆️   Bringing Ethernet UP...");
    assert_eq!(run_of(&up[1]), (Program::Netsh, args(&["interface", "set", "interface", "Ethernet", "admin=enabled"]), false));
    assert_eq!(say_text(&up[2]), "  ✅ Interface enabled.");
    let down = interface_down("Wi-Fi");
    assert_eq!(say_text(&down[0]), "⬇️   Bringing Wi-Fi DOWN...");
    assert_eq!(run_of(&down[1]), (Program::Netsh, args(&["interface", "set", "interface", "Wi-Fi", "admin=disabled"]), false));
    assert_eq!(say_text(&down[2]), "  ✅ Interface disabled.");
}

#[test]
fn cidr_parsing() {
    assert_eq!(parse_cidr("192.168.1.50/24"), Ok(("192.168.1.50".to_string(), 24)));
    assert_eq!(parse_cidr("10.0.0.1/0"), Ok(("10.0.0.1".to_string(), 0)));
    assert_eq!(parse_cidr("10.0.0.1/+32"), Ok(("10.0.0.1".to_string(), 32)));
    assert_eq!(parse_cidr("10.0.0.1/8/9"), Err(CidrError::Prefix));
    assert_eq!(parse_cidr("192.168.1.50"), Err(CidrError::Format));
    assert_eq!(parse_cidr("192.168.1.50/x"), Err(CidrError::Prefix));
    assert_eq!(parse_cidr("192.168.1.50/"), Err(CidrError::Prefix));
    assert_eq!(parse_cidr("192.168.1.50/300"), Err(CidrError::Prefix));
    assert_eq!(parse_cidr("192.168.1.50/33"), Err(CidrError::Range));
    assert_eq!(parse_cidr("192.168.1/24"), Err(CidrError::Address));
    assert_eq!(parse_cidr("192.168.1.256/24"), Err(CidrError::Address));
    assert_eq!(parse_cidr("192.168..1/24"), Err(CidrError::Address));
    assert_eq!(parse_cidr("a.b.c.d/24"), Err(CidrError::Address));
    assert_eq!(parse_cidr("+1.2.3.4/24"), Ok(("+1.2.3.4".to_string(), 24)));
}

#[test]
fn cidr_messages() {
    assert_eq!(
        cidr_error_message(CidrError::Format, "192.168.1.50"),
        "Invalid CIDR '192.168.1.50'. Use format IP/prefix, e.g. 192.168.1.50/24"
    );
    assert_eq!(cidr_error_message(CidrError::Prefix, "1.2.3.4/x"), "Invalid prefix length 'x' in '1.2.3.4/x'");
    assert_eq!(cidr_error_message(CidrError::Range, "1.2.3.4/40"), "Prefix length 40 out of range (0–32)");
    assert_eq!(cidr_error_message(CidrError::Address, "1.2.3/24"), "Invalid IPv4 address '1.2.3'");
}

#[test]
fn shown_address_round_trips() {
    for (ip, p) in [("192.168.1.100", 24u8), ("127.0.0.1", 8), ("0.0.0.0", 0), ("255.255.255.255", 32)] {
        assert_eq!(parse_cidr(&format!("{}/{}", ip, p)), Ok((ip.to_string(), p)));
    }
}

#[test]
fn mac_checks() {
    assert!(check_mac("AA:BB:CC:DD:EE:FF"));
    assert!(check_mac("aa-bb-cc-dd-ee-ff"));
    assert!(check_mac("AABBCCDDEEFF"));
    assert!(check_mac("A4:BB:6D:23:91:F0"));
    assert!(!check_mac("AA:BB:CC:DD:EE"));
    assert!(!check_mac("GG:BB:CC:DD:EE:FF"));
    assert!(!check_mac("AA BB CC DD EE FF"));
    assert!(!check_mac(""));
}

#[test]
fn ascii_case() {
    assert!(same_ignoring_ascii_case("DHCP", "dhcp"));
    assert!(same_ignoring_ascii_case("DhCp", "dhcp"));
    assert!(!same_ignoring_ascii_case("dhcp ", "dhcp"));
    assert!(!same_ignoring_ascii_case("dhcq", "dhcp"));
}

#[test]
fn set_ip_static_and_dhcp() {
    let op = SetOperation::Ip(IpArgs { address: "192.168.1.50/24".to_string(), gateway: Some("192.168.1.1".to_string()) });
    let steps = run_set("Ethernet", &op).unwrap();
    assert_eq!(steps.len(), 3);
    assert_eq!(say_text(&steps[0]), "🔧  Setting Ethernet → ip:192.168.1.50 mask:255.255.255.0 gw:192.168.1.1");
    assert_eq!(
        run_of(&steps[1]),
        (Program::Netsh, args(&["interface", "ip", "set", "address", "Ethernet", "static", "192.168.1.50", "255.255.255.0", "192.168.1.1"]), false)
    );
    assert_eq!(say_text(&steps[2]), "  ✅ IP address set.");

    let op = SetOperation::Ip(IpArgs { address: "10.0.0.2/8".to_string(), gateway: None });
    let steps = run_set("eth", &op).unwrap();
    assert_eq!(say_text(&steps[0]), "🔧  Setting eth → ip:10.0.0.2 mask:255.0.0.0 ");
    assert_eq!(run_of(&steps[1]).1, args(&["interface", "ip", "set", "address", "eth", "static", "10.0.0.2", "255.0.0.0"]));

    let op = SetOperation::Ip(IpArgs { address: "DHCP".to_string(), gateway: None });
    let steps = run_set("eth", &op).unwrap();
    assert_eq!(say_text(&steps[0]), "🔄  Setting eth to DHCP...");
    assert_eq!(run_of(&steps[1]).1, args(&["interface", "ip", "set", "address", "eth", "dhcp"]));
    assert_eq!(say_text(&steps[2]), "  ✅ DHCP enabled for address.");

    let op = SetOperation::Ip(IpArgs { address: "10.0.0.2".to_string(), gateway: None });
    assert_eq!(run_set("eth", &op).unwrap_err(), "Invalid CIDR '10.0.0.2'. Use format IP/prefix, e.g. 192.168.1.50/24");
}

#[test]
fn add_and_del_addresses() {
    let steps = run_set("eth", &SetOperation::Add { address: "10.0.0.9/16".to_string() }).unwrap();
    assert_eq!(say_text(&steps[0]), "➕  Adding 10.0.0.9/16 to eth...");
    assert_eq!(run_of(&steps[1]).1, args(&["interface", "ip", "add", "address", "eth", "10.0.0.9", "255.255.0.0"]));
    assert_eq!(say_text(&steps[2]), "  ✅ Address added.");
    assert_eq!(run_set("eth", &SetOperation::Add { address: "10.0.0.9/99".to_string() }).unwrap_err(), "Prefix length 99 out of range (0–32)");

    let steps = run_set("eth", &SetOperation::Del { address: "10.0.0.9/16".to_string() }).unwrap();
    assert_eq!(say_text(&steps[0]), "➖  Removing 10.0.0.9 from eth...");
    assert_eq!(run_of(&steps[1]).1, args(&["interface", "ip", "delete", "address", "eth", "10.0.0.9"]));
    assert_eq!(say_text(&steps[2]), "  ✅ Address removed.");
    let plain = run_set("eth", &SetOperation::Del { address: "10.0.0.9".to_string() }).unwrap();
    assert_eq!(run_of(&plain[1]).1, run_of(&steps[1]).1);
}

#[test]
fn flush_mtu_metric() {
    let steps = run_set("eth", &SetOperation::Flush).unwrap();
    assert_eq!(steps.len(), 4);
    assert_eq!(say_text(&steps[0]), "🔄  Flushing all IPs on eth and resetting to DHCP...");
    assert_eq!(run_of(&steps[1]).1, args(&["interface", "ip", "set", "address", "eth", "dhcp"]));
    assert_eq!(run_of(&steps[2]).1, args(&["interface", "ip", "set", "dns", "eth", "dhcp"]));
    assert_eq!(say_text(&steps[3]), "  ✅ Interface flushed — DHCP re-enabled for IP and DNS.");

    let steps = run_set("eth", &SetOperation::Mtu { value: 1400 }).unwrap();
    assert_eq!(say_text(&steps[0]), "📦  Setting MTU on eth → 1400...");
    assert_eq!(run_of(&steps[1]).1, args(&["interface", "ipv4", "set", "subinterface", "eth", "mtu=1400", "store=persistent"]));
    assert_eq!(say_text(&steps[2]), "  ✅ MTU set to 1400.");

    let steps = run_set("eth", &SetOperation::Metric { value: 10 }).unwrap();
    assert_eq!(steps.len(), 4);
    assert_eq!(say_text(&steps[0]), "📊  Setting metric on eth → 10...");
    assert_eq!(run_of(&steps[1]), (Program::Netsh, args(&["interface", "ip", "set", "interface", "eth", "metric=automatic"]), true));
    assert_eq!(run_of(&steps[2]), (Program::Netsh, args(&["interface", "ip", "set", "interface", "eth", "metric=10"]), false));
    assert_eq!(say_text(&steps[3]), "  ✅ Metric set to 10.");
}

#[test]
fn dns_plans() {
    let op = SetOperation::Dns(DnsArgs { servers: vec!["1.1.1.1".to_string(), "8.8.8.8".to_string(), "9.9.9.9".to_string()] });
    let steps = run_set("eth", &op).unwrap();
    assert_eq!(steps.len(), 5);
    assert_eq!(say_text(&steps[0]), "🔍  Setting DNS on eth → 1.1.1.1, 8.8.8.8, 9.9.9.9...");
    assert_eq!(run_of(&steps[1]).1, args(&["interface", "ip", "set", "dns", "eth", "static", "1.1.1.1", "primary"]));
    assert_eq!(run_of(&steps[2]).1, args(&["interface", "ip", "add", "dns", "eth", "8.8.8.8", "index=2"]));
    assert_eq!(run_of(&steps[3]).1, args(&["interface", "ip", "add", "dns", "eth", "9.9.9.9", "index=3"]));
    assert_eq!(say_text(&steps[4]), "  ✅ DNS configured (3 servers).");

    let one = run_set("eth", &SetOperation::Dns(DnsArgs { servers: vec!["1.1.1.1".to_string()] })).unwrap();
    assert_eq!(one.len(), 3);
    assert_eq!(say_text(&one[2]), "  ✅ DNS configured (1 server).");

    let dhcp = run_set("eth", &SetOperation::Dns(DnsArgs { servers: vec!["Dhcp".to_string()] })).unwrap();
    assert_eq!(say_text(&dhcp[0]), "🔍  Setting DNS on eth → DHCP (automatic)...");
    assert_eq!(run_of(&dhcp[1]).1, args(&["interface", "ip", "set", "dns", "eth", "dhcp"]));
    assert_eq!(say_text(&dhcp[2]), "  ✅ DNS set to automatic.");
}

#[test]
fn mac_plan_and_refusal() {
    let steps = run_set("eth", &SetOperation::Mac { address: "AA:BB:CC:DD:EE:FF".to_string() }).unwrap();
    assert_eq!(steps.len(), 4);
    assert_eq!(say_text(&steps[0]), "🔌  Setting MAC on eth → AA:BB:CC:DD:EE:FF...");
    assert_eq!(
        run_of(&steps[1]),
        (
            Program::PowerShell,
            args(&["-NoProfile", "-NonInteractive", "-Command", "Set-NetAdapter -Name 'eth' -MacAddress 'AA:BB:CC:DD:EE:FF' -Confirm:$false"]),
            false
        )
    );
    assert_eq!(say_text(&steps[2]), "  ✅ MAC address changed to AA:BB:CC:DD:EE:FF.");
    assert_eq!(say_text(&steps[3]), "  ℹ️  You may need to reconnect the interface for the change to take effect.");
    assert_eq!(
        run_set("eth", &SetOperation::Mac { address: "xyz".to_string() }).unwrap_err(),
        "Invalid MAC address 'xyz'. Use format AA:BB:CC:DD:EE:FF"
    );
}

#[test]
fn netsh_results() {
    assert_eq!(netsh_outcome(true, Some(0), b"Ok.\r\n", b""), Ok("Ok.\r\n".to_string()));
    assert_eq!(netsh_outcome(false, Some(1), b"out", b"  bad thing \n"), Err("netsh error: bad thing".to_string()));
    assert_eq!(netsh_outcome(false, Some(1), b" out \n", b"  "), Err("netsh error: out".to_string()));
    assert_eq!(netsh_outcome(false, Some(-2), b"", b""), Err("netsh error: netsh exited with code Some(-2)".to_string()));
    assert_eq!(netsh_outcome(false, None, b"", b""), Err("netsh error: netsh exited with code None".to_string()));
    assert_eq!(
        netsh_outcome(false, Some(1), b"", b"Access is denied.\r\n"),
        Err("netsh error: Access is denied.\n  \u{1F4A1} Tip: Run as Administrator".to_string())
    );
    assert_eq!(
        netsh_outcome(false, Some(1), b"The requested operation requires elevation (Run as administrator).", b""),
        Err("netsh error: The requested operation requires elevation (Run as administrator).".to_string())
    );
    assert_eq!(
        netsh_outcome(true, Some(0), b"Line one\r\nAccess is denied.\r\nRun as administrator\r\n", b""),
        Err("netsh reported: Access is denied.\n  \u{1F4A1} Tip: Run as Administrator".to_string())
    );
    assert_eq!(
        netsh_outcome(true, Some(0), b"An error occurred\nThe parameter is incorrect.\n", b""),
        Err("netsh reported: An error occurred; The parameter is incorrect.".to_string())
    );
    assert_eq!(
        netsh_outcome(true, Some(0), b"no problem here", b""),
        Ok("no problem here".to_string())
    );
}

#[test]
fn powershell_results() {
    assert_eq!(powershell_outcome(true, b"done", b""), Ok("done".to_string()));
    assert_eq!(powershell_outcome(false, b"", b" Access denied \n"), Err("PowerShell error: Access denied\n  💡 Tip: Run as Administrator".to_string()));
    assert_eq!(powershell_outcome(false, b" oops ", b""), Err("PowerShell error: oops".to_string()));
}

#[test]
fn line_splitting() {
    assert_eq!(lines_of("a\r\nb\nc"), vec!["a".to_string(), "b".to_string(), "c".to_string()]);
    assert_eq!(lines_of("a\n"), vec!["a".to_string()]);
    assert_eq!(lines_of(""), Vec::<String>::new());
    assert_eq!(lines_of("\n\n"), vec!["".to_string(), "".to_string()]);
    assert_eq!(lines_of("x\r"), vec!["x\r".to_string()]);
}

#[test]
fn step_outcomes() {
    assert_eq!(step_outcome(false, Ok("out".to_string())), Ok(()));
    assert_eq!(step_outcome(true, Ok("out".to_string())), Ok(()));
    assert_eq!(step_outcome(true, Err("bad".to_string())), Ok(()));
    assert_eq!(step_outcome(false, Err("bad".to_string())), Err("bad".to_string()));
}
