use ifconfig::cli::Cli;
use ifconfig::display::{
    banner_lines, hostname_line, not_found_line, output_json, output_text, print_adapter_brief,
    print_adapter_full, print_summary, select_for_text, summary_totals,
};
use ifconfig::style::{Color, Segment};
use ifconfig::stub::get_stub_adapters;
use ifconfig::types::{AdapterInfo, AdapterStatus, AdapterType};

fn cli() -> Cli {
    Cli {
        interface: None,
        all: false,
        json: false,
        stats: false,
        metrics: false,
        dns: false,
        dhcp: false,
        no_color: false,
        brief: false,
        verbose: false,
        watch: None,
        summary: false,
        command: None,
    }
}

fn line_text(l: &[Segment]) -> String {
    l.iter().map(|s| s.text.as_str()).collect::<Vec<_>>().concat()
}

fn texts(lines: &[Vec<Segment>]) -> Vec<String> {
    lines.iter().map(|l| line_text(l)).collect()
}

fn rule(c: char) -> String {
    std::iter::repeat(c).take(70).collect()
}

fn ethernet() -> AdapterInfo {
    get_stub_adapters()[1].clone()
}

#[test]
fn full_view_of_ethernet_default() {
    let lines = texts(&print_adapter_full(&ethernet(), &cli()));
    let expected = vec![
        "🔌 Ethernet: <UP,BROADCAST,RUNNING,MULTICAST,DHCP> UP mtu 1500 metric 25".to_string(),
        "        link/ether  Intel(R) Ethernet Connection I219-V".to_string(),
        "        ether    A4:BB:6D:23:91:F0 txqueuelen 1000".to_string(),
        "        speed  1 Gbps".to_string(),
        "        inet   192.168.1.100  netmask 255.255.255.0  broadcast 192.168.1.255  scope global".to_string(),
        "        inet6  fe80::1a2b:3c4d:5e6f:7890/64  scope link".to_string(),
        "        gateway     192.168.1.1".to_string(),
        "".to_string(),
        "        📥 RX packets:7654321 errors:3 dropped:12 overruns:0 frame:0".to_string(),
        "            RX bytes:9876543210  (9.20 GiB)".to_string(),
        "        📤 TX packets:1234567 errors:0 dropped:1 overruns:0 carrier:0".to_string(),
        "            TX bytes:1234567890  (1.15 GiB)".to_string(),
        "               collisions:0".to_string(),
        "".to_string(),
        rule('─'),
        "".to_string(),
    ];
    assert_eq!(lines, expected);
}

#[test]
fn full_view_verbose_adds_details() {
    let mut c = cli();
    c.verbose = true;
    let lines = texts(&print_adapter_full(&ethernet(), &c));
    assert!(lines.contains(&"               unicast:7000000 multicast:50000 broadcast:604321".to_string()));
    assert!(lines.contains(&"               unicast:1200000 multicast:10000 broadcast:24567".to_string()));
    assert!(lines.contains(&"        📊 METRIC: 25".to_string()));
    assert!(lines.contains(&"        ⚡ SPEED: 1 Gbps".to_string()));
    assert!(lines.contains(&"        📦 MTU: 1500".to_string()));
    assert!(lines.contains(&"        🔢 INDEX: 2".to_string()));
    assert!(lines.contains(&"        🏷️  DHCP: enabled".to_string()));
    assert!(lines.contains(&"            Server: 192.168.1.1".to_string()));
    assert!(lines.contains(&"            Lease obtained: 2024-01-15 08:00:00".to_string()));
    assert!(lines.contains(&"            Lease expires:  2024-01-16 08:00:00".to_string()));
    assert!(lines.contains(&"        🔍 DNS servers:".to_string()));
    assert!(lines.contains(&"             8.8.8.8".to_string()));
    assert!(lines.contains(&"             8.8.4.4".to_string()));
    assert!(!lines.iter().any(|l| l.contains("WINS")));
}

#[test]
fn verbose_same_as_all_detail_options() {
    let mut v = cli();
    v.verbose = true;
    let mut all = cli();
    all.verbose = true;
    all.stats = true;
    all.metrics = true;
    all.dns = true;
    all.dhcp = true;
    for a in get_stub_adapters() {
        assert_eq!(texts(&print_adapter_full(&a, &v)), texts(&print_adapter_full(&a, &all)));
    }
}

#[test]
fn dhcp_disabled_is_static() {
    let mut c = cli();
    c.dhcp = true;
    let lo = get_stub_adapters()[0].clone();
    let lines = texts(&print_adapter_full(&lo, &c));
    assert!(lines.contains(&"        🏷️  DHCP: disabled (static)".to_string()));
}

#[test]
fn brief_lines() {
    let s = get_stub_adapters();
    assert_eq!(line_text(&print_adapter_brief(&s[0])), "🔁  lo  UP  N/A  127.0.0.1");
    assert_eq!(line_text(&print_adapter_brief(&s[1])), "🔌  Ethernet  UP  A4:BB:6D:23:91:F0  192.168.1.100");
    assert_eq!(line_text(&print_adapter_brief(&s[2])), "📶  Wi-Fi  DOWN  D0:AB:D5:CC:72:11  No IP");
    let up = print_adapter_brief(&s[0]);
    assert_eq!(up[4].style.color, Color::BrightGreen);
    assert!(up[4].style.bold);
    let down = print_adapter_brief(&s[2]);
    assert_eq!(down[4].style.color, Color::BrightRed);
}

#[test]
fn selection_default_all_and_named() {
    let s = get_stub_adapters();
    assert_eq!(select_for_text(&s, &None, false), vec![1]);
    assert_eq!(select_for_text(&s, &None, true), vec![0, 1, 2]);
    assert_eq!(select_for_text(&s, &Some("wi".to_string()), false), vec![2]);
    assert_eq!(select_for_text(&s, &Some("ETHER".to_string()), false), vec![1]);
    assert_eq!(select_for_text(&s, &Some("3".to_string()), false), vec![2]);
    assert_eq!(select_for_text(&s, &Some("loopback".to_string()), false), vec![0]);
    assert_eq!(select_for_text(&s, &Some("nothing".to_string()), true), Vec::<usize>::new());
}

#[test]
fn json_selection_matches_name_only() {
    let s = get_stub_adapters();
    assert_eq!(output_json(&s, &Some("loopback".to_string()), false), Vec::<usize>::new());
    assert_eq!(output_json(&s, &Some("lo".to_string()), false), vec![0]);
    assert_eq!(output_json(&s, &None, false), vec![1]);
    assert_eq!(output_json(&s, &None, true), vec![0, 1, 2]);
    assert_eq!(output_json(&s, &Some("2".to_string()), false), vec![1]);
}

#[test]
fn banner_and_host_lines() {
    let b = texts(&banner_lines("1.0.11"));
    assert_eq!(b.len(), 3);
    assert_eq!(b[0], format!("╔{}╗", "═".repeat(70)));
    assert_eq!(b[1], "║  🌐  win-ifconfig v1.0.11  ─  Windows Network Interface Information  ║");
    assert_eq!(b[2], format!("╚{}╝", "═".repeat(70)));
    assert_eq!(
        line_text(&hostname_line("WORKSTATION-01", "2024-01-15 14:32:07 WIB")),
        "  🖥️  Hostname: WORKSTATION-01   🕐 2024-01-15 14:32:07 WIB"
    );
}

#[test]
fn not_found_messages() {
    assert_eq!(line_text(&not_found_line(&Some("eth9".to_string()))), "❌ Interface 'eth9' not found.");
    assert_eq!(line_text(&not_found_line(&None)), "❌ No active interfaces found. Use -a to show all.");
}

#[test]
fn summary_counts_and_totals() {
    let s = get_stub_adapters();
    let lines = texts(&print_summary(&s, &vec![0, 1]));
    assert_eq!(lines, vec![
        "".to_string(),
        rule('═'),
        "  📋 SUMMARY ─ Network Interface Overview".to_string(),
        rule('═'),
        "  Total interfaces: 3  │  Up: 2  │  Down: 1  │  Displayed: 2".to_string(),
        "  Total RX: 9.20 GiB  │  Total TX: 1.15 GiB".to_string(),
        "".to_string(),
    ]);
}

#[test]
fn output_text_nothing_selected() {
    let s = get_stub_adapters();
    let mut c = cli();
    c.interface = Some("eth9".to_string());
    let (err, out) = output_text(&s, &c, "1.0.11", &Some("host".to_string()), "t");
    assert_eq!(texts(&err), vec!["❌ Interface 'eth9' not found.".to_string()]);
    assert!(out.is_empty());
    let down_only = vec![s[2].clone()];
    let (err, out) = output_text(&down_only, &cli(), "1.0.11", &None, "t");
    assert_eq!(texts(&err), vec!["❌ No active interfaces found. Use -a to show all.".to_string()]);
    assert!(out.is_empty());
}

#[test]
fn output_text_brief_with_summary() {
    let s = get_stub_adapters();
    let mut c = cli();
    c.brief = true;
    c.all = true;
    c.summary = true;
    let (err, out) = output_text(&s, &c, "1.0.11", &Some("WS".to_string()), "now");
    assert!(err.is_empty());
    let t = texts(&out);
    assert_eq!(t.len(), 3 + 2 + 3 + 7);
    assert_eq!(t[3], "  🖥️  Hostname: WS   🕐 now");
    assert_eq!(t[4], "");
    assert_eq!(t[5], "🔁  lo  UP  N/A  127.0.0.1");
    assert_eq!(t[7], "📶  Wi-Fi  DOWN  D0:AB:D5:CC:72:11  No IP");
    assert_eq!(t[12], "  Total interfaces: 3  │  Up: 2  │  Down: 1  │  Displayed: 3");
    assert_eq!(t[13], "  Total RX: 9.20 GiB  │  Total TX: 1.15 GiB");
}

#[test]
fn output_text_without_host_name() {
    let s = get_stub_adapters();
    let mut c = cli();
    c.brief = true;
    let (_, out) = output_text(&s, &c, "1.0.11", &None, "now");
    let t = texts(&out);
    assert_eq!(t.len(), 3 + 1 + 1);
    assert_eq!(t[3], "");
    assert_eq!(t[4], "🔌  Ethernet  UP  A4:BB:6D:23:91:F0  192.168.1.100");
}

#[test]
fn default_selection_skips_down_and_loopback() {
    let s = get_stub_adapters();
    let shown = s
        .iter()
        .filter(|a| a.status == AdapterStatus::Up && a.adapter_type != AdapterType::Loopback)
        .count();
    assert_eq!(select_for_text(&s, &None, false).len(), shown);
    let (_, out) = output_text(&s, &cli(), "1.0.11", &None, "t");
    assert!(!texts(&out).iter().any(|l| l.starts_with("🔁")));
}

#[test]
fn summary_totals_checked() {
    let s = get_stub_adapters();
    assert_eq!(summary_totals(&s, &vec![0, 1, 2]), Some((1_234_567 + 9_876_543_210, 1_234_567 + 1_234_567_890)));
    assert_eq!(summary_totals(&s, &vec![]), Some((0, 0)));
    let mut big = s[1].clone();
    if let Some(st) = big.stats.as_mut() {
        st.rx_bytes = u64::MAX;
    }
    let v = vec![big, s[0].clone()];
    assert_eq!(summary_totals(&v, &vec![0]), Some((u64::MAX, 1_234_567_890)));
    assert_eq!(summary_totals(&v, &vec![0, 1]), None);
}
