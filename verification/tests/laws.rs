use ifconfig::addr::{calc_broadcast_v4, format_mac, prefix_to_netmask_v4};
use ifconfig::cli::{Cli, SetOperation};
use ifconfig::control::{check_mac, parse_cidr, run_set};
use ifconfig::display::{output_json, print_adapter_full, select_for_text};
use ifconfig::stub::get_stub_adapters;
use ifconfig::types::{AdapterStatus, AdapterType};

fn cli() -> Cli {
    Cli {
        interface: None,
        all: false,
        json: false,
        stats: false,
        metrics: false,
        dns: false,
        dhcp: false,
        no_color: false,
        brief: false,
        verbose: false,
        watch: None,
        summary: false,
        command: None,
    }
}

#[test]
fn law_all_selects_every_adapter_example() {
    let s = get_stub_adapters();
    assert_eq!(select_for_text(&s, &None, true), (0..s.len()).collect::<Vec<_>>());
    assert_eq!(output_json(&s, &None, true), (0..s.len()).collect::<Vec<_>>());
}

#[test]
fn law_default_selects_up_adapters_example() {
    let s = get_stub_adapters();
    let shown = select_for_text(&s, &None, false);
    for (i, a) in s.iter().enumerate() {
        let by_default = a.status == AdapterStatus::Up && a.adapter_type != AdapterType::Loopback;
        assert_eq!(shown.contains(&i), by_default);
    }
}

#[test]
fn law_named_adapter_selected_example() {
    let s = get_stub_adapters();
    for (i, a) in s.iter().enumerate() {
        assert!(select_for_text(&s, &Some(a.name.clone()), false).contains(&i));
        assert!(output_json(&s, &Some(a.index.to_string()), false).contains(&i));
    }
}

#[test]
fn law_json_within_text_example() {
    let s = get_stub_adapters();
    for name in ["lo", "loop", "eth", "wi", "1", "x"] {
        let j = output_json(&s, &Some(name.to_string()), false);
        let t = select_for_text(&s, &Some(name.to_string()), false);
        for p in j {
            assert!(t.contains(&p));
        }
    }
}

#[test]
fn law_brief_one_line_example() {
    let s = get_stub_adapters();
    let mut c = cli();
    c.brief = true;
    c.all = true;
    let (_, out) = ifconfig::display::output_text(&s, &c, "v", &None, "t");
    assert_eq!(out.len(), 3 + 1 + s.len());
}

#[test]
fn law_verbose_example() {
    let a = get_stub_adapters()[1].clone();
    let mut v = cli();
    v.verbose = true;
    let mut w = cli();
    w.verbose = true;
    w.stats = true;
    w.dns = true;
    let t1: Vec<String> = print_adapter_full(&a, &v).iter().map(|l| l.iter().map(|s| s.text.as_str()).collect()).collect();
    let t2: Vec<String> = print_adapter_full(&a, &w).iter().map(|l| l.iter().map(|s| s.text.as_str()).collect()).collect();
    assert_eq!(t1, t2);
}

#[test]
fn law_broadcast_in_network_example() {
    assert_eq!(calc_broadcast_v4([10, 20, 30, 40], 12), "10.31.255.255");
    assert_eq!(prefix_to_netmask_v4(12), "255.240.0.0");
    assert_eq!(calc_broadcast_v4([10, 20, 30, 40], 1), "127.255.255.255");
}

#[test]
fn law_shown_mac_accepted_example() {
    let bytes = [0x00, 0x1a, 0xff, 0x9c, 0x0b, 0xe0];
    let shown = format_mac(&bytes);
    assert!(check_mac(&shown));
    assert!(run_set("eth", &SetOperation::Mac { address: shown }).is_ok());
}

#[test]
fn law_shown_cidr_accepted_example() {
    let a = get_stub_adapters()[1].clone();
    let ip = &a.ipv4_addresses[0];
    let cidr = format!("{}/{}", ip.address, ip.prefix_len);
    assert_eq!(parse_cidr(&cidr), Ok((ip.address.clone(), ip.prefix_len)));
    assert!(run_set("eth", &SetOperation::Add { address: cidr }).is_ok());
}
