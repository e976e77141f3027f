use ifconfig::adapter::{
    filetime_to_string, first_ipv4_text, get_adapters, ip_to_string, lease_time_text, parse_adapter,
    present_ip_texts, read_dns_from_registry, read_lease_times_from_registry, shifted_time_text, RawAdapter, RawCounters,
    RawIp, RawUnicast, RegistryValues,
};
use ifconfig::types::{AdapterStatus, AdapterType, IpScope};

fn utf16(s: &str) -> Vec<u16> {
    s.encode_utf16().collect()
}

fn no_registry() -> RegistryValues {
    RegistryValues { dhcp_name_server: None, name_server: None, lease_obtained: None, lease_terminates: None, obtained_offset: 0, terminates_offset: 0 }
}

fn counters() -> RawCounters {
    RawCounters {
        in_octets: 9_876_543_210,
        in_ucast_pkts: 7_000_000,
        in_n_ucast_pkts: 654_321,
        in_errors: 3,
        in_discards: 12,
        in_multicast_octets: 50_000,
        in_broadcast_octets: 604_321,
        out_octets: 1_234_567_890,
        out_ucast_pkts: 1_200_000,
        out_n_ucast_pkts: 34_567,
        out_errors: 0,
        out_discards: 1,
        out_multicast_octets: 10_000,
        out_broadcast_octets: 24_567,
    }
}

fn ethernet_raw() -> RawAdapter {
    RawAdapter {
        adapter_name: Some(b"{4D36E972-E325-11CE}".to_vec()),
        friendly_name: Some(utf16("Ethernet")),
        description: Some(utf16("Intel(R) Ethernet Connection I219-V")),
        if_type: 6,
        oper_status: 1,
        physical_address: vec![0xA4, 0xBB, 0x6D, 0x23, 0x91, 0xF0],
        unicast: vec![
            RawUnicast { address: Some(RawIp::V4([192, 168, 1, 100])), prefix_len: 24 },
            RawUnicast {
                address: Some(RawIp::V6([0xfe, 0x80, 0, 0, 0, 0, 0, 0, 0x1a, 0x2b, 0x3c, 0x4d, 0x5e, 0x6f, 0x78, 0x90])),
                prefix_len: 64,
            },
            RawUnicast { address: None, prefix_len: 8 },
        ],
        gateways: vec![
            Some(RawIp::V6([0xfe, 0x80, 0, 0, 0, 0, 0, 0, 0, 0, 0, 0, 0, 0, 0, 1])),
            Some(RawIp::V4([192, 168, 1, 1])),
        ],
        dns_servers: vec![Some(RawIp::V4([8, 8, 8, 8])), None, Some(RawIp::V4([8, 8, 4, 4]))],
        flags: 0x4 | 0x1,
        dhcpv4_server: Some(RawIp::V4([192, 168, 1, 1])),
        wins_servers: vec![],
        if_index: 2,
        transmit_link_speed: 1_000_000_000,
        mtu: 1500,
        ipv4_metric: 25,
        counters: Some(counters()),
        registry: no_registry(),
    }
}

#[test]
fn parse_ethernet_record() {
    let a = parse_adapter(&ethernet_raw()).expect("named record");
    assert_eq!(a.index, 2);
    assert_eq!(a.name, "Ethernet");
    assert_eq!(a.friendly_name, "Ethernet");
    assert_eq!(a.description, "Intel(R) Ethernet Connection I219-V");
    assert_eq!(a.adapter_type, AdapterType::Ethernet);
    assert_eq!(a.status, AdapterStatus::Up);
    assert_eq!(a.mac_address.as_deref(), Some("A4:BB:6D:23:91:F0"));
    assert_eq!(a.ipv4_addresses.len(), 1);
    let v4 = &a.ipv4_addresses[0];
    assert_eq!(v4.address, "192.168.1.100");
    assert_eq!(v4.prefix_len, 24);
    assert_eq!(v4.netmask.as_deref(), Some("255.255.255.0"));
    assert_eq!(v4.broadcast.as_deref(), Some("192.168.1.255"));
    assert_eq!(v4.scope, IpScope::Global);
    assert_eq!(a.ipv6_addresses.len(), 1);
    assert_eq!(a.ipv6_addresses[0].address, "fe80::1a2b:3c4d:5e6f:7890");
    assert_eq!(a.ipv6_addresses[0].prefix_len, 64);
    assert_eq!(a.ipv6_addresses[0].scope, IpScope::LinkLocal);
    assert!(a.ipv6_addresses[0].netmask.is_none());
    assert_eq!(a.gateway.as_deref(), Some("192.168.1.1"));
    assert_eq!(a.dns_servers, vec!["8.8.8.8".to_string(), "8.8.4.4".to_string()]);
    assert!(a.dhcp_enabled);
    assert_eq!(a.dhcp_server.as_deref(), Some("192.168.1.1"));
    assert!(a.dhcp_lease_obtained.is_none());
    assert_eq!(a.mtu, 1500);
    assert_eq!(a.speed, Some(1_000_000_000));
    assert_eq!(a.metric, 25);
    let s = a.stats.as_ref().expect("counters");
    assert_eq!(s.rx_bytes, 9_876_543_210);
    assert_eq!(s.rx_packets, 7_654_321);
    assert_eq!(s.tx_packets, 1_234_567);
    assert_eq!(s.rx_unicast, 7_000_000);
    assert_eq!(s.rx_multicast, 50_000);
    assert_eq!(s.collisions, 0);
    assert_eq!(a.flags.to_flag_string(), "UP,BROADCAST,RUNNING,MULTICAST,DHCP");
}

#[test]
fn parse_record_without_name_is_skipped() {
    let mut r = ethernet_raw();
    r.adapter_name = None;
    assert!(parse_adapter(&r).is_none());
    let raws = vec![ethernet_raw(), r, ethernet_raw()];
    assert_eq!(get_adapters(&raws).len(), 2);
}

#[test]
fn parse_loopback_and_other_types() {
    let mut r = ethernet_raw();
    r.if_type = 24;
    r.oper_status = 2;
    r.flags = 0;
    r.physical_address = vec![];
    r.unicast = vec![RawUnicast { address: Some(RawIp::V4([127, 0, 0, 1])), prefix_len: 8 }];
    r.transmit_link_speed = u64::MAX;
    r.counters = None;
    let a = parse_adapter(&r).unwrap();
    assert_eq!(a.adapter_type, AdapterType::Loopback);
    assert_eq!(a.status, AdapterStatus::Down);
    assert!(a.mac_address.is_none());
    assert_eq!(a.ipv4_addresses[0].scope, IpScope::Loopback);
    assert_eq!(a.ipv4_addresses[0].netmask.as_deref(), Some("255.0.0.0"));
    assert_eq!(a.ipv4_addresses[0].broadcast.as_deref(), Some("127.255.255.255"));
    assert!(a.speed.is_none());
    assert!(a.stats.is_none());
    assert!(!a.dhcp_enabled);
    assert_eq!(a.flags.to_flag_string(), "LOOPBACK,NOARP");

    let mut v = ethernet_raw();
    v.if_type = 53;
    v.description = Some(utf16("Cisco AnyConnect VPN Adapter"));
    assert_eq!(parse_adapter(&v).unwrap().adapter_type, AdapterType::VPN);
    v.description = Some(utf16("Hyper-V Virtual Ethernet"));
    assert_eq!(parse_adapter(&v).unwrap().adapter_type, AdapterType::VPN);
    v.description = Some(utf16("Some adapter"));
    assert_eq!(parse_adapter(&v).unwrap().adapter_type, AdapterType::Other("Type(53)".to_string()));
    v.if_type = 71;
    assert_eq!(parse_adapter(&v).unwrap().adapter_type, AdapterType::WiFi);
    v.if_type = 131;
    assert_eq!(parse_adapter(&v).unwrap().adapter_type, AdapterType::Tunnel);
    v.if_type = 23;
    let p = parse_adapter(&v).unwrap();
    assert_eq!(p.adapter_type, AdapterType::PPP);
    assert!(p.flags.point_to_point);
    assert!(!p.flags.broadcast);
    v.transmit_link_speed = 0;
    assert!(parse_adapter(&v).unwrap().speed.is_none());
}

#[test]
fn friendly_name_falls_back_to_guid() {
    let mut r = ethernet_raw();
    r.friendly_name = None;
    r.description = None;
    let a = parse_adapter(&r).unwrap();
    assert_eq!(a.name, "{4D36E972-E325-11CE}");
    assert_eq!(a.description, "");
}

#[test]
fn dns_from_registry_when_none_listed() {
    let mut r = ethernet_raw();
    r.dns_servers = vec![];
    r.registry = RegistryValues {
        dhcp_name_server: Some({
            let mut u = utf16("10.0.0.1 10.0.0.2,, 10.0.0.3");
            u.push(0);
            u.push(0);
            u
        }),
        name_server: Some(utf16("1.1.1.1")),
        lease_obtained: Some(0),
        lease_terminates: None,
        obtained_offset: 0,
        terminates_offset: 0,
    };
    let a = parse_adapter(&r).unwrap();
    assert_eq!(a.dns_servers, vec!["10.0.0.1".to_string(), "10.0.0.2".to_string(), "10.0.0.3".to_string()]);
    assert!(a.dhcp_lease_obtained.is_none());
    assert!(a.dhcp_lease_expires.is_none());
}

#[test]
fn registry_dns_order_and_fallback() {
    let reg = RegistryValues {
        dhcp_name_server: Some(vec![0, 0]),
        name_server: Some(utf16(" 9.9.9.9 ")),
        lease_obtained: None,
        lease_terminates: None,
        obtained_offset: 0,
        terminates_offset: 0,
    };
    assert_eq!(read_dns_from_registry(&reg), Some(vec!["9.9.9.9".to_string()]));
    let none = RegistryValues { dhcp_name_server: Some(utf16(" , ")), name_server: None, lease_obtained: None, lease_terminates: None, obtained_offset: 0, terminates_offset: 0 };
    assert_eq!(read_dns_from_registry(&none), None);
    assert_eq!(read_dns_from_registry(&no_registry()), None);
}

#[test]
fn lease_times() {
    assert!(lease_time_text(None, 0).is_none());
    assert!(lease_time_text(Some(0), 3600).is_none());
    assert_eq!(lease_time_text(Some(1_705_305_600), 0), Some("2024-01-15 08:00:00".to_string()));
    assert_eq!(lease_time_text(Some(1_705_305_600), 7 * 3600), Some("2024-01-15 15:00:00".to_string()));
    assert_eq!(lease_time_text(Some(1_705_305_600), -9 * 3600), Some("2024-01-14 23:00:00".to_string()));
    assert_eq!(shifted_time_text(0, 0), "1970-01-01 00:00:00");
    assert_eq!(shifted_time_text(86_399, 1), "1970-01-02 00:00:00");
    let reg = RegistryValues {
        dhcp_name_server: None,
        name_server: None,
        lease_obtained: Some(1_705_305_600),
        lease_terminates: Some(1_705_392_000),
        obtained_offset: 3600,
        terminates_offset: -3600,
    };
    let (o, e) = read_lease_times_from_registry(&reg);
    assert_eq!(o, Some("2024-01-15 09:00:00".to_string()));
    assert_eq!(e, Some("2024-01-16 07:00:00".to_string()));
    let mut r = ethernet_raw();
    r.registry = reg;
    let a = parse_adapter(&r).unwrap();
    assert_eq!(a.dhcp_lease_obtained.as_deref(), Some("2024-01-15 09:00:00"));
    assert_eq!(a.dhcp_lease_expires.as_deref(), Some("2024-01-16 07:00:00"));
}

#[test]
fn filetimes() {
    assert!(filetime_to_string(0, 0).is_none());
    assert!(filetime_to_string(116_444_736_000_000_000, 0).is_none());
    assert!(filetime_to_string(-5, 0).is_none());
    let ft = 116_444_736_000_000_000 + 17_053_056_000_000_000 + 9_999_999;
    assert_eq!(filetime_to_string(ft, 0), Some("2024-01-15 08:00:00".to_string()));
    assert_eq!(filetime_to_string(ft, 1800), Some("2024-01-15 08:30:00".to_string()));
}

#[test]
fn address_texts() {
    assert_eq!(ip_to_string(&RawIp::V4([10, 0, 0, 255])), "10.0.0.255");
    assert_eq!(ip_to_string(&RawIp::V6([0; 16])), "::");
    let list = vec![None, Some(RawIp::V4([1, 2, 3, 4])), Some(RawIp::V6([0; 16]))];
    assert_eq!(present_ip_texts(&list), vec!["1.2.3.4".to_string(), "::".to_string()]);
    assert_eq!(first_ipv4_text(&list), Some("1.2.3.4".to_string()));
    assert_eq!(first_ipv4_text(&vec![None]), None);
}
