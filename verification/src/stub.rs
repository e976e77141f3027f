use vstd::prelude::*;
use crate::display::opt_str;
use crate::text::{owned, texts};
use crate::types::{AdapterFlags, AdapterInfo, AdapterStats, AdapterStatus, AdapterType, IpAddress, IpScope};

verus! {

/// Flags of a sample adapter: running when up, multicast, nothing else beyond those given.
pub open spec fn stub_flags(up: bool, broadcast: bool, loopback: bool, no_arp: bool, dhcp: bool) -> AdapterFlags {
    AdapterFlags {
        up,
        broadcast,
        debug: false,
        loopback,
        point_to_point: false,
        running: up,
        no_arp,
        promisc: false,
        multicast: true,
        dynamic: false,
        dhcp,
    }
}

fn flags(up: bool, broadcast: bool, loopback: bool, no_arp: bool, dhcp: bool) -> (f: AdapterFlags)
    ensures
        f == (AdapterFlags {
            up,
            broadcast,
            debug: false,
            loopback,
            point_to_point: false,
            running: up,
            no_arp,
            promisc: false,
            multicast: true,
            dynamic: false,
            dhcp,
        }),
{
    AdapterFlags {
        up,
        broadcast,
        debug: false,
        loopback,
        point_to_point: false,
        running: up,
        no_arp,
        promisc: false,
        multicast: true,
        dynamic: false,
        dhcp,
    }
}

/// The text of an optional literal.
pub open spec fn opt_lit(o: Option<&str>) -> Option<Seq<char>> {
    match o {
        Some(s) => Some(s@),
        None => None,
    }
}

/// An address entry with the given text, prefix length, netmask, broadcast address and scope.
pub open spec fn address_is(ip: IpAddress, address: Seq<char>, prefix_len: u8, netmask: Option<Seq<char>>, broadcast: Option<Seq<char>>, scope: IpScope) -> bool {
    &&& ip.address@ == address
    &&& ip.prefix_len == prefix_len
    &&& opt_str(ip.netmask) == netmask
    &&& opt_str(ip.broadcast) == broadcast
    &&& ip.scope == scope
}

/// Counters with the given received and sent (bytes, packets, errors, dropped, unicast,
/// multicast, broadcast) and collisions.
pub open spec fn stats_are(s: AdapterStats, rx: (u64, u64, u64, u64, u64, u64, u64), tx: (u64, u64, u64, u64, u64, u64, u64), collisions: u64) -> bool {
    &&& s.rx_bytes == rx.0 && s.rx_packets == rx.1 && s.rx_errors == rx.2 && s.rx_dropped == rx.3
    &&& s.rx_unicast == rx.4 && s.rx_multicast == rx.5 && s.rx_broadcast == rx.6
    &&& s.tx_bytes == tx.0 && s.tx_packets == tx.1 && s.tx_errors == tx.2 && s.tx_dropped == tx.3
    &&& s.tx_unicast == tx.4 && s.tx_multicast == tx.5 && s.tx_broadcast == tx.6
    &&& s.collisions == collisions
}

/// The sample loopback interface `lo` (index 1): up, 127.0.0.1/8 and ::1/128, no hardware
/// address, MTU 65536, metric 75.
pub open spec fn is_loopback_sample(a: AdapterInfo) -> bool {
    &&& a.index == 1
    &&& a.name@ == "lo"@
    &&& a.friendly_name@ == "Loopback"@
    &&& a.description@ == "Software Loopback Interface 1"@
    &&& a.adapter_type == AdapterType::Loopback
    &&& a.status == AdapterStatus::Up
    &&& a.mac_address is None
    &&& a.ipv4_addresses@.len() == 1
    &&& address_is(a.ipv4_addresses@[0], "127.0.0.1"@, 8, Some("255.0.0.0"@), None, IpScope::Loopback)
    &&& a.ipv6_addresses@.len() == 1
    &&& address_is(a.ipv6_addresses@[0], "::1"@, 128, None, None, IpScope::Loopback)
    &&& a.gateway is None
    &&& a.dns_servers@.len() == 0
    &&& !a.dhcp_enabled
    &&& a.dhcp_server is None
    &&& a.dhcp_lease_obtained is None
    &&& a.dhcp_lease_expires is None
    &&& a.mtu == 65536
    &&& a.speed is None
    &&& a.metric == 75
    &&& a.stats matches Some(s) && stats_are(
        s,
        (1_234_567, 12_345, 0, 0, 12_000, 200, 145),
        (1_234_567, 12_345, 0, 0, 12_000, 200, 145),
        0,
    )
    &&& a.flags == stub_flags(true, false, true, true, false)
    &&& a.wins_servers@.len() == 0
}

/// The sample Ethernet interface (index 2): up, 192.168.1.100/24 with its netmask and
/// broadcast address, a link-local IPv6 address, gateway, two DNS servers, a DHCP lease,
/// 1 Gbps, MTU 1500, metric 25.
pub open spec fn is_ethernet_sample(a: AdapterInfo) -> bool {
    &&& a.index == 2
    &&& a.name@ == "Ethernet"@
    &&& a.friendly_name@ == "Ethernet"@
    &&& a.description@ == "Intel(R) Ethernet Connection I219-V"@
    &&& a.adapter_type == AdapterType::Ethernet
    &&& a.status == AdapterStatus::Up
    &&& opt_str(a.mac_address) == Some("A4:BB:6D:23:91:F0"@)
    &&& a.ipv4_addresses@.len() == 1
    &&& address_is(
        a.ipv4_addresses@[0],
        "192.168.1.100"@,
        24,
        Some("255.255.255.0"@),
        Some("192.168.1.255"@),
        IpScope::Global,
    )
    &&& a.ipv6_addresses@.len() == 1
    &&& address_is(a.ipv6_addresses@[0], "fe80::1a2b:3c4d:5e6f:7890"@, 64, None, None, IpScope::LinkLocal)
    &&& opt_str(a.gateway) == Some("192.168.1.1"@)
    &&& texts(a.dns_servers@) == seq!["8.8.8.8"@, "8.8.4.4"@]
    &&& a.dhcp_enabled
    &&& opt_str(a.dhcp_server) == Some("192.168.1.1"@)
    &&& opt_str(a.dhcp_lease_obtained) == Some("2024-01-15 08:00:00"@)
    &&& opt_str(a.dhcp_lease_expires) == Some("2024-01-16 08:00:00"@)
    &&& a.mtu == 1500
    &&& a.speed == Some(1_000_000_000u64)
    &&& a.metric == 25
    &&& a.stats matches Some(s) && stats_are(
        s,
        (9_876_543_210, 7_654_321, 3, 12, 7_000_000, 50_000, 604_321),
        (1_234_567_890, 1_234_567, 0, 1, 1_200_000, 10_000, 24_567),
        0,
    )
    &&& a.flags == stub_flags(true, true, false, false, true)
    &&& a.wins_servers@.len() == 0
}

/// The sample Wi-Fi interface (index 3): down, no addresses, DHCP enabled without a lease,
/// 1.201 Gbps, MTU 1500, metric 35, all counters zero.
pub open spec fn is_wifi_sample(a: AdapterInfo) -> bool {
    &&& a.index == 3
    &&& a.name@ == "Wi-Fi"@
    &&& a.friendly_name@ == "Wi-Fi"@
    &&& a.description@ == "Intel(R) Wi-Fi 6 AX200 160MHz"@
    &&& a.adapter_type == AdapterType::WiFi
    &&& a.status == AdapterStatus::Down
    &&& opt_str(a.mac_address) == Some("D0:AB:D5:CC:72:11"@)
    &&& a.ipv4_addresses@.len() == 0
    &&& a.ipv6_addresses@.len() == 0
    &&& a.gateway is None
    &&& a.dns_servers@.len() == 0
    &&& a.dhcp_enabled
    &&& a.dhcp_server is None
    &&& a.dhcp_lease_obtained is None
    &&& a.dhcp_lease_expires is None
    &&& a.mtu == 1500
    &&& a.speed == Some(1_201_000_000u64)
    &&& a.metric == 35
    &&& a.stats matches Some(s) && stats_are(s, (0, 0, 0, 0, 0, 0, 0), (0, 0, 0, 0, 0, 0, 0), 0)
    &&& a.flags == stub_flags(false, true, false, false, true)
    &&& a.wins_servers@.len() == 0
}

fn address(a: &str, prefix_len: u8, netmask: Option<&str>, broadcast: Option<&str>, scope: IpScope) -> (ip: IpAddress)
    ensures
        address_is(ip, a@, prefix_len, opt_lit(netmask), opt_lit(broadcast), scope),
{
    IpAddress {
        address: owned(a),
        prefix_len,
        netmask: match netmask {
            Some(m) => Some(owned(m)),
            None => None,
        },
        broadcast: match broadcast {
            Some(b) => Some(owned(b)),
            None => None,
        },
        scope,
    }
}

fn loopback_stub() -> (a: AdapterInfo)
    ensures
        is_loopback_sample(a),
{
    AdapterInfo {
        index: 1,
        name: owned("lo"),
        friendly_name: owned("Loopback"),
        description: owned("Software Loopback Interface 1"),
        adapter_type: AdapterType::Loopback,
        status: AdapterStatus::Up,
        mac_address: None,
        ipv4_addresses: vec![address("127.0.0.1", 8, Some("255.0.0.0"), None, IpScope::Loopback)],
        ipv6_addresses: vec![address("::1", 128, None, None, IpScope::Loopback)],
        gateway: None,
        dns_servers: vec![],
        dhcp_enabled: false,
        dhcp_server: None,
        dhcp_lease_obtained: None,
        dhcp_lease_expires: None,
        mtu: 65536,
        speed: None,
        metric: 75,
        stats: Some(AdapterStats {
            rx_bytes: 1_234_567,
            rx_packets: 12_345,
            rx_errors: 0,
            rx_dropped: 0,
            rx_unicast: 12_000,
            rx_multicast: 200,
            rx_broadcast: 145,
            tx_bytes: 1_234_567,
            tx_packets: 12_345,
            tx_errors: 0,
            tx_dropped: 0,
            tx_unicast: 12_000,
            tx_multicast: 200,
            tx_broadcast: 145,
            collisions: 0,
        }),
        flags: flags(true, false, true, true, false),
        wins_servers: vec![],
    }
}

fn ethernet_stub() -> (a: AdapterInfo)
    ensures
        is_ethernet_sample(a),
{
    let mac = owned("A4:BB:6D:23:91:F0");
    let gw = owned("192.168.1.1");
    let dns = vec![owned("8.8.8.8"), owned("8.8.4.4")];
    assert(texts(dns@) =~= seq!["8.8.8.8"@, "8.8.4.4"@]);
    let srv = owned("192.168.1.1");
    let obtained = owned("2024-01-15 08:00:00");
    let expires = owned("2024-01-16 08:00:00");
    AdapterInfo {
        index: 2,
        name: owned("Ethernet"),
        friendly_name: owned("Ethernet"),
        description: owned("Intel(R) Ethernet Connection I219-V"),
        adapter_type: AdapterType::Ethernet,
        status: AdapterStatus::Up,
        mac_address: Some(mac),
        ipv4_addresses: vec![address("192.168.1.100", 24, Some("255.255.255.0"), Some("192.168.1.255"), IpScope::Global)],
        ipv6_addresses: vec![address("fe80::1a2b:3c4d:5e6f:7890", 64, None, None, IpScope::LinkLocal)],
        gateway: Some(gw),
        dns_servers: dns,
        dhcp_enabled: true,
        dhcp_server: Some(srv),
        dhcp_lease_obtained: Some(obtained),
        dhcp_lease_expires: Some(expires),
        mtu: 1500,
        speed: Some(1_000_000_000),
        metric: 25,
        stats: Some(AdapterStats {
            rx_bytes: 9_876_543_210,
            rx_packets: 7_654_321,
            rx_errors: 3,
            rx_dropped: 12,
            rx_unicast: 7_000_000,
            rx_multicast: 50_000,
            rx_broadcast: 604_321,
            tx_bytes: 1_234_567_890,
            tx_packets: 1_234_567,
            tx_errors: 0,
            tx_dropped: 1,
            tx_unicast: 1_200_000,
            tx_multicast: 10_000,
            tx_broadcast: 24_567,
            collisions: 0,
        }),
        flags: flags(true, true, false, false, true),
        wins_servers: vec![],
    }
}

fn wifi_stub() -> (a: AdapterInfo)
    ensures
        is_wifi_sample(a),
{
    let mac = owned("D0:AB:D5:CC:72:11");
    AdapterInfo {
        index: 3,
        name: owned("Wi-Fi"),
        friendly_name: owned("Wi-Fi"),
        description: owned("Intel(R) Wi-Fi 6 AX200 160MHz"),
        adapter_type: AdapterType::WiFi,
        status: AdapterStatus::Down,
        mac_address: Some(mac),
        ipv4_addresses: vec![],
        ipv6_addresses: vec![],
        gateway: None,
        dns_servers: vec![],
        dhcp_enabled: true,
        dhcp_server: None,
        dhcp_lease_obtained: None,
        dhcp_lease_expires: None,
        mtu: 1500,
        speed: Some(1_201_000_000),
        metric: 35,
        stats: Some(AdapterStats {
            rx_bytes: 0,
            rx_packets: 0,
            rx_errors: 0,
            rx_dropped: 0,
            rx_unicast: 0,
            rx_multicast: 0,
            rx_broadcast: 0,
            tx_bytes: 0,
            tx_packets: 0,
            tx_errors: 0,
            tx_dropped: 0,
            tx_unicast: 0,
            tx_multicast: 0,
            tx_broadcast: 0,
            collisions: 0,
        }),
        flags: flags(false, true, false, false, true),
        wins_servers: vec![],
    }
}

/// The sample adapters shown where the system cannot be asked: a loopback interface that is
/// up, an Ethernet interface that is up with an address, gateway, DNS and DHCP lease, and a
/// Wi-Fi interface that is down.
pub fn get_stub_adapters() -> (r: Vec<AdapterInfo>)
    ensures
        r@.len() == 3,
        is_loopback_sample(r@[0]),
        is_ethernet_sample(r@[1]),
        is_wifi_sample(r@[2]),
{
    vec![loopback_stub(), ethernet_stub(), wifi_stub()]
}

} // verus!
