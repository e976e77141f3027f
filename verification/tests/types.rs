use ifconfig::stub::get_stub_adapters;
use ifconfig::types::{AdapterFlags, AdapterStatus, AdapterType, IpScope};

fn no_flags() -> AdapterFlags {
    AdapterFlags {
        up: false,
        broadcast: false,
        debug: false,
        loopback: false,
        point_to_point: false,
        running: false,
        no_arp: false,
        promisc: false,
        multicast: false,
        dynamic: false,
        dhcp: false,
    }
}

#[test]
fn emoji_per_type() {
    assert_eq!(AdapterType::Ethernet.emoji(), "🔌");
    assert_eq!(AdapterType::WiFi.emoji(), "📶");
    assert_eq!(AdapterType::Loopback.emoji(), "🔁");
    assert_eq!(AdapterType::Tunnel.emoji(), "🚇");
    assert_eq!(AdapterType::PPP.emoji(), "🔗");
    assert_eq!(AdapterType::Bridge.emoji(), "🌉");
    assert_eq!(AdapterType::VPN.emoji(), "🔒");
    assert_eq!(AdapterType::Other("x".to_string()).emoji(), "🔧");
}

#[test]
fn type_status_scope_texts() {
    assert_eq!(AdapterType::WiFi.to_text(), "IEEE 802.11 (Wi-Fi)");
    assert_eq!(AdapterType::PPP.to_text(), "Point-to-Point");
    assert_eq!(AdapterType::Loopback.to_text(), "Local Loopback");
    assert_eq!(AdapterType::Other("Type(53)".to_string()).to_text(), "Type(53)");
    assert_eq!(AdapterStatus::Up.to_text(), "UP");
    assert_eq!(AdapterStatus::NotPresent.to_text(), "NOT-PRESENT");
    assert_eq!(AdapterStatus::LowerLayerDown.to_text(), "LOWER-LAYER-DOWN");
    assert_eq!(IpScope::LinkLocal.to_text(), "link");
    assert_eq!(IpScope::Loopback.to_text(), "host");
    assert_eq!(IpScope::SiteLocal.to_text(), "site");
    assert_eq!(IpScope::Global.to_text(), "global");
}

#[test]
fn flag_string_order() {
    assert_eq!(no_flags().to_flag_string(), "");
    let mut f = no_flags();
    f.up = true;
    f.broadcast = true;
    f.running = true;
    f.multicast = true;
    f.dhcp = true;
    assert_eq!(f.to_flag_string(), "UP,BROADCAST,RUNNING,MULTICAST,DHCP");
    let all = AdapterFlags {
        up: true,
        broadcast: true,
        debug: true,
        loopback: true,
        point_to_point: true,
        running: true,
        no_arp: true,
        promisc: true,
        multicast: true,
        dynamic: true,
        dhcp: true,
    };
    assert_eq!(all.to_flag_string(), "UP,BROADCAST,LOOPBACK,POINTOPOINT,RUNNING,NOARP,PROMISC,MULTICAST,DYNAMIC,DHCP");
    let mut d = no_flags();
    d.debug = true;
    assert_eq!(d.to_flag_string(), "");
}

#[test]
fn stub_adapters_are_the_samples() {
    let s = get_stub_adapters();
    assert_eq!(s.len(), 3);
    assert_eq!(s[0].name, "lo");
    assert_eq!(s[0].flags.to_flag_string(), "UP,LOOPBACK,RUNNING,NOARP,MULTICAST");
    assert_eq!(s[1].flags.to_flag_string(), "UP,BROADCAST,RUNNING,MULTICAST,DHCP");
    assert_eq!(s[2].flags.to_flag_string(), "BROADCAST,MULTICAST,DHCP");
    assert_eq!(s[1].description, "Intel(R) Ethernet Connection I219-V");
    assert_eq!(s[2].description, "Intel(R) Wi-Fi 6 AX200 160MHz");
    assert_eq!(s[1].ipv6_addresses[0].scope, IpScope::LinkLocal);
}
