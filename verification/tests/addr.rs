use ifconfig::addr::{
    calc_broadcast_v4, classify_ipv4_scope, classify_ipv6_scope, format_mac, ipv4_to_string,
    prefix_to_netmask_v4, u32_octets,
};
use ifconfig::control::prefix_to_mask;
use ifconfig::types::IpScope;

fn dotted(x: u32) -> String {
    format!("{}.{}.{}.{}", x >> 24, (x >> 16) & 255, (x >> 8) & 255, x & 255)
}

fn mask(p: u8) -> u32 {
    if p == 0 {
        0
    } else if p >= 32 {
        0xFFFF_FFFF
    } else {
        !((1u32 << (32 - p)) - 1)
    }
}

#[test]
fn netmasks_for_every_prefix() {
    for p in 0..=40u8 {
        assert_eq!(prefix_to_netmask_v4(p), dotted(mask(p)), "prefix {}", p);
        assert_eq!(prefix_to_mask(p), prefix_to_netmask_v4(p));
    }
    assert_eq!(prefix_to_netmask_v4(24), "255.255.255.0");
    assert_eq!(prefix_to_netmask_v4(0), "0.0.0.0");
    assert_eq!(prefix_to_netmask_v4(255), "255.255.255.255");
}

#[test]
fn broadcasts() {
    let addrs = [[192u8, 168, 1, 100], [10, 1, 2, 3], [127, 0, 0, 1], [255, 255, 255, 255], [0, 0, 0, 0]];
    for a in addrs {
        let ip = u32::from_be_bytes(a);
        for p in 1..=40u8 {
            let m = mask(p);
            assert_eq!(calc_broadcast_v4(a, p), dotted((ip & m) | !m));
        }
    }
    assert_eq!(calc_broadcast_v4([192, 168, 1, 100], 24), "192.168.1.255");
    assert_eq!(calc_broadcast_v4([192, 168, 1, 100], 32), "192.168.1.100");
}

#[test]
fn texts_and_octets() {
    assert_eq!(ipv4_to_string([0, 10, 100, 255]), "0.10.100.255");
    assert_eq!(u32_octets(0xC0A8_0164), [192, 168, 1, 100]);
    assert_eq!(format_mac(&[0xA4, 0xBB, 0x6D, 0x23, 0x91, 0xF0]), "A4:BB:6D:23:91:F0");
    assert_eq!(format_mac(&[0x00, 0x0f]), "00:0F");
    assert_eq!(format_mac(&[]), "");
}

#[test]
fn scopes() {
    assert_eq!(classify_ipv4_scope([127, 5, 5, 5]), IpScope::Loopback);
    assert_eq!(classify_ipv4_scope([169, 254, 1, 1]), IpScope::LinkLocal);
    assert_eq!(classify_ipv4_scope([169, 253, 1, 1]), IpScope::Global);
    assert_eq!(classify_ipv4_scope([8, 8, 8, 8]), IpScope::Global);
    let mut lo = [0u8; 16];
    lo[15] = 1;
    assert_eq!(classify_ipv6_scope(lo), IpScope::Loopback);
    let mut ll = [0u8; 16];
    ll[0] = 0xfe;
    ll[1] = 0x80;
    assert_eq!(classify_ipv6_scope(ll), IpScope::LinkLocal);
    ll[1] = 0xbf;
    assert_eq!(classify_ipv6_scope(ll), IpScope::LinkLocal);
    ll[1] = 0xc0;
    assert_eq!(classify_ipv6_scope(ll), IpScope::SiteLocal);
    ll[1] = 0x7f;
    assert_eq!(classify_ipv6_scope(ll), IpScope::Global);
    let mut g = [0u8; 16];
    g[0] = 0x20;
    g[1] = 0x01;
    assert_eq!(classify_ipv6_scope(g), IpScope::Global);
    assert_eq!(classify_ipv6_scope([0u8; 16]), IpScope::Global);
}
