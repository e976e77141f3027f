use ifconfig::addr::format_ipv6;

fn addr(g: [u16; 8]) -> [u8; 16] {
    let mut o = [0u8; 16];
    for i in 0..8 {
        o[2 * i] = (g[i] >> 8) as u8;
        o[2 * i + 1] = (g[i] & 0xff) as u8;
    }
    o
}

#[test]
fn ipv6_text_examples() {
    assert_eq!(format_ipv6(addr([0, 0, 0, 0, 0, 0, 0, 0])), "::");
    assert_eq!(format_ipv6(addr([0, 0, 0, 0, 0, 0, 0, 1])), "::1");
    assert_eq!(format_ipv6(addr([1, 0, 0, 0, 0, 0, 0, 0])), "1::");
    assert_eq!(format_ipv6(addr([0xfe80, 0, 0, 0, 0x1a2b, 0x3c4d, 0x5e6f, 0x7890])), "fe80::1a2b:3c4d:5e6f:7890");
    assert_eq!(format_ipv6(addr([0x2001, 0xdb8, 0, 0, 0, 0, 0, 1])), "2001:db8::1");
    assert_eq!(format_ipv6(addr([0x2001, 0xdb8, 0, 1, 1, 1, 1, 1])), "2001:db8:0:1:1:1:1:1");
    assert_eq!(format_ipv6(addr([0x2001, 0xdb8, 0, 0, 1, 0, 0, 1])), "2001:db8::1:0:0:1");
    assert_eq!(format_ipv6(addr([1, 0, 0, 2, 0, 0, 0, 3])), "1:0:0:2::3");
    assert_eq!(format_ipv6(addr([0xff02, 0, 0, 0, 0, 0, 0, 2])), "ff02::2");
    assert_eq!(format_ipv6(addr([0xABCD, 0xEF01, 0x2345, 0x6789, 0xabcd, 0xef01, 0x2345, 0x6789])), "abcd:ef01:2345:6789:abcd:ef01:2345:6789");
    assert_eq!(format_ipv6(addr([0, 0, 0, 0, 0, 0xffff, 0xc00a, 0x2ff])), "::ffff:192.10.2.255");
    assert_eq!(format_ipv6(addr([0, 0, 0, 0, 0, 0, 0xc00a, 0x2ff])), "::c00a:2ff");
    assert_eq!(format_ipv6(addr([0, 0, 0, 0, 0, 0xfffe, 0xc00a, 0x2ff])), "::fffe:c00a:2ff");
    assert_eq!(format_ipv6(addr([1, 2, 3, 4, 5, 6, 7, 0])), "1:2:3:4:5:6:7:0");
    assert_eq!(format_ipv6(addr([1, 0, 2, 0, 3, 0, 4, 0])), "1:0:2:0:3:0:4:0");
    assert_eq!(format_ipv6(addr([0, 0, 1, 0, 0, 0, 1, 0])), "0:0:1::1:0");
}
