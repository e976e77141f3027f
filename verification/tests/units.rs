use ifconfig::units::{format_bytes, format_speed};

fn bytes_oracle(bytes: u64) -> String {
    let units = ["B", "KiB", "MiB", "GiB", "TiB"];
    let mut value = bytes as f64;
    let mut unit_idx = 0;
    while value >= 1024.0 && unit_idx < units.len() - 1 {
        value /= 1024.0;
        unit_idx += 1;
    }
    if unit_idx == 0 {
        format!("{} B", bytes)
    } else {
        format!("{:.2} {}", value, units[unit_idx])
    }
}

fn speed_oracle(bps: u64) -> String {
    if bps == 0 {
        return "unknown".to_string();
    }
    if bps >= 1_000_000_000 {
        format!("{:.0} Gbps", bps as f64 / 1_000_000_000.0)
    } else if bps >= 1_000_000 {
        format!("{:.0} Mbps", bps as f64 / 1_000_000.0)
    } else if bps >= 1_000 {
        format!("{:.0} Kbps", bps as f64 / 1_000.0)
    } else {
        format!("{} bps", bps)
    }
}

fn samples() -> Vec<u64> {
    let mut v: Vec<u64> = Vec::new();
    for i in 0..5000u64 {
        v.push(i);
    }
    let mut x: u64 = 0x9E37_79B9_7F4A_7C15;
    for _ in 0..20000 {
        x ^= x << 13;
        x ^= x >> 7;
        x ^= x << 17;
        v.push(x);
        v.push(x >> 20);
        v.push(x >> 40);
        v.push(x >> 30);
        v.push(x >> 10);
    }
    for k in 0..64u32 {
        let p = 1u64 << k;
        v.push(p);
        v.push(p - 1);
        v.push(p + 1);
    }
    for e in 0..20u32 {
        let p = 10u64.pow(e);
        for d in [0u64, 1, 499, 500, 501, 999] {
            v.push(p.saturating_add(d));
            v.push(p.saturating_mul(5).saturating_add(d));
        }
    }
    for unit in [1024u64, 1024 * 1024, 1024 * 1024 * 1024, 1u64 << 40] {
        for hundredths in 0..2000u64 {
            v.push(unit * hundredths / 100);
            v.push(unit * (2 * hundredths + 1) / 200);
            v.push(unit * (2 * hundredths + 1) / 200 + 1);
        }
    }
    v.push(u64::MAX);
    v.push(u64::MAX - 1);
    v
}

#[test]
fn format_bytes_matches_float_formatting() {
    for b in samples() {
        assert_eq!(format_bytes(b), bytes_oracle(b), "bytes = {}", b);
    }
}

#[test]
fn format_speed_matches_float_formatting() {
    for s in samples() {
        assert_eq!(format_speed(s), speed_oracle(s), "bps = {}", s);
    }
}

#[test]
fn format_bytes_small_values_are_exact() {
    assert_eq!(format_bytes(0), "0 B");
    assert_eq!(format_bytes(1), "1 B");
    assert_eq!(format_bytes(1023), "1023 B");
}

#[test]
fn format_bytes_readme_values() {
    assert_eq!(format_bytes(9_876_543_210), "9.20 GiB");
    assert_eq!(format_bytes(1_234_567_890), "1.15 GiB");
    assert_eq!(format_bytes(1024), "1.00 KiB");
    assert_eq!(format_bytes(1_234_567), "1.18 MiB");
    assert_eq!(format_bytes(1u64 << 40), "1.00 TiB");
    assert_eq!(format_bytes(1u64 << 50), "1024.00 TiB");
}

#[test]
fn format_bytes_ties_round_to_even() {
    assert_eq!(format_bytes(1152), bytes_oracle(1152));
    assert_eq!(format_bytes(1160), bytes_oracle(1160));
}

#[test]
fn format_speed_units() {
    assert_eq!(format_speed(0), "unknown");
    assert_eq!(format_speed(999), "999 bps");
    assert_eq!(format_speed(1_000), "1 Kbps");
    assert_eq!(format_speed(1_000_000), "1 Mbps");
    assert_eq!(format_speed(1_000_000_000), "1 Gbps");
    assert_eq!(format_speed(1_201_000_000), "1 Gbps");
    assert_eq!(format_speed(2_500_000_000), speed_oracle(2_500_000_000));
    assert_eq!(format_speed(10_000_000_000), "10 Gbps");
    assert_eq!(format_speed(100_000_000), "100 Mbps");
}
