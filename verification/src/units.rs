use vstd::prelude::*;
use crate::num::{nearest_f64, nearest_f64_u64, round_half_even, round_half_even_u128, rounded_ratio, rounded_ratio_u128};
use crate::text::{decimal, digit, digit_char, push_char, push_decimal};

verus! {

/// Divisor of the binary unit that `format_bytes` picks for `bytes`.
pub open spec fn byte_scale(bytes: nat) -> nat {
    if bytes < 1024 {
        1
    } else if bytes < 1048576 {
        1024
    } else if bytes < 1073741824 {
        1048576
    } else if bytes < 1099511627776 {
        1073741824
    } else {
        1099511627776
    }
}

/// Name of the binary unit that `format_bytes` picks for `bytes`.
pub open spec fn byte_unit(bytes: nat) -> Seq<char> {
    if bytes < 1024 {
        "B"@
    } else if bytes < 1048576 {
        "KiB"@
    } else if bytes < 1073741824 {
        "MiB"@
    } else if bytes < 1099511627776 {
        "GiB"@
    } else {
        "TiB"@
    }
}

/// `c / 100` written with exactly two decimals.
pub open spec fn fixed2(c: nat) -> Seq<char> {
    decimal(c / 100) + seq!['.', digit_char(c % 100 / 10), digit_char(c % 10)]
}

/// Text of `format_bytes`: below 1 KiB the exact count and ` B`; otherwise the value of the
/// double nearest to `bytes`, divided by the unit (KiB up to TiB), with two decimals rounded
/// half to even, a space and the unit.
pub open spec fn format_bytes_text(bytes: nat) -> Seq<char> {
    if bytes < 1024 {
        decimal(bytes) + " B"@
    } else {
        fixed2(round_half_even(100 * nearest_f64(bytes), byte_scale(bytes))) + seq![' ']
            + byte_unit(bytes)
    }
}

/// Divisor of the decimal unit that `format_speed` picks for `bps` (at least 1 bps).
pub open spec fn speed_scale(bps: nat) -> nat {
    if bps >= 1_000_000_000 {
        1_000_000_000
    } else if bps >= 1_000_000 {
        1_000_000
    } else {
        1000
    }
}

/// Name of the decimal unit that `format_speed` picks for `bps` (at least 1000 bps).
pub open spec fn speed_unit(bps: nat) -> Seq<char> {
    if bps >= 1_000_000_000 {
        " Gbps"@
    } else if bps >= 1_000_000 {
        " Mbps"@
    } else {
        " Kbps"@
    }
}

/// Text of `format_speed`: `unknown` for 0, the exact count and ` bps` below 1000, otherwise
/// the quotient of the double nearest to `bps` by the unit, taken as a double and rounded to
/// a whole number (ties to even), followed by the unit.
pub open spec fn format_speed_text(bps: nat) -> Seq<char> {
    if bps == 0 {
        "unknown"@
    } else if bps < 1000 {
        decimal(bps) + " bps"@
    } else {
        decimal(rounded_ratio(nearest_f64(bps), speed_scale(bps))) + speed_unit(bps)
    }
}

/// Human-readable byte count with binary units (B, KiB, MiB, GiB, TiB).
pub fn format_bytes(bytes: u64) -> (s: String)
    ensures
        s@ == format_bytes_text(bytes as nat),
{
    let mut out = String::new();
    if bytes < 1024 {
        push_decimal(&mut out, bytes);
        out.append(" B");
        return out;
    }
    let (scale, unit): (u128, &str) = if bytes < 1048576 {
        (1024, "KiB")
    } else if bytes < 1073741824 {
        (1048576, "MiB")
    } else if bytes < 1099511627776 {
        (1073741824, "GiB")
    } else {
        (1099511627776, "TiB")
    };
    let v = nearest_f64_u64(bytes);
    let c = round_half_even_u128(100 * v, scale);
    assert(c / 100 < 0x1_0000_0000_0000_0000) by (nonlinear_arith)
        requires
            c <= (100 * v) as u128 / scale + 1,
            v <= bytes + 2048,
            bytes < 0x1_0000_0000_0000_0000,
            scale >= 1024,
    ;
    push_decimal(&mut out, (c / 100) as u64);
    push_char(&mut out, '.');
    push_char(&mut out, digit((c % 100 / 10) as u64));
    push_char(&mut out, digit((c % 10) as u64));
    push_char(&mut out, ' ');
    out.append(unit);
    out
}

/// Human-readable link speed with decimal units (bps, Kbps, Mbps, Gbps); `unknown` for 0.
pub fn format_speed(bps: u64) -> (s: String)
    ensures
        s@ == format_speed_text(bps as nat),
{
    let mut out = String::new();
    if bps == 0 {
        out.append("unknown");
        return out;
    }
    if bps < 1000 {
        push_decimal(&mut out, bps);
        out.append(" bps");
        return out;
    }
    let (scale, unit): (u64, &str) = if bps >= 1_000_000_000 {
        (1_000_000_000, " Gbps")
    } else if bps >= 1_000_000 {
        (1_000_000, " Mbps")
    } else {
        (1000, " Kbps")
    };
    let v = nearest_f64_u64(bps);
    proof {
        vstd::arithmetic::power2::lemma2_to64_rest();
    }
    let q = rounded_ratio_u128(v, scale);
    push_decimal(&mut out, q);
    out.append(unit);
    out
}

} // verus!
