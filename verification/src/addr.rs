use vstd::prelude::*;
use vstd::arithmetic::power2::{pow2, lemma2_to64, lemma_pow2_pos, lemma_pow2_strictly_increases};
use crate::num::pow2_u64;
use crate::text::{decimal, digit, digit_char, join, lemma_join_push, push_char, push_decimal, push_joined};
use crate::types::IpScope;

verus! {

/// Dotted-decimal text of the four octets `o`.
pub open spec fn ipv4_text(o: Seq<u8>) -> Seq<char> {
    decimal(o[0] as nat) + seq!['.'] + decimal(o[1] as nat) + seq!['.'] + decimal(o[2] as nat)
        + seq!['.'] + decimal(o[3] as nat)
}

/// The four octets of a 32-bit address value, most significant first.
pub open spec fn octets_of(x: nat) -> Seq<u8> {
    seq![(x / 16777216 % 256) as u8, (x / 65536 % 256) as u8, (x / 256 % 256) as u8, (x % 256) as u8]
}

/// The 32-bit value of four octets, most significant first.
pub open spec fn value_of(o: Seq<u8>) -> nat {
    (o[0] as nat) * 16777216 + (o[1] as nat) * 65536 + (o[2] as nat) * 256 + (o[3] as nat)
}

/// The netmask with the `prefix_len` leading bits set (all 32 bits from 32 on).
pub open spec fn netmask_value(prefix_len: nat) -> nat {
    if prefix_len >= 32 {
        (pow2(32) - 1) as nat
    } else {
        (pow2(32) - pow2((32 - prefix_len) as nat)) as nat
    }
}

/// `ip` with every bit outside the first `prefix_len` bits set.
pub open spec fn broadcast_value(ip: nat, prefix_len: nat) -> nat {
    if prefix_len >= 32 {
        ip
    } else {
        let h = pow2((32 - prefix_len) as nat);
        ip / h * h + (h - 1) as nat
    }
}

/// Scope of an IPv4 address: 127/8 is the host, 169.254/16 the link.
pub open spec fn ipv4_scope(o: Seq<u8>) -> IpScope {
    if o[0] == 127 {
        IpScope::Loopback
    } else if o[0] == 169 && o[1] == 254 {
        IpScope::LinkLocal
    } else {
        IpScope::Global
    }
}

/// Whether the sixteen octets are `::1`.
pub open spec fn is_ipv6_loopback(o: Seq<u8>) -> bool {
    &&& forall|i: int| 0 <= i < 15 ==> o[i] == 0
    &&& o[15] == 1
}

/// Scope of an IPv6 address: `::1` is the host, fe80::/10 the link, fec0::/10 the site.
/// The first ten bits of the address are `o[0]` followed by the top two bits of `o[1]`.
pub open spec fn ipv6_scope(o: Seq<u8>) -> IpScope {
    if is_ipv6_loopback(o) {
        IpScope::Loopback
    } else if o[0] == 0xFE && o[1] / 64 == 2 {
        IpScope::LinkLocal
    } else if o[0] == 0xFE && o[1] / 64 == 3 {
        IpScope::SiteLocal
    } else {
        IpScope::Global
    }
}

/// Upper-case hexadecimal digit for `d < 16`.
pub open spec fn hex_char(d: nat) -> char {
    if d < 10 {
        digit_char(d)
    } else {
        (55 + d) as char
    }
}

/// A byte as two upper-case hexadecimal digits.
pub open spec fn hex_pair(b: u8) -> Seq<char> {
    seq![hex_char(b as nat / 16), hex_char(b as nat % 16)]
}

/// Hardware address text: the bytes as hexadecimal pairs joined with colons.
pub open spec fn mac_text(bytes: Seq<u8>) -> Seq<char> {
    join(bytes.map_values(|b: u8| hex_pair(b)), ":"@)
}

/// Dotted-decimal text of an IPv4 address.
pub fn ipv4_to_string(o: [u8; 4]) -> (s: String)
    ensures
        s@ == ipv4_text(o@),
{
    let mut s = String::new();
    push_decimal(&mut s, o[0] as u64);
    push_char(&mut s, '.');
    push_decimal(&mut s, o[1] as u64);
    push_char(&mut s, '.');
    push_decimal(&mut s, o[2] as u64);
    push_char(&mut s, '.');
    push_decimal(&mut s, o[3] as u64);
    s
}

/// The octets of a 32-bit value.
pub fn u32_octets(x: u32) -> (o: [u8; 4])
    ensures
        o@ == octets_of(x as nat),
{
    let o = [(x / 16777216 % 256) as u8, (x / 65536 % 256) as u8, (x / 256 % 256) as u8, (x % 256) as u8];
    assert(o@ =~= octets_of(x as nat));
    o
}

/// Dotted-decimal netmask for a prefix length (`0.0.0.0` for 0).
pub fn prefix_to_netmask_v4(prefix_len: u8) -> (s: String)
    ensures
        s@ == ipv4_text(octets_of(netmask_value(prefix_len as nat))),
{
    proof {
        lemma2_to64();
    }
    let mask: u32 = if prefix_len >= 32 {
        0xFFFF_FFFF
    } else {
        let h = pow2_u64((32 - prefix_len) as u32);
        proof {
            lemma_pow2_pos((32 - prefix_len) as nat);
            if prefix_len > 0 {
                lemma_pow2_strictly_increases((32 - prefix_len) as nat, 32);
            }
        }
        (0x1_0000_0000u64 - h) as u32
    };
    ipv4_to_string(u32_octets(mask))
}

/// Dotted-decimal broadcast address of `addr` in a network of `prefix_len` bits.
pub fn calc_broadcast_v4(addr: [u8; 4], prefix_len: u8) -> (s: String)
    requires
        prefix_len > 0,
    ensures
        s@ == ipv4_text(octets_of(broadcast_value(value_of(addr@), prefix_len as nat))),
{
    proof {
        lemma2_to64();
    }
    let ip: u64 = addr[0] as u64 * 16777216 + addr[1] as u64 * 65536 + addr[2] as u64 * 256 + addr[3] as u64;
    let b: u64 = if prefix_len >= 32 {
        ip
    } else {
        let h = pow2_u64((32 - prefix_len) as u32);
        proof {
            lemma_pow2_pos((32 - prefix_len) as nat);
            vstd::arithmetic::power2::lemma_pow2_adds(prefix_len as nat, (32 - prefix_len) as nat);
        }
        let ghost k = pow2(prefix_len as nat);
        assert(ip / h * h + (h - 1) < 0x1_0000_0000) by (nonlinear_arith)
            requires
                ip < 0x1_0000_0000,
                h > 0,
                k * h == 0x1_0000_0000,
        {
            assert(ip / h < k);
            assert(ip / h <= k - 1);
            assert(ip / h * h <= (k - 1) * h);
        }
        ip / h * h + (h - 1)
    };
    ipv4_to_string(u32_octets(b as u32))
}

/// Scope of an IPv4 address.
pub fn classify_ipv4_scope(o: [u8; 4]) -> (s: IpScope)
    ensures
        s == ipv4_scope(o@),
{
    if o[0] == 127 {
        IpScope::Loopback
    } else if o[0] == 169 && o[1] == 254 {
        IpScope::LinkLocal
    } else {
        IpScope::Global
    }
}

/// Scope of an IPv6 address.
pub fn classify_ipv6_scope(o: [u8; 16]) -> (s: IpScope)
    ensures
        s == ipv6_scope(o@),
{
    let mut loopback = o[15] == 1;
    let mut i: usize = 0;
    while i < 15
        invariant
            i <= 15,
            loopback == (o@[15] == 1 && forall|j: int| 0 <= j < i ==> o@[j] == 0),
        decreases 15 - i,
    {
        if o[i] != 0 {
            loopback = false;
        }
        i = i + 1;
    }
    if loopback {
        IpScope::Loopback
    } else if o[0] == 0xFE && o[1] / 64 == 2 {
        IpScope::LinkLocal
    } else if o[0] == 0xFE && o[1] / 64 == 3 {
        IpScope::SiteLocal
    } else {
        IpScope::Global
    }
}

/// Upper-case hexadecimal digit.
pub fn hex_digit(d: u8) -> (c: char)
    requires
        d < 16,
    ensures
        c == hex_char(d as nat),
{
    if d < 10 {
        digit(d as u64)
    } else {
        (55 + d) as char
    }
}

/// Hardware address text, e.g. `A4:BB:6D:23:91:F0`.
pub fn format_mac(bytes: &[u8]) -> (s: String)
    ensures
        s@ == mac_text(bytes@),
{
    let mut s = String::new();
    let ghost f = |b: u8| hex_pair(b);
    let n = bytes.len();
    let mut i: usize = 0;
    while i < n
        invariant
            i <= n == bytes@.len(),
            s@ == join(bytes@.take(i as int).map_values(f), ":"@),
            f == (|b: u8| hex_pair(b)),
        decreases n - i,
    {
        let b = bytes[i];
        proof {
            lemma_join_push(bytes@.take(i as int).map_values(f), hex_pair(b), ":"@);
            assert(bytes@.take(i + 1).map_values(f) =~= bytes@.take(i as int).map_values(f).push(hex_pair(b)));
        }
        if i > 0 {
            push_char(&mut s, ':');
        }
        push_char(&mut s, hex_digit(b / 16));
        push_char(&mut s, hex_digit(b % 16));
        proof {
            assert(":"@ == seq![':']) by {
                reveal_strlit(":");
            }
        }
        i = i + 1;
    }
    assert(bytes@.take(n as int) =~= bytes@);
    s
}


/// Lower-case hexadecimal digit for `d < 16`.
pub open spec fn hex_digit_lower(d: nat) -> char {
    if d < 10 {
        digit_char(d)
    } else {
        (87 + d) as char
    }
}

/// Lower-case hexadecimal notation of `n`, without leading zeros (`{:x}`).
pub open spec fn hex_lower(n: nat) -> Seq<char>
    decreases n,
{
    if n < 16 {
        seq![hex_digit_lower(n)]
    } else {
        hex_lower(n / 16).push(hex_digit_lower(n % 16))
    }
}

/// The eight 16-bit groups of an IPv6 address, most significant first.
pub open spec fn ipv6_groups(o: Seq<u8>) -> Seq<nat> {
    Seq::new(8, |i: int| (o[2 * i] as nat) * 256 + (o[2 * i + 1] as nat))
}

/// Groups in hexadecimal, separated by colons.
pub open spec fn hex_groups(g: Seq<nat>) -> Seq<char> {
    join(g.map_values(|n: nat| hex_lower(n)), ":"@)
}

/// The scan for runs of zero groups over the first `n` groups: the start and length of the
/// first of the longest runs seen, then the start and length of the run in progress.
pub open spec fn zero_scan(g: Seq<nat>, n: nat) -> (int, int, int, int)
    decreases n,
{
    if n == 0 {
        (0, 0, 0, 0)
    } else {
        let p = zero_scan(g, (n - 1) as nat);
        if g[n - 1] == 0 {
            let cs = if p.3 == 0 {
                n - 1
            } else {
                p.2
            };
            let cl = p.3 + 1;
            if cl > p.1 {
                (cs, cl, cs, cl)
            } else {
                (p.0, p.1, cs, cl)
            }
        } else {
            (p.0, p.1, 0, 0)
        }
    }
}

/// Whether the sixteen octets are an IPv4-mapped address (`::ffff:a.b.c.d`).
pub open spec fn is_ipv4_mapped(o: Seq<u8>) -> bool {
    &&& forall|i: int| 0 <= i < 10 ==> o[i] == 0
    &&& o[10] == 0xff
    &&& o[11] == 0xff
}

/// Text of an IPv6 address (`Ipv6Addr`'s display, RFC 5952): an IPv4-mapped address as
/// `::ffff:` and the dotted IPv4 text; otherwise the groups in lower-case hexadecimal
/// separated by colons, with the first of the longest runs of two or more zero groups
/// written as `::`.
pub open spec fn ipv6_text(o: Seq<u8>) -> Seq<char> {
    let g = ipv6_groups(o);
    let z = zero_scan(g, 8);
    if is_ipv4_mapped(o) {
        "::ffff:"@ + ipv4_text(o.subrange(12, 16))
    } else if z.1 > 1 {
        hex_groups(g.take(z.0)) + "::"@ + hex_groups(g.skip(z.0 + z.1))
    } else {
        hex_groups(g)
    }
}

fn hex_digit_lower_exec(d: u64) -> (c: char)
    requires
        d < 16,
    ensures
        c == hex_digit_lower(d as nat),
{
    if d < 10 {
        ((48 + d) as u8) as char
    } else {
        ((87 + d) as u8) as char
    }
}

fn push_hex(out: &mut String, n: u64)
    ensures
        final(out)@ == old(out)@ + hex_lower(n as nat),
    decreases n,
{
    if n >= 16 {
        push_hex(out, n / 16);
    }
    push_char(out, hex_digit_lower_exec(n % 16));
}

fn hex_groups_text(g: &Vec<u16>, lo: usize, hi: usize, Ghost(gs): Ghost<Seq<nat>>) -> (s: String)
    requires
        lo <= hi <= g@.len(),
        gs.len() == g@.len(),
        forall|k: int| 0 <= k < g@.len() ==> gs[k] == g@[k] as nat,
    ensures
        s@ == hex_groups(gs.subrange(lo as int, hi as int)),
{
    let mut s = String::new();
    let mut any = false;
    let mut i = lo;
    assert(gs.subrange(lo as int, lo as int).map_values(|n: nat| hex_lower(n)) =~= Seq::<Seq<char>>::empty());
    while i < hi
        invariant
            lo <= i <= hi <= g@.len(),
            gs.len() == g@.len(),
            forall|k: int| 0 <= k < g@.len() ==> gs[k] == g@[k] as nat,
            s@ == join(gs.subrange(lo as int, i as int).map_values(|n: nat| hex_lower(n)), ":"@),
            any == (i > lo),
        decreases hi - i,
    {
        let ghost parts = gs.subrange(lo as int, i as int).map_values(|n: nat| hex_lower(n));
        let mut h = String::new();
        push_hex(&mut h, g[i] as u64);
        assert(h@ =~= hex_lower(gs[i as int]));
        push_joined(&mut s, &mut any, h.as_str(), ":", Ghost(parts));
        assert(gs.subrange(lo as int, i + 1).map_values(|n: nat| hex_lower(n)) =~= parts.push(h@));
        i = i + 1;
    }
    s
}

/// Text of an IPv6 address, as `Ipv6Addr` displays it.
pub fn format_ipv6(o: [u8; 16]) -> (s: String)
    ensures
        s@ == ipv6_text(o@),
{
    let ghost gs = ipv6_groups(o@);
    let mut mapped = o[10] == 0xff && o[11] == 0xff;
    let mut i: usize = 0;
    while i < 10
        invariant
            i <= 10,
            mapped == (o[10] == 0xff && o[11] == 0xff && forall|k: int| 0 <= k < i ==> o@[k] == 0),
        decreases 10 - i,
    {
        if o[i] != 0 {
            mapped = false;
        }
        i = i + 1;
    }
    if mapped {
        let mut s = String::new();
        s.append("::ffff:");
        let v4 = ipv4_to_string([o[12], o[13], o[14], o[15]]);
        assert([o[12], o[13], o[14], o[15]]@ =~= o@.subrange(12, 16));
        s.append(v4.as_str());
        return s;
    }
    let mut g: Vec<u16> = Vec::new();
    let mut j: usize = 0;
    while j < 8
        invariant
            j <= 8,
            gs == ipv6_groups(o@),
            g@.len() == j,
            forall|k: int| 0 <= k < j ==> gs[k] == g@[k] as nat,
        decreases 8 - j,
    {
        g.push(o[2 * j] as u16 * 256 + o[2 * j + 1] as u16);
        j = j + 1;
    }
    let mut bs: usize = 0;
    let mut bl: usize = 0;
    let mut cs: usize = 0;
    let mut cl: usize = 0;
    let mut k: usize = 0;
    while k < 8
        invariant
            k <= 8,
            g@.len() == 8,
            gs == ipv6_groups(o@),
            forall|m: int| 0 <= m < 8 ==> gs[m] == g@[m] as nat,
            (bs as int, bl as int, cs as int, cl as int) == zero_scan(gs, k as nat),
            bs + bl <= k,
            cl > 0 ==> cs + cl == k,
            cl <= k,
        decreases 8 - k,
    {
        if g[k] == 0 {
            if cl == 0 {
                cs = k;
            }
            cl = cl + 1;
            if cl > bl {
                bs = cs;
                bl = cl;
            }
        } else {
            cs = 0;
            cl = 0;
        }
        k = k + 1;
    }
    if bl > 1 {
        let mut s = hex_groups_text(&g, 0, bs, Ghost(gs));
        s.append("::");
        let tail = hex_groups_text(&g, bs + bl, 8, Ghost(gs));
        s.append(tail.as_str());
        assert(gs.subrange(0, bs as int) =~= gs.take(bs as int));
        assert(gs.subrange(bs + bl, 8) =~= gs.skip(bs + bl));
        s
    } else {
        let s = hex_groups_text(&g, 0, 8, Ghost(gs));
        assert(gs.subrange(0, 8) =~= gs);
        s
    }
}

} // verus!
