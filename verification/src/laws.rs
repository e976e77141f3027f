use vstd::prelude::*;
use crate::adapter::{built_from, RawAdapter};
use crate::cli::Cli;
use crate::display::{
    address_lines, cast_line, dhcp_lines, entries, gateway_lines, head_lines, heading, metric_lines,
    stats_lines, LineView,
    adapters_view, full_lines, shown_by_default, json_selected, json_selection, text_selected, text_selection,
};
use crate::types::{AdapterInfo, AdapterStatus, IpScope};
use crate::addr::{broadcast_value, hex_char, hex_pair, mac_text, netmask_value};
use crate::addr::{ipv4_text, ipv6_scope};
use crate::control::{add_outcome, netsh_result, text_lines, del_plan, cidr_parse, is_hex_digit, lemma_first_index, mac_digits, mac_outcome, valid_ipv4_text, valid_mac};
use crate::text::{contains, texts, lowercase, occurs_at, all_digits, decimal, digit_char, digits_value, is_digit, join, lemma_split_fields_len, parse_u8, sign_stripped, split_fields};
use vstd::arithmetic::power2::{pow2, lemma2_to64, lemma_pow2_adds, lemma_pow2_pos, lemma_pow2_strictly_increases};
use vstd::arithmetic::div_mod::{lemma_fundamental_div_mod_converse_div, lemma_fundamental_div_mod_converse_mod};

verus! {

/// With `--all` and no interface named, every adapter is shown, in order.
pub proof fn law_all_shows_every_adapter(s: Seq<AdapterInfo>)
    ensures
        text_selection(s, None, true) == Seq::new(s.len(), |i: int| i),
        json_selection(s, None, true) == Seq::new(s.len(), |i: int| i),
    decreases s.len(),
{
    if s.len() > 0 {
        law_all_shows_every_adapter(s.drop_last());
        assert(text_selection(s, None, true) =~= Seq::new(s.len(), |i: int| i));
        assert(json_selection(s, None, true) =~= Seq::new(s.len(), |i: int| i));
    } else {
        assert(text_selection(s, None, true) =~= Seq::new(s.len(), |i: int| i));
        assert(json_selection(s, None, true) =~= Seq::new(s.len(), |i: int| i));
    }
}

/// Without `--all` and with no interface named, exactly the adapters that are up and are not
/// loopback interfaces are shown, in order.
pub proof fn law_default_shows_up_adapters(s: Seq<AdapterInfo>)
    ensures
        forall|i: int| 0 <= i < text_selection(s, None, false).len()
            ==> shown_by_default(s[#[trigger] text_selection(s, None, false)[i]]),
        forall|i: int| 0 <= i < s.len() ==> (shown_by_default(#[trigger] s[i]) <==> text_selection(s, None, false).contains(i)),
        forall|i: int, j: int| 0 <= i < j < text_selection(s, None, false).len()
            ==> text_selection(s, None, false)[i] < text_selection(s, None, false)[j],
    decreases s.len(),
{
    if s.len() > 0 {
        let t = s.drop_last();
        law_default_shows_up_adapters(t);
        crate::display::lemma_text_selection_valid(t, None, false);
        let rest = text_selection(t, None, false);
        let sel = text_selection(s, None, false);
        assert forall|i: int| 0 <= i < sel.len() implies shown_by_default(s[#[trigger] sel[i]]) by {
            if i < rest.len() {
                assert(sel[i] == rest[i]);
                assert(s[rest[i]] == t[rest[i]]);
            }
        }
        assert forall|i: int| 0 <= i < s.len() implies (shown_by_default(#[trigger] s[i]) <==> sel.contains(i)) by {
            if i < s.len() - 1 {
                assert(s[i] == t[i]);
                if rest.contains(i) {
                    let k = choose|k: int| 0 <= k < rest.len() && rest[k] == i;
                    assert(sel[k] == i);
                }
                if sel.contains(i) {
                    let k = choose|k: int| 0 <= k < sel.len() && sel[k] == i;
                    if k < rest.len() {
                        assert(sel[k] == rest[k]);
                    }
                }
            } else {
                if shown_by_default(s[i]) {
                    assert(sel[sel.len() - 1] == i);
                }
                if sel.contains(i) {
                    let k = choose|k: int| 0 <= k < sel.len() && sel[k] == i;
                    if k < rest.len() {
                        assert(sel[k] == rest[k]);
                    }
                }
            }
        }
    }
}

/// An adapter that is up and is not a loopback interface is shown whenever no interface is
/// named.
pub proof fn law_up_adapter_shown(a: AdapterInfo, all: bool)
    requires
        a.status == AdapterStatus::Up,
        !(a.adapter_type is Loopback),
    ensures
        text_selected(a, None, all),
        json_selected(a, None, all),
{
}

/// Naming an adapter by its exact name, or by its index in decimal, shows it (in text and in
/// JSON output).
pub proof fn law_named_adapter_shown(a: AdapterInfo, all: bool)
    ensures
        text_selected(a, Some(a.name@), all),
        json_selected(a, Some(a.name@), all),
        text_selected(a, Some(decimal(a.index as nat)), all),
        json_selected(a, Some(decimal(a.index as nat)), all),
{
    let l = lowercase(a.name@);
    assert(l.subrange(0, l.len() as int) =~= l);
    assert(occurs_at(l, l, 0));
}

/// Whatever JSON output lists, text output shows too (JSON matches a named interface on the
/// adapter name only, text also on the friendly name).
pub proof fn law_json_within_text(a: AdapterInfo, interface: Option<Seq<char>>, all: bool)
    ensures
        json_selected(a, interface, all) ==> text_selected(a, interface, all),
{
}

/// `--verbose` shows everything that `--stats`, `--metrics`, `--dns` and `--dhcp` show: the
/// full view with `--verbose` does not change when those options are added.
pub proof fn law_verbose_includes_details(a: AdapterInfo, c1: Cli, c2: Cli)
    requires
        c1.verbose,
        c2.verbose,
        c2.stats,
        c2.metrics,
        c2.dns,
        c2.dhcp,
    ensures
        full_lines(a, c1) == full_lines(a, c2),
{
}

/// `--brief` gives exactly one line per shown adapter.
pub proof fn law_brief_one_line_each(s: Seq<AdapterInfo>, cli: Cli)
    requires
        cli.brief,
    ensures
        adapters_view(s, cli).len() == s.len(),
    decreases s.len(),
{
    if s.len() > 0 {
        law_brief_one_line_each(s.drop_last(), cli);
    }
}

/// The flags of an adapter built from a system record agree with its state: `RUNNING` and
/// `UP` both follow the operational status, `DHCP` follows DHCP being enabled, and a
/// loopback adapter has `LOOPBACK` and `NOARP` but neither `BROADCAST` nor `MULTICAST`.
pub proof fn law_built_flags_agree(info: AdapterInfo, raw: RawAdapter)
    requires
        built_from(info, raw),
    ensures
        info.flags.up == (info.status == AdapterStatus::Up),
        info.flags.running == info.flags.up,
        info.flags.dhcp == info.dhcp_enabled,
        info.flags.loopback <==> info.adapter_type is Loopback,
        info.flags.loopback ==> info.flags.no_arp && !info.flags.broadcast && !info.flags.multicast,
        info.flags.point_to_point ==> !info.flags.broadcast,
{
}

/// The broadcast address of an address in a network of `p` leading bits (1 to 32) lies in
/// the same network (it agrees on the leading `p` bits) and has every other bit set; the
/// netmask of `p` covers exactly those leading bits.
pub proof fn law_broadcast_in_network(ip: nat, p: nat)
    requires
        ip < pow2(32),
        1 <= p <= 32,
    ensures
        broadcast_value(ip, p) / pow2((32 - p) as nat) == ip / pow2((32 - p) as nat),
        broadcast_value(ip, p) % pow2((32 - p) as nat) == pow2((32 - p) as nat) - 1,
        broadcast_value(ip, p) < pow2(32),
        netmask_value(p) + pow2((32 - p) as nat) == pow2(32),
{
    lemma2_to64();
    let h = pow2((32 - p) as nat);
    lemma_pow2_pos((32 - p) as nat);
    lemma_pow2_adds(p, (32 - p) as nat);
    let k = pow2(p);
    assert(k * h == pow2(32));
    let b = broadcast_value(ip, p);
    if p == 32 {
        assert(h == 1);
        assert(b == ip);
        lemma_fundamental_div_mod_converse_div(b as int, 1, ip as int, 0);
        lemma_fundamental_div_mod_converse_mod(b as int, 1, ip as int, 0);
    } else {
        let q = ip / h;
        assert(b == q * h + (h - 1));
        lemma_fundamental_div_mod_converse_div(b as int, h as int, q as int, h - 1);
        lemma_fundamental_div_mod_converse_mod(b as int, h as int, q as int, h - 1);
        lemma_pow2_strictly_increases((32 - p) as nat, 32);
        assert(q * h + (h - 1) < k * h) by (nonlinear_arith)
            requires
                ip < k * h,
                h > 0,
                q == ip / h,
        {
            assert(q < k);
            assert(q <= k - 1);
            assert(q * h <= (k - 1) * h);
        }
    }
}

/// The hexadecimal digits of a run of bytes, two per byte.
pub open spec fn hex_run(bytes: Seq<u8>) -> Seq<char>
    decreases bytes.len(),
{
    if bytes.len() == 0 {
        Seq::empty()
    } else {
        hex_run(bytes.drop_last()) + hex_pair(bytes.last())
    }
}

proof fn lemma_hex_char(d: nat)
    requires
        d < 16,
    ensures
        is_hex_digit(hex_char(d)),
        hex_char(d) != ':',
        hex_char(d) != '-',
{
}

proof fn lemma_hex_pair_kept(b: u8)
    ensures
        hex_pair(b).filter(|c: char| c != ':' && c != '-') == hex_pair(b),
{
    lemma_hex_char(b as nat / 16);
    lemma_hex_char(b as nat % 16);
    reveal_with_fuel(Seq::filter, 3);
    assert(hex_pair(b).drop_last() =~= seq![hex_pair(b)[0]]);
    assert(seq![hex_pair(b)[0]].drop_last() =~= Seq::<char>::empty());
    assert(hex_pair(b).filter(|c: char| c != ':' && c != '-') =~= hex_pair(b));
}

proof fn lemma_mac_text_digits(bytes: Seq<u8>)
    ensures
        mac_text(bytes).filter(|c: char| c != ':' && c != '-') == hex_run(bytes),
        hex_run(bytes).len() == 2 * bytes.len(),
        forall|i: int| 0 <= i < hex_run(bytes).len() ==> is_hex_digit(#[trigger] hex_run(bytes)[i]),
    decreases bytes.len(),
{
    let pred = |c: char| c != ':' && c != '-';
    let parts = bytes.map_values(|b: u8| hex_pair(b));
    if bytes.len() == 0 {
        assert(join(parts, ":"@) =~= Seq::<char>::empty());
        reveal_with_fuel(Seq::filter, 1);
        assert(Seq::<char>::empty().filter(pred) =~= Seq::<char>::empty());
    } else {
        let front = bytes.drop_last();
        let b = bytes.last();
        lemma_mac_text_digits(front);
        lemma_hex_pair_kept(b);
        lemma_hex_char(b as nat / 16);
        lemma_hex_char(b as nat % 16);
        assert(parts.drop_last() =~= front.map_values(|b: u8| hex_pair(b)));
        if bytes.len() == 1 {
            assert(front =~= Seq::<u8>::empty());
            assert(join(parts, ":"@) == hex_pair(b));
            assert(hex_run(bytes) =~= hex_pair(b));
        } else {
            let head = join(parts.drop_last(), ":"@);
            assert(join(parts, ":"@) == head + ":"@ + hex_pair(b));
            reveal_strlit(":");
            Seq::filter_distributes_over_add(head + ":"@, hex_pair(b), pred);
            Seq::filter_distributes_over_add(head, ":"@, pred);
            reveal_with_fuel(Seq::filter, 2);
            assert(":"@.drop_last() =~= Seq::<char>::empty());
            assert(":"@.filter(pred) =~= Seq::<char>::empty());
            assert(head.filter(pred) == hex_run(front));
            assert(join(parts, ":"@).filter(pred) =~= hex_run(front) + hex_pair(b));
        }
        assert forall|i: int| 0 <= i < hex_run(bytes).len() implies is_hex_digit(#[trigger] hex_run(bytes)[i]) by {
            if i < hex_run(front).len() {
                assert(hex_run(bytes)[i] == hex_run(front)[i]);
            } else {
                assert(hex_run(bytes)[i] == hex_pair(b)[i - hex_run(front).len()]);
            }
        }
    }
}

/// A hardware address as the display shows it (six bytes as hexadecimal pairs joined with
/// colons) is accepted by `set <iface> mac`, so it can be given back unchanged.
pub proof fn law_shown_mac_accepted(bytes: Seq<u8>, iface: Seq<char>)
    requires
        bytes.len() == 6,
    ensures
        valid_mac(mac_text(bytes)),
        mac_outcome(iface, mac_text(bytes)) is Ok,
{
    lemma_mac_text_digits(bytes);
    assert(mac_digits(mac_text(bytes)) == hex_run(bytes));
}

proof fn lemma_decimal_digits(n: nat)
    ensures
        decimal(n).len() >= 1,
        all_digits(decimal(n)),
        digits_value(decimal(n)) == n,
    decreases n,
{
    if n < 10 {
        let d = decimal(n);
        assert(d.drop_last() =~= Seq::<char>::empty());
        assert(d.last() == digit_char(n));
        assert(digit_char(n) as nat == 48 + n);
        assert(digits_value(d.drop_last()) == 0);
    } else {
        lemma_decimal_digits(n / 10);
        let d = decimal(n);
        assert(d.drop_last() =~= decimal(n / 10));
        assert(d.last() == digit_char(n % 10));
        assert(digit_char(n % 10) as nat == 48 + n % 10);
        assert(digits_value(d) == digits_value(decimal(n / 10)) * 10 + n % 10);
        assert((n / 10) * 10 + n % 10 == n);
        assert forall|i: int| 0 <= i < d.len() implies is_digit(#[trigger] d[i]) by {
            if i < d.len() - 1 {
                assert(d[i] == decimal(n / 10)[i]);
            }
        }
    }
}

proof fn lemma_parse_decimal(n: nat)
    requires
        n <= 255,
    ensures
        parse_u8(decimal(n)) == Some(n as u8),
{
    lemma_decimal_digits(n);
    let d = decimal(n);
    assert(is_digit(d[0]));
    assert(sign_stripped(d) == d);
}

proof fn lemma_split_single(t: Seq<char>, seps: Seq<char>)
    requires
        forall|k: int| 0 <= k < t.len() ==> !seps.contains(#[trigger] t[k]),
    ensures
        split_fields(t, seps) == seq![t],
    decreases t.len(),
{
    if t.len() > 0 {
        lemma_split_single(t.drop_last(), seps);
        assert(!seps.contains(t[t.len() - 1]));
        assert(t.drop_last().push(t.last()) =~= t);
        assert(seq![t.drop_last()].update(0, t.drop_last().push(t.last())) =~= seq![t]);
    } else {
        assert(t =~= Seq::<char>::empty());
    }
}

proof fn lemma_split_concat(s: Seq<char>, sep: char, t: Seq<char>, seps: Seq<char>)
    requires
        seps.contains(sep),
    ensures
        split_fields(s.push(sep) + t, seps) == split_fields(s, seps) + split_fields(t, seps),
    decreases t.len(),
{
    let u = s.push(sep) + t;
    if t.len() == 0 {
        assert(u =~= s.push(sep));
        assert(u.drop_last() =~= s);
        assert(split_fields(t, seps) =~= seq![Seq::<char>::empty()]);
    } else {
        lemma_split_concat(s, sep, t.drop_last(), seps);
        assert(u.drop_last() =~= s.push(sep) + t.drop_last());
        assert(u.last() == t.last());
        lemma_split_fields_len(t.drop_last(), seps);
        let a = split_fields(s, seps);
        let b = split_fields(t.drop_last(), seps);
        if seps.contains(t.last()) {
            assert((a + b).push(Seq::empty()) =~= a + b.push(Seq::empty()));
        } else {
            assert((a + b).update((a + b).len() - 1, (a + b).last().push(t.last())) =~= a + b.update(
                b.len() - 1,
                b.last().push(t.last()),
            ));
        }
    }
}

proof fn lemma_no_char_in_decimal(n: nat, c: char)
    requires
        !is_digit(c),
    ensures
        forall|k: int| 0 <= k < decimal(n).len() ==> #[trigger] decimal(n)[k] != c,
{
    lemma_decimal_digits(n);
    assert forall|k: int| 0 <= k < decimal(n).len() implies #[trigger] decimal(n)[k] != c by {
        assert(is_digit(decimal(n)[k]));
    }
}

proof fn lemma_ipv4_text_fields(o: Seq<u8>)
    requires
        o.len() == 4,
    ensures
        split_fields(ipv4_text(o), seq!['.']) == seq![
            decimal(o[0] as nat),
            decimal(o[1] as nat),
            decimal(o[2] as nat),
            decimal(o[3] as nat),
        ],
        valid_ipv4_text(ipv4_text(o)),
        forall|k: int| 0 <= k < ipv4_text(o).len() ==> #[trigger] ipv4_text(o)[k] != '/',
{
    let dot = seq!['.'];
    let d0 = decimal(o[0] as nat);
    let d1 = decimal(o[1] as nat);
    let d2 = decimal(o[2] as nat);
    let d3 = decimal(o[3] as nat);
    lemma_no_char_in_decimal(o[0] as nat, '.');
    lemma_no_char_in_decimal(o[1] as nat, '.');
    lemma_no_char_in_decimal(o[2] as nat, '.');
    lemma_no_char_in_decimal(o[3] as nat, '.');
    lemma_no_char_in_decimal(o[0] as nat, '/');
    lemma_no_char_in_decimal(o[1] as nat, '/');
    lemma_no_char_in_decimal(o[2] as nat, '/');
    lemma_no_char_in_decimal(o[3] as nat, '/');
    assert forall|x: Seq<char>, k: int| (x == d0 || x == d1 || x == d2 || x == d3) && 0 <= k < x.len()
        implies !dot.contains(#[trigger] x[k]) by {
        if dot.contains(x[k]) {
            assert(dot[0] == '.');
        }
    }
    lemma_split_single(d0, dot);
    lemma_split_single(d1, dot);
    lemma_split_single(d2, dot);
    lemma_split_single(d3, dot);
    assert(dot.contains('.')) by {
        assert(dot[0] == '.');
    }
    let a = d0.push('.') + d1;
    let b = a.push('.') + d2;
    let c = b.push('.') + d3;
    assert(c =~= ipv4_text(o));
    lemma_split_concat(d0, '.', d1, dot);
    lemma_split_concat(a, '.', d2, dot);
    lemma_split_concat(b, '.', d3, dot);
    assert(split_fields(c, dot) =~= seq![d0, d1, d2, d3]);
    lemma_parse_decimal(o[0] as nat);
    lemma_parse_decimal(o[1] as nat);
    lemma_parse_decimal(o[2] as nat);
    lemma_parse_decimal(o[3] as nat);
    let parts = split_fields(ipv4_text(o), dot);
    assert forall|i: int| 0 <= i < 4 implies parse_u8(#[trigger] parts[i]) is Some by {
        if i == 0 {
            assert(parts[i] == d0);
        } else if i == 1 {
            assert(parts[i] == d1);
        } else if i == 2 {
            assert(parts[i] == d2);
        } else {
            assert(parts[i] == d3);
        }
    }
    assert forall|k: int| 0 <= k < ipv4_text(o).len() implies #[trigger] ipv4_text(o)[k] != '/' by {
        let t = ipv4_text(o);
        if k < d0.len() {
            assert(t[k] == d0[k]);
        } else if k == d0.len() {
            assert(t[k] == '.');
        } else if k < d0.len() + 1 + d1.len() {
            assert(t[k] == d1[k - d0.len() - 1]);
        } else if k == d0.len() + 1 + d1.len() {
            assert(t[k] == '.');
        } else if k < d0.len() + 2 + d1.len() + d2.len() {
            assert(t[k] == d2[k - d0.len() - 2 - d1.len()]);
        } else if k == d0.len() + 2 + d1.len() + d2.len() {
            assert(t[k] == '.');
        } else {
            assert(t[k] == d3[k - d0.len() - 3 - d1.len() - d2.len()]);
        }
    }
}

/// An IPv4 address and prefix length as the display shows them, written `address/prefix`,
/// is accepted as CIDR: it gives back that address and prefix, so `set <iface> add` plans
/// the call with that address and the netmask of that prefix.
pub proof fn law_shown_cidr_accepted(o: Seq<u8>, p: u8, iface: Seq<char>)
    requires
        o.len() == 4,
        p <= 32,
    ensures
        cidr_parse(ipv4_text(o) + seq!['/'] + decimal(p as nat)) == Ok::<(Seq<char>, u8), crate::control::CidrError>((ipv4_text(o), p)),
        add_outcome(iface, ipv4_text(o) + seq!['/'] + decimal(p as nat)) is Ok,
        del_plan(iface, ipv4_text(o) + seq!['/'] + decimal(p as nat)) == del_plan(iface, ipv4_text(o)),
{
    let t = ipv4_text(o);
    let s = t + seq!['/'] + decimal(p as nat);
    lemma_ipv4_text_fields(o);
    assert forall|k: int| 0 <= k < t.len() implies s[k] != '/' by {
        assert(s[k] == t[k]);
    }
    assert(s[t.len() as int] == '/');
    lemma_first_index(s, '/', t.len() as int);
    assert(s.skip(t.len() as int + 1) =~= decimal(p as nat));
    assert(s.take(t.len() as int) =~= t);
    lemma_parse_decimal(p as nat);
    lemma_first_index(t, '/', t.len() as int);
    assert(t.take(t.len() as int) =~= t);
}


/// The DHCP setting of an adapter built from a system record is bit value 4 of the record's
/// flags (`IP_ADAPTER_DHCP_ENABLED`), and the `DHCP` flag follows it; other bits (such as
/// `IP_ADAPTER_DDNS_ENABLED`, value 1) do not matter.
pub proof fn law_dhcp_is_flag_bit_four(info: AdapterInfo, raw: RawAdapter)
    requires
        built_from(info, raw),
    ensures
        info.dhcp_enabled == (raw.flags & 4 != 0),
        info.flags.dhcp == (raw.flags & 4 != 0),
{
    let f = raw.flags;
    assert((f & 4 != 0) == ((f / 4) % 2 == 1)) by (bit_vector);
}

/// With an interface named, an adapter whose lower-cased name and friendly name do not contain
/// the lower-cased interface is shown exactly when its index, written in decimal, is the
/// interface text itself (in JSON output: when its name does not contain it).
pub proof fn law_index_matches_exactly(a: AdapterInfo, iface: Seq<char>, all: bool)
    ensures
        !contains(lowercase(a.name@), lowercase(iface)) && !contains(lowercase(a.friendly_name@), lowercase(iface))
            ==> (text_selected(a, Some(iface), all) <==> decimal(a.index as nat) == iface),
        !contains(lowercase(a.name@), lowercase(iface))
            ==> (json_selected(a, Some(iface), all) <==> decimal(a.index as nat) == iface),
{
}

/// Every adapter selected for a named interface matches it by name or friendly name, or has
/// exactly that index.
pub proof fn law_named_selection_matches(s: Seq<AdapterInfo>, iface: Seq<char>, all: bool)
    ensures
        forall|i: int| 0 <= i < text_selection(s, Some(iface), all).len() ==> {
            let a = s[#[trigger] text_selection(s, Some(iface), all)[i]];
            contains(lowercase(a.name@), lowercase(iface)) || contains(lowercase(a.friendly_name@), lowercase(iface))
                || decimal(a.index as nat) == iface
        },
    decreases s.len(),
{
    if s.len() > 0 {
        let t = s.drop_last();
        law_named_selection_matches(t, iface, all);
        crate::display::lemma_text_selection_valid(t, Some(iface), all);
        let rest = text_selection(t, Some(iface), all);
        let sel = text_selection(s, Some(iface), all);
        assert forall|i: int| 0 <= i < sel.len() implies {
            let a = s[#[trigger] sel[i]];
            contains(lowercase(a.name@), lowercase(iface)) || contains(lowercase(a.friendly_name@), lowercase(iface))
                || decimal(a.index as nat) == iface
        } by {
            if i < rest.len() {
                assert(sel[i] == rest[i]);
                assert(s[rest[i]] == t[rest[i]]);
            }
        }
    }
}

/// A `netsh` run that exits successfully but prints a line containing "failed" (in any case)
/// ends in an error that reports it.
pub proof fn law_netsh_failed_line_is_error(code: Option<i32>, stdout: Seq<char>, stderr: Seq<char>, i: int)
    requires
        0 <= i < text_lines(stdout).len(),
        contains(lowercase(text_lines(stdout)[i]), "failed"@),
        contains(lowercase(stdout), "failed"@),
    ensures
        netsh_result(true, code, stdout, stderr) matches Err(m) && m.take(16) == "netsh reported: "@,
{
    let pred = |l: Seq<char>| crate::control::is_error_line(l);
    let lines = text_lines(stdout);
    assert(pred(lines[i]));
    broadcast use vstd::seq_lib::group_filter_ensures;
    assert(lines.filter(pred).contains(lines[i]));
    assert(lines.filter(pred).len() > 0);
    reveal_strlit("netsh reported: ");
}

/// A `netsh` run that exits unsuccessfully always ends in an error.
pub proof fn law_netsh_failure_is_error(code: Option<i32>, stdout: Seq<char>, stderr: Seq<char>)
    ensures
        netsh_result(false, code, stdout, stderr) is Err,
{
}

/// Whether `block` stands in `lines` as consecutive lines.
pub open spec fn has_block(lines: Seq<LineView>, block: Seq<LineView>) -> bool {
    exists|k: int| 0 <= k && k + block.len() <= lines.len() && #[trigger] lines.subrange(k, k + block.len()) == block
}

proof fn lemma_block_at(lines: Seq<LineView>, before: Seq<LineView>, block: Seq<LineView>, after: Seq<LineView>)
    requires
        lines == before + block + after,
    ensures
        has_block(lines, block),
{
    let k = before.len() as int;
    assert(lines.subrange(k, k + block.len()) =~= block);
}

/// `--stats` alone adds the unicast, multicast and broadcast counters of both directions to
/// the full view of an adapter that has statistics.
pub proof fn law_stats_option_shows_casts(a: AdapterInfo, cli: Cli)
    requires
        cli.stats,
        a.stats is Some,
    ensures
        has_block(full_lines(a, cli), seq![cast_line(a.stats->0.rx_unicast, a.stats->0.rx_multicast, a.stats->0.rx_broadcast)]),
        has_block(full_lines(a, cli), seq![cast_line(a.stats->0.tx_unicast, a.stats->0.tx_multicast, a.stats->0.tx_broadcast)]),
{
    let st = a.stats->0;
    let sl = stats_lines(a, true);
    let pre = head_lines(a) + address_lines(a) + gateway_lines(a);
    let rest = full_lines(a, cli).skip((pre.len() + sl.len()) as int);
    assert(full_lines(a, cli) =~= pre + sl + rest);
    let rx = seq![cast_line(st.rx_unicast, st.rx_multicast, st.rx_broadcast)];
    let tx = seq![cast_line(st.tx_unicast, st.tx_multicast, st.tx_broadcast)];
    assert(sl =~= sl.take(3) + rx + sl.skip(4));
    assert(sl =~= sl.take(6) + tx + sl.skip(7));
    assert(full_lines(a, cli) =~= (pre + sl.take(3)) + rx + (sl.skip(4) + rest));
    assert(full_lines(a, cli) =~= (pre + sl.take(6)) + tx + (sl.skip(7) + rest));
    lemma_block_at(full_lines(a, cli), pre + sl.take(3), rx, sl.skip(4) + rest);
    lemma_block_at(full_lines(a, cli), pre + sl.take(6), tx, sl.skip(7) + rest);
}

/// `--metrics` alone adds the metric, speed, MTU and index lines to the full view.
pub proof fn law_metrics_option_shows_metrics(a: AdapterInfo, cli: Cli)
    requires
        cli.metrics,
    ensures
        has_block(full_lines(a, cli), metric_lines(a)),
{
    let pre = head_lines(a) + address_lines(a) + gateway_lines(a) + stats_lines(a, cli.stats || cli.verbose);
    let rest = full_lines(a, cli).skip((pre.len() + metric_lines(a).len()) as int);
    assert(full_lines(a, cli) =~= pre + metric_lines(a) + rest);
    lemma_block_at(full_lines(a, cli), pre, metric_lines(a), rest);
}

/// `--dhcp` alone adds the DHCP lines to the full view.
pub proof fn law_dhcp_option_shows_dhcp(a: AdapterInfo, cli: Cli)
    requires
        cli.dhcp,
    ensures
        has_block(full_lines(a, cli), dhcp_lines(a)),
{
    let pre = head_lines(a) + address_lines(a) + gateway_lines(a) + stats_lines(a, cli.stats || cli.verbose)
        + crate::display::when(cli.metrics || cli.verbose, metric_lines(a));
    let rest = full_lines(a, cli).skip((pre.len() + dhcp_lines(a).len()) as int);
    assert(full_lines(a, cli) =~= pre + dhcp_lines(a) + rest);
    lemma_block_at(full_lines(a, cli), pre, dhcp_lines(a), rest);
}

/// `--dns` alone adds the `DNS servers:` heading and one line per DNS server, in order, to
/// the full view of an adapter that has DNS servers.
pub proof fn law_dns_option_shows_servers(a: AdapterInfo, cli: Cli)
    requires
        cli.dns,
        a.dns_servers@.len() > 0,
    ensures
        has_block(full_lines(a, cli), seq![heading("DNS servers:"@)] + entries(texts(a.dns_servers@))),
{
    let block = seq![heading("DNS servers:"@)] + entries(texts(a.dns_servers@));
    let pre = head_lines(a) + address_lines(a) + gateway_lines(a) + stats_lines(a, cli.stats || cli.verbose)
        + crate::display::when(cli.metrics || cli.verbose, metric_lines(a)) + crate::display::when(cli.dhcp || cli.verbose, dhcp_lines(a))
        + seq![Seq::<(Seq<char>, crate::style::Style)>::empty()];
    let rest = full_lines(a, cli).skip((pre.len() + block.len()) as int);
    assert(full_lines(a, cli) =~= pre + block + rest);
    lemma_block_at(full_lines(a, cli), pre, block, rest);
}

/// IPv6 scopes: `::1` is the host; otherwise an address whose first ten bits are 1111111010
/// (fe80::/10) is link-local, one whose first ten bits are 1111111011 (fec0::/10) is
/// site-local, and every other address (unique-local fc00::/7 included) is global.
pub proof fn law_ipv6_scopes(o: Seq<u8>)
    requires
        o.len() == 16,
    ensures
        (forall|i: int| 0 <= i < 15 ==> o[i] == 0) && o[15] == 1 ==> ipv6_scope(o) == IpScope::Loopback,
        !(o[15] == 1 && forall|i: int| 0 <= i < 15 ==> o[i] == 0) ==> {
            &&& o[0] == 0xFE && 0x80 <= o[1] < 0xC0 ==> ipv6_scope(o) == IpScope::LinkLocal
            &&& o[0] == 0xFE && 0xC0 <= o[1] ==> ipv6_scope(o) == IpScope::SiteLocal
            &&& (o[0] != 0xFE || o[1] < 0x80) ==> ipv6_scope(o) == IpScope::Global
        },
{
}

} // verus!
