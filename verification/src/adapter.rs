use vstd::prelude::*;
use crate::addr::{
    broadcast_value, calc_broadcast_v4, classify_ipv4_scope, classify_ipv6_scope, format_ipv6, format_mac, ipv6_text,
    ipv4_scope, ipv4_text, ipv4_to_string, ipv6_scope, mac_text, netmask_value, octets_of,
    prefix_to_netmask_v4, value_of,
};
use crate::control::opt_text;
use crate::text::{
    char_vec, contains, decimal, decode_utf16, decode_utf8, lowercase, push_decimal, split_any,
    split_fields, str_contains, texts, to_lowercase, trim, trim_text, utf16_lossy, utf8_lossy,
};
use crate::types::{AdapterFlags, AdapterInfo, AdapterStats, AdapterStatus, AdapterType, IpAddress};

verus! {

/// An address as the system reports it: four or sixteen octets.
#[derive(Debug, Clone)]
pub enum RawIp {
    V4([u8; 4]),
    V6([u8; 16]),
}

/// A unicast address entry: the address (absent when the system gave none the tool reads)
/// and its on-link prefix length.
#[derive(Debug, Clone)]
pub struct RawUnicast {
    pub address: Option<RawIp>,
    pub prefix_len: u8,
}

/// The interface counters the system reports.
#[derive(Debug, Clone)]
pub struct RawCounters {
    pub in_octets: u64,
    pub in_ucast_pkts: u64,
    pub in_n_ucast_pkts: u64,
    pub in_errors: u64,
    pub in_discards: u64,
    pub in_multicast_octets: u64,
    pub in_broadcast_octets: u64,
    pub out_octets: u64,
    pub out_ucast_pkts: u64,
    pub out_n_ucast_pkts: u64,
    pub out_errors: u64,
    pub out_discards: u64,
    pub out_multicast_octets: u64,
    pub out_broadcast_octets: u64,
}

/// Values stored for an adapter in the registry; each is absent when it could not be read.
#[derive(Debug, Clone)]
pub struct RegistryValues {
    /// `DhcpNameServer`, as read (UTF-16 units).
    pub dhcp_name_server: Option<Vec<u16>>,
    /// `NameServer`, as read (UTF-16 units).
    pub name_server: Option<Vec<u16>>,
    /// `LeaseObtainedTime` (seconds since 1970).
    pub lease_obtained: Option<u32>,
    /// `LeaseTerminatesTime` (seconds since 1970).
    pub lease_terminates: Option<u32>,
    /// Offset in seconds of the machine's local time from UTC at the `LeaseObtainedTime`
    /// instant (0 when that value is absent or 0).
    pub obtained_offset: i32,
    /// Offset in seconds of the machine's local time from UTC at the `LeaseTerminatesTime`
    /// instant (0 when that value is absent or 0).
    pub terminates_offset: i32,
}

/// One adapter record as the system reports it.
#[derive(Debug, Clone)]
pub struct RawAdapter {
    /// The adapter's GUID name in bytes (absent when the system gave none).
    pub adapter_name: Option<Vec<u8>>,
    /// The human-readable name in UTF-16 units.
    pub friendly_name: Option<Vec<u16>>,
    /// The description in UTF-16 units.
    pub description: Option<Vec<u16>>,
    /// Interface type number (IANA ifType).
    pub if_type: u32,
    /// Operational status number (1 is up).
    pub oper_status: i32,
    /// The hardware address bytes.
    pub physical_address: Vec<u8>,
    pub unicast: Vec<RawUnicast>,
    pub gateways: Vec<Option<RawIp>>,
    pub dns_servers: Vec<Option<RawIp>>,
    /// Adapter flag bits (bit 2 is DHCP).
    pub flags: u32,
    pub dhcpv4_server: Option<RawIp>,
    pub wins_servers: Vec<Option<RawIp>>,
    pub if_index: u32,
    /// Transmit link speed in bits per second.
    pub transmit_link_speed: u64,
    pub mtu: u32,
    pub ipv4_metric: u32,
    /// Interface counters (absent when they could not be read).
    pub counters: Option<RawCounters>,
    pub registry: RegistryValues,
}

/// Text of an address.
pub open spec fn ip_text(a: RawIp) -> Seq<char> {
    match a {
        RawIp::V4(o) => ipv4_text(o@),
        RawIp::V6(o) => ipv6_text(o@),
    }
}

/// The texts of the addresses that are present, in order.
pub open spec fn present_texts(s: Seq<Option<RawIp>>) -> Seq<Seq<char>>
    decreases s.len(),
{
    if s.len() == 0 {
        Seq::empty()
    } else {
        let rest = present_texts(s.drop_last());
        match s.last() {
            Some(a) => rest.push(ip_text(a)),
            None => rest,
        }
    }
}

/// The first IPv4 address among `s`.
pub open spec fn first_ipv4(s: Seq<Option<RawIp>>) -> Option<Seq<char>>
    decreases s.len(),
{
    if s.len() == 0 {
        None
    } else {
        match s[0] {
            Some(RawIp::V4(o)) => Some(ipv4_text(o@)),
            _ => first_ipv4(s.drop_first()),
        }
    }
}

/// The unicast entries that hold an IPv4 address, in order.
pub open spec fn v4_entries(s: Seq<RawUnicast>) -> Seq<RawUnicast>
    decreases s.len(),
{
    if s.len() == 0 {
        Seq::empty()
    } else if s.last().address matches Some(RawIp::V4(_)) {
        v4_entries(s.drop_last()).push(s.last())
    } else {
        v4_entries(s.drop_last())
    }
}

/// The unicast entries that hold an IPv6 address, in order.
pub open spec fn v6_entries(s: Seq<RawUnicast>) -> Seq<RawUnicast>
    decreases s.len(),
{
    if s.len() == 0 {
        Seq::empty()
    } else if s.last().address matches Some(RawIp::V6(_)) {
        v6_entries(s.drop_last()).push(s.last())
    } else {
        v6_entries(s.drop_last())
    }
}

/// The entries kept from a prefix of `s` begin the entries kept from `s`.
pub proof fn lemma_entries_prefix(s: Seq<RawUnicast>, j: int)
    requires
        0 <= j <= s.len(),
    ensures
        v4_entries(s.take(j)).len() <= v4_entries(s).len(),
        forall|k: int| 0 <= k < v4_entries(s.take(j)).len() ==> v4_entries(s.take(j))[k] == v4_entries(s)[k],
        v6_entries(s.take(j)).len() <= v6_entries(s).len(),
        forall|k: int| 0 <= k < v6_entries(s.take(j)).len() ==> v6_entries(s.take(j))[k] == v6_entries(s)[k],
    decreases s.len() - j,
{
    if j == s.len() {
        assert(s.take(j) =~= s);
    } else {
        lemma_entries_prefix(s.drop_last(), j);
        assert(s.drop_last().take(j) =~= s.take(j));
    }
}

/// The IPv4 octets of a unicast entry.
pub open spec fn v4_octets(u: RawUnicast) -> Seq<u8> {
    match u.address {
        Some(RawIp::V4(o)) => o@,
        _ => Seq::empty(),
    }
}

/// The IPv6 octets of a unicast entry.
pub open spec fn v6_octets(u: RawUnicast) -> Seq<u8> {
    match u.address {
        Some(RawIp::V6(o)) => o@,
        _ => Seq::empty(),
    }
}

/// An IPv4 entry is shown with its netmask, its broadcast address and its scope.
pub open spec fn shows_v4(a: IpAddress, u: RawUnicast) -> bool {
    let o = v4_octets(u);
    &&& a.address@ == ipv4_text(o)
    &&& a.prefix_len == u.prefix_len
    &&& opt_text(a.netmask) == Some(ipv4_text(octets_of(netmask_value(u.prefix_len as nat))))
    &&& opt_text(a.broadcast) == Some(ipv4_text(octets_of(broadcast_value(value_of(o), u.prefix_len as nat))))
    &&& a.scope == ipv4_scope(o)
}

/// An IPv6 entry is shown with its text and scope only.
pub open spec fn shows_v6(a: IpAddress, u: RawUnicast) -> bool {
    &&& a.address@ == ipv6_text(v6_octets(u))
    &&& a.prefix_len == u.prefix_len
    &&& a.netmask is None
    &&& a.broadcast is None
    &&& a.scope == ipv6_scope(v6_octets(u))
}

/// Whether the adapter type fits the interface type number and description: Ethernet (6),
/// Wi-Fi (71), loopback (24), tunnel (131), PPP (23); otherwise VPN when the lower-cased
/// description mentions `vpn` or `virtual`, else `Type(<number>)`.
pub open spec fn type_fits(t: AdapterType, if_type: u32, description: Seq<char>) -> bool {
    if if_type == 6 {
        t is Ethernet
    } else if if_type == 71 {
        t is WiFi
    } else if if_type == 24 {
        t is Loopback
    } else if if_type == 131 {
        t is Tunnel
    } else if if_type == 23 {
        t is PPP
    } else if contains(lowercase(description), "vpn"@) || contains(lowercase(description), "virtual"@) {
        t is VPN
    } else {
        t matches AdapterType::Other(s) && s@ == "Type("@ + decimal(if_type as nat) + ")"@
    }
}

/// The DNS servers kept in a registry value: trailing zero units dropped, the text decoded,
/// split at spaces and commas, each piece trimmed, empty pieces dropped; absent when nothing
/// is left.
pub open spec fn registry_servers(value: Option<Seq<u16>>) -> Option<Seq<Seq<char>>> {
    match value {
        None => None,
        Some(units) => {
            let text = utf16_lossy(trim_zero_units(units));
            let servers = split_fields(text, seq![' ', ',']).map_values(|p: Seq<char>| trim(p)).filter(
                |p: Seq<char>| p.len() > 0,
            );
            if text.len() == 0 || servers.len() == 0 {
                None
            } else {
                Some(servers)
            }
        },
    }
}

/// `units` without trailing zero units.
pub open spec fn trim_zero_units(units: Seq<u16>) -> Seq<u16>
    decreases units.len(),
{
    if units.len() > 0 && units.last() == 0 {
        trim_zero_units(units.drop_last())
    } else {
        units
    }
}

/// DNS servers from the registry: `DhcpNameServer` first, then `NameServer`.
pub open spec fn registry_dns(reg: RegistryValues) -> Option<Seq<Seq<char>>> {
    match registry_servers(opt_units(reg.dhcp_name_server)) {
        Some(s) => Some(s),
        None => registry_servers(opt_units(reg.name_server)),
    }
}

/// The units of an optional buffer.
pub open spec fn opt_units(v: Option<Vec<u16>>) -> Option<Seq<u16>> {
    match v {
        Some(u) => Some(u@),
        None => None,
    }
}

/// The texts of a list of strings.
pub open spec fn strings(v: Vec<String>) -> Seq<Seq<char>> {
    texts(v@)
}

/// The GUID name of an adapter.
pub open spec fn guid_name(raw: RawAdapter) -> Seq<char> {
    utf8_lossy(raw.adapter_name->0@)
}

/// The human-readable name of an adapter (the GUID name when the system gives none).
pub open spec fn friendly_text(raw: RawAdapter) -> Seq<char> {
    match raw.friendly_name {
        Some(u) => utf16_lossy(u@),
        None => guid_name(raw),
    }
}

/// The description of an adapter (empty when the system gives none).
pub open spec fn description_text(raw: RawAdapter) -> Seq<char> {
    match raw.description {
        Some(u) => utf16_lossy(u@),
        None => Seq::empty(),
    }
}

/// The DNS servers shown: those of the adapter, or when it lists none (and has a name)
/// those from the registry.
pub open spec fn dns_texts(raw: RawAdapter) -> Seq<Seq<char>> {
    let listed = present_texts(raw.dns_servers@);
    if listed.len() == 0 && guid_name(raw).len() > 0 && registry_dns(raw.registry) is Some {
        registry_dns(raw.registry)->0
    } else {
        listed
    }
}

/// Whether `s` holds the counters of `c`: received and sent packets add unicast and
/// non-unicast packets; multicast and broadcast are the octet counts the system gives;
/// collisions are not reported.
pub open spec fn stats_from(s: AdapterStats, c: RawCounters) -> bool {
    &&& s.rx_bytes == c.in_octets
    &&& s.rx_packets == c.in_ucast_pkts + c.in_n_ucast_pkts
    &&& s.rx_errors == c.in_errors
    &&& s.rx_dropped == c.in_discards
    &&& s.rx_unicast == c.in_ucast_pkts
    &&& s.rx_multicast == c.in_multicast_octets
    &&& s.rx_broadcast == c.in_broadcast_octets
    &&& s.tx_bytes == c.out_octets
    &&& s.tx_packets == c.out_ucast_pkts + c.out_n_ucast_pkts
    &&& s.tx_errors == c.out_errors
    &&& s.tx_dropped == c.out_discards
    &&& s.tx_unicast == c.out_ucast_pkts
    &&& s.tx_multicast == c.out_multicast_octets
    &&& s.tx_broadcast == c.out_broadcast_octets
    &&& s.collisions == 0
}

/// The flags of an adapter follow from its type, status and DHCP setting.
pub open spec fn flags_fit(f: AdapterFlags, t: AdapterType, up: bool, dhcp: bool) -> bool {
    let lo = t is Loopback;
    let ppp = t is PPP;
    &&& f.up == up
    &&& f.broadcast == (!lo && !ppp)
    &&& !f.debug
    &&& f.loopback == lo
    &&& f.point_to_point == ppp
    &&& f.running == up
    &&& f.no_arp == lo
    &&& !f.promisc
    &&& f.multicast == !lo
    &&& !f.dynamic
    &&& f.dhcp == dhcp
}

/// Whether the bit 2 (value 4) of `flags` is set.
pub open spec fn dhcp_bit(flags: u32) -> bool {
    (flags / 4) % 2 == 1
}

/// Whether a registry lease time is shown: it was read and is not zero.
pub open spec fn lease_known(v: Option<u32>) -> bool {
    v matches Some(x) && x != 0
}

/// Whether `info` shows the adapter record `raw`.
pub open spec fn built_from(info: AdapterInfo, raw: RawAdapter) -> bool {
    let v4 = v4_entries(raw.unicast@);
    let v6 = v6_entries(raw.unicast@);
    let up = raw.oper_status == 1;
    &&& info.index == raw.if_index
    &&& info.name@ == friendly_text(raw)
    &&& info.friendly_name@ == friendly_text(raw)
    &&& info.description@ == description_text(raw)
    &&& type_fits(info.adapter_type, raw.if_type, description_text(raw))
    &&& info.status == (if up { AdapterStatus::Up } else { AdapterStatus::Down })
    &&& opt_text(info.mac_address) == (if raw.physical_address@.len() > 0 {
        Some(mac_text(raw.physical_address@))
    } else {
        None
    })
    &&& info.ipv4_addresses@.len() == v4.len()
    &&& (forall|i: int| 0 <= i < v4.len() ==> shows_v4(#[trigger] info.ipv4_addresses@[i], v4[i]))
    &&& info.ipv6_addresses@.len() == v6.len()
    &&& (forall|i: int| 0 <= i < v6.len() ==> shows_v6(#[trigger] info.ipv6_addresses@[i], v6[i]))
    &&& opt_text(info.gateway) == first_ipv4(raw.gateways@)
    &&& strings(info.dns_servers) == dns_texts(raw)
    &&& info.dhcp_enabled == dhcp_bit(raw.flags)
    &&& opt_text(info.dhcp_server) == (match raw.dhcpv4_server {
        Some(a) => Some(ip_text(a)),
        None => None,
    })
    &&& lease_shown(info.dhcp_lease_obtained, raw.registry.lease_obtained, raw.registry.obtained_offset)
    &&& lease_shown(info.dhcp_lease_expires, raw.registry.lease_terminates, raw.registry.terminates_offset)
    &&& info.mtu == raw.mtu
    &&& info.speed == (if raw.transmit_link_speed > 0 && raw.transmit_link_speed != u64::MAX {
        Some(raw.transmit_link_speed)
    } else {
        None
    })
    &&& info.metric == raw.ipv4_metric
    &&& (match raw.counters {
        Some(c) => info.stats matches Some(s) && stats_from(s, c),
        None => info.stats is None,
    })
    &&& flags_fit(info.flags, info.adapter_type, up, dhcp_bit(raw.flags))
    &&& strings(info.wins_servers) == present_texts(raw.wins_servers@)
}

/// What a record needs so that building it does not overflow: IPv4 prefixes are at least 1,
/// the packet counts add up within 64 bits, and the local-time offsets are less than a day
/// either way (as every UTC offset is).
pub open spec fn buildable(raw: RawAdapter) -> bool {
    &&& -86_400 < raw.registry.obtained_offset < 86_400
    &&& -86_400 < raw.registry.terminates_offset < 86_400
    &&& forall|i: int| 0 <= i < v4_entries(raw.unicast@).len() ==> (#[trigger] v4_entries(raw.unicast@)[i]).prefix_len > 0
    &&& (raw.counters matches Some(c) ==> c.in_ucast_pkts + c.in_n_ucast_pkts <= u64::MAX
        && c.out_ucast_pkts + c.out_n_ucast_pkts <= u64::MAX)
}

/// The texts of an optional list of strings.
pub open spec fn opt_strings(v: Option<Vec<String>>) -> Option<Seq<Seq<char>>> {
    match v {
        Some(s) => Some(texts(s@)),
        None => None,
    }
}

/// Text of an address.
pub fn ip_to_string(a: &RawIp) -> (s: String)
    ensures
        s@ == ip_text(*a),
{
    match a {
        RawIp::V4(o) => ipv4_to_string(*o),
        RawIp::V6(o) => format_ipv6(*o),
    }
}

/// The texts of the addresses that are present, in order.
pub fn present_ip_texts(s: &Vec<Option<RawIp>>) -> (r: Vec<String>)
    ensures
        texts(r@) == present_texts(s@),
{
    let mut r: Vec<String> = Vec::new();
    let mut i: usize = 0;
    while i < s.len()
        invariant
            i <= s@.len(),
            texts(r@) == present_texts(s@.take(i as int)),
        decreases s@.len() - i,
    {
        assert(s@.take(i + 1).drop_last() =~= s@.take(i as int));
        match &s[i] {
            Some(a) => {
                let ghost before = r@;
                r.push(ip_to_string(a));
                assert(texts(r@) =~= texts(before).push(ip_text(*a)));
            },
            None => {},
        }
        i = i + 1;
    }
    assert(s@.take(s@.len() as int) =~= s@);
    r
}

/// The first IPv4 address among `s`.
pub fn first_ipv4_text(s: &Vec<Option<RawIp>>) -> (r: Option<String>)
    ensures
        opt_text(r) == first_ipv4(s@),
{
    let mut i: usize = 0;
    assert(s@.skip(0) =~= s@);
    while i < s.len()
        invariant
            i <= s@.len(),
            first_ipv4(s@) == first_ipv4(s@.skip(i as int)),
        decreases s@.len() - i,
    {
        assert(s@.skip(i as int).drop_first() =~= s@.skip(i + 1));
        assert(s@.skip(i as int)[0] == s@[i as int]);
        match &s[i] {
            Some(RawIp::V4(o)) => {
                return Some(ipv4_to_string(*o));
            },
            _ => {},
        }
        i = i + 1;
    }
    None
}

/// Whether `t` fits the type number and description.
fn classify_type(if_type: u32, description: &str) -> (t: AdapterType)
    ensures
        type_fits(t, if_type, description@),
{
    if if_type == 6 {
        AdapterType::Ethernet
    } else if if_type == 71 {
        AdapterType::WiFi
    } else if if_type == 24 {
        AdapterType::Loopback
    } else if if_type == 131 {
        AdapterType::Tunnel
    } else if if_type == 23 {
        AdapterType::PPP
    } else {
        let lower = to_lowercase(description);
        if str_contains(lower.as_str(), "vpn") || str_contains(lower.as_str(), "virtual") {
            AdapterType::VPN
        } else {
            let mut s = String::new();
            s.append("Type(");
            push_decimal(&mut s, if_type as u64);
            s.append(")");
            AdapterType::Other(s)
        }
    }
}

/// DNS servers kept in a registry value.
fn registry_servers_of(value: &Option<Vec<u16>>) -> (r: Option<Vec<String>>)
    ensures
        opt_strings(r) == registry_servers(opt_units(*value)),
{
    let units = match value {
        None => {
            return None;
        },
        Some(u) => u,
    };
    let mut k = units.len();
    assert(units@.take(k as int) =~= units@);
    while k > 0 && units[k - 1] == 0
        invariant
            k <= units@.len(),
            trim_zero_units(units@) == trim_zero_units(units@.take(k as int)),
        decreases k,
    {
        assert(units@.take(k as int).drop_last() =~= units@.take(k - 1));
        k = k - 1;
    }
    let mut kept: Vec<u16> = Vec::new();
    let mut i: usize = 0;
    while i < k
        invariant
            k <= units@.len(),
            i <= k,
            kept@ == units@.take(i as int),
        decreases k - i,
    {
        kept.push(units[i]);
        assert(units@.take(i + 1) =~= units@.take(i as int).push(units@[i as int]));
        i = i + 1;
    }
    assert(trim_zero_units(units@.take(k as int)) == units@.take(k as int));
    let text = decode_utf16(kept.as_slice());
    let cs = char_vec(text.as_str());
    let seps = [' ', ','];
    assert(seps@ =~= seq![' ', ',']);
    let parts = split_any(&cs, 0, cs.len(), &seps);
    assert(cs@.subrange(0, cs@.len() as int) =~= text@);
    let ghost pieces = texts(parts@);
    let ghost trimmed = pieces.map_values(|p: Seq<char>| trim(p));
    let ghost keep = |p: Seq<char>| p.len() > 0;
    let mut servers: Vec<String> = Vec::new();
    let mut j: usize = 0;
    while j < parts.len()
        invariant
            j <= parts@.len(),
            pieces == texts(parts@),
            trimmed == pieces.map_values(|p: Seq<char>| trim(p)),
            keep == (|p: Seq<char>| p.len() > 0),
            texts(servers@) == trimmed.take(j as int).filter(keep),
        decreases parts@.len() - j,
    {
        proof {
            reveal_with_fuel(Seq::<Seq<char>>::filter, 1);
            assert(trimmed.take(j + 1).drop_last() =~= trimmed.take(j as int));
        }
        let t = trim_text(parts[j].as_str());
        assert(t@ == trimmed[j as int]);
        if t.as_str().unicode_len() > 0 {
            let ghost before = servers@;
            servers.push(t);
            assert(texts(servers@) =~= texts(before).push(trimmed[j as int]));
        }
        j = j + 1;
    }
    assert(trimmed.take(parts@.len() as int) =~= trimmed);
    if text.as_str().unicode_len() == 0 || servers.len() == 0 {
        None
    } else {
        Some(servers)
    }
}

/// DNS servers from the registry: `DhcpNameServer` first, then `NameServer`.
pub fn read_dns_from_registry(reg: &RegistryValues) -> (r: Option<Vec<String>>)
    ensures
        opt_strings(r) == registry_dns(*reg),
{
    match registry_servers_of(&reg.dhcp_name_server) {
        Some(s) => Some(s),
        None => registry_servers_of(&reg.name_server),
    }
}

/// The `%Y-%m-%d %H:%M:%S` text of the date and time `secs` seconds after the start of 1970,
/// with no time zone applied (chrono's formatting of a naive date-time).
pub uninterp spec fn naive_datetime_text(secs: int) -> Seq<char>;

/// The `%Y-%m-%d %H:%M:%S` text of the date and time `secs` seconds after 1970, no time zone
/// applied: calls chrono's `DateTime::from_timestamp` and formats the naive date-time. The
/// text is a function of `secs` alone and is named, not written out; chrono has a date for
/// every count in the admitted range (years about -29 700 to 65 300, within its limits).
#[verifier::external_body]
fn naive_time_text(secs: i64) -> (r: String)
    requires
        -1_000_000_000_000 <= secs <= 2_000_000_000_000,
    ensures
        r@ == naive_datetime_text(secs as int),
{
    chrono::DateTime::from_timestamp(secs, 0).unwrap().naive_utc().format("%Y-%m-%d %H:%M:%S").to_string()
}

/// Local time text (`%Y-%m-%d %H:%M:%S`) of the instant `secs` seconds after 1970 on a
/// machine whose local time is `off` seconds ahead of UTC at that instant.
pub fn shifted_time_text(secs: i64, off: i32) -> (t: String)
    requires
        0 <= secs <= 1_000_000_000_000,
        -86_400 < off < 86_400,
    ensures
        t@ == naive_datetime_text(secs + off),
{
    naive_time_text(secs + off as i64)
}

/// How a lease text shows a registry lease time: absent for an unread or zero value,
/// otherwise the local time text of that many seconds since 1970, with the given offset.
pub open spec fn lease_shown(text: Option<String>, value: Option<u32>, off: i32) -> bool {
    match text {
        Some(t) => lease_known(value) && t@ == naive_datetime_text(value->0 + off),
        None => !lease_known(value),
    }
}

/// Text of a registry lease time: none when unread or zero, otherwise the local time of that
/// many seconds since 1970, where local time is `off` seconds ahead of UTC.
pub fn lease_time_text(value: Option<u32>, off: i32) -> (r: Option<String>)
    requires
        -86_400 < off < 86_400,
    ensures
        r is Some <==> lease_known(value),
        lease_shown(r, value, off),
{
    match value {
        Some(v) => if v == 0 {
            None
        } else {
            Some(shifted_time_text(v as i64, off))
        },
        None => None,
    }
}

/// Texts of the lease times read from the registry: when the lease was obtained and when it
/// ends, each none when unread or zero, otherwise the local time of the stored second count
/// with the offset stored beside it.
pub fn read_lease_times_from_registry(reg: &RegistryValues) -> (r: (Option<String>, Option<String>))
    requires
        -86_400 < reg.obtained_offset < 86_400,
        -86_400 < reg.terminates_offset < 86_400,
    ensures
        r.0 is Some <==> lease_known(reg.lease_obtained),
        r.1 is Some <==> lease_known(reg.lease_terminates),
        lease_shown(r.0, reg.lease_obtained, reg.obtained_offset),
        lease_shown(r.1, reg.lease_terminates, reg.terminates_offset),
{
    (lease_time_text(reg.lease_obtained, reg.obtained_offset), lease_time_text(reg.lease_terminates, reg.terminates_offset))
}

/// Local time text of a Windows FILETIME (100 ns units since 1601): none for 0 or for
/// times not after 1970; otherwise the local time of the whole seconds since 1970, where
/// local time is `off` seconds ahead of UTC.
pub fn filetime_to_string(ft: i64, off: i32) -> (r: Option<String>)
    requires
        ft >= i64::MIN + 116_444_736_000_000_000,
        -86_400 < off < 86_400,
    ensures
        ft == 0 || ft <= 116_444_736_000_000_000 ==> r is None,
        ft > 116_444_736_000_000_000 ==> r is Some,
        r matches Some(t) ==> t@ == naive_datetime_text((ft - 116_444_736_000_000_000) / 10_000_000 + off),
{
    if ft == 0 {
        return None;
    }
    let unix_epoch_offset: i64 = 116_444_736_000_000_000;
    let unix_ts_100ns = ft - unix_epoch_offset;
    if unix_ts_100ns <= 0 {
        return None;
    }
    let unix_ts_secs = unix_ts_100ns / 10_000_000;
    assert(unix_ts_secs <= 1_000_000_000_000) by (nonlinear_arith)
        requires
            unix_ts_secs == unix_ts_100ns / 10_000_000,
            0 < unix_ts_100ns <= 0x7FFF_FFFF_FFFF_FFFF,
    ;
    Some(shifted_time_text(unix_ts_secs, off))
}

/// The counters of an interface as statistics.
fn stats_of(c: &RawCounters) -> (s: AdapterStats)
    requires
        c.in_ucast_pkts + c.in_n_ucast_pkts <= u64::MAX,
        c.out_ucast_pkts + c.out_n_ucast_pkts <= u64::MAX,
    ensures
        stats_from(s, *c),
{
    AdapterStats {
        rx_bytes: c.in_octets,
        rx_packets: c.in_ucast_pkts + c.in_n_ucast_pkts,
        rx_errors: c.in_errors,
        rx_dropped: c.in_discards,
        rx_unicast: c.in_ucast_pkts,
        rx_multicast: c.in_multicast_octets,
        rx_broadcast: c.in_broadcast_octets,
        tx_bytes: c.out_octets,
        tx_packets: c.out_ucast_pkts + c.out_n_ucast_pkts,
        tx_errors: c.out_errors,
        tx_dropped: c.out_discards,
        tx_unicast: c.out_ucast_pkts,
        tx_multicast: c.out_multicast_octets,
        tx_broadcast: c.out_broadcast_octets,
        collisions: 0,
    }
}

/// The IPv4 and IPv6 addresses of the unicast entries, in order.
fn unicast_addresses(s: &Vec<RawUnicast>) -> (r: (Vec<IpAddress>, Vec<IpAddress>))
    requires
        forall|i: int| 0 <= i < v4_entries(s@).len() ==> (#[trigger] v4_entries(s@)[i]).prefix_len > 0,
    ensures
        r.0@.len() == v4_entries(s@).len(),
        forall|i: int| 0 <= i < v4_entries(s@).len() ==> shows_v4(#[trigger] r.0@[i], v4_entries(s@)[i]),
        r.1@.len() == v6_entries(s@).len(),
        forall|i: int| 0 <= i < v6_entries(s@).len() ==> shows_v6(#[trigger] r.1@[i], v6_entries(s@)[i]),
{
    let mut v4: Vec<IpAddress> = Vec::new();
    let mut v6: Vec<IpAddress> = Vec::new();
    let mut i: usize = 0;
    assert(s@.take(0) =~= Seq::<RawUnicast>::empty());
    while i < s.len()
        invariant
            i <= s@.len(),
            forall|k: int| 0 <= k < v4_entries(s@).len() ==> (#[trigger] v4_entries(s@)[k]).prefix_len > 0,
            v4@.len() == v4_entries(s@.take(i as int)).len(),
            forall|k: int| 0 <= k < v4@.len() ==> shows_v4(#[trigger] v4@[k], v4_entries(s@.take(i as int))[k]),
            v6@.len() == v6_entries(s@.take(i as int)).len(),
            forall|k: int| 0 <= k < v6@.len() ==> shows_v6(#[trigger] v6@[k], v6_entries(s@.take(i as int))[k]),
        decreases s@.len() - i,
    {
        let ghost prev = s@.take(i as int);
        let ghost next = s@.take(i + 1);
        proof {
            assert(next.drop_last() =~= prev);
            assert(next.last() == s@[i as int]);
            lemma_entries_prefix(s@, i + 1);
        }
        let u = &s[i];
        match &u.address {
            Some(RawIp::V4(o)) => {
                assert(v4_entries(next) == v4_entries(prev).push(s@[i as int]));
                assert(v4_entries(s@)[v4@.len() as int] == s@[i as int]);
                let a = IpAddress {
                    address: ipv4_to_string(*o),
                    prefix_len: u.prefix_len,
                    netmask: Some(prefix_to_netmask_v4(u.prefix_len)),
                    broadcast: Some(calc_broadcast_v4(*o, u.prefix_len)),
                    scope: classify_ipv4_scope(*o),
                };
                v4.push(a);
            },
            Some(RawIp::V6(octets)) => {
                assert(v6_entries(next) == v6_entries(prev).push(s@[i as int]));
                let a = IpAddress {
                    address: format_ipv6(*octets),
                    prefix_len: u.prefix_len,
                    netmask: None,
                    broadcast: None,
                    scope: classify_ipv6_scope(*octets),
                };
                v6.push(a);
            },
            None => {},
        }
        i = i + 1;
    }
    assert(s@.take(s@.len() as int) =~= s@);
    (v4, v6)
}

/// The adapter a system record describes; none when the record has no GUID name.
pub fn parse_adapter(raw: &RawAdapter) -> (r: Option<AdapterInfo>)
    requires
        buildable(*raw),
    ensures
        r is None <==> raw.adapter_name is None,
        r matches Some(info) ==> built_from(info, *raw),
{
    let name = match &raw.adapter_name {
        None => {
            return None;
        },
        Some(bytes) => decode_utf8(bytes.as_slice()),
    };
    let friendly_name = match &raw.friendly_name {
        None => name.clone(),
        Some(units) => decode_utf16(units.as_slice()),
    };
    let description = match &raw.description {
        None => String::new(),
        Some(units) => decode_utf16(units.as_slice()),
    };
    let adapter_type = classify_type(raw.if_type, description.as_str());
    let up = raw.oper_status == 1;
    let status = if up {
        AdapterStatus::Up
    } else {
        AdapterStatus::Down
    };
    let mac_address = if raw.physical_address.len() > 0 {
        Some(format_mac(raw.physical_address.as_slice()))
    } else {
        None
    };
    let (ipv4_addresses, ipv6_addresses) = unicast_addresses(&raw.unicast);
    let gateway = first_ipv4_text(&raw.gateways);
    let mut dns_servers = present_ip_texts(&raw.dns_servers);
    let dhcp_enabled = raw.flags & 4 != 0;
    assert(dhcp_enabled == dhcp_bit(raw.flags)) by {
        let f = raw.flags;
        assert((f & 4 != 0) == ((f / 4) % 2 == 1)) by (bit_vector);
    }
    let dhcp_server = match &raw.dhcpv4_server {
        Some(a) => Some(ip_to_string(a)),
        None => None,
    };
    if dns_servers.len() == 0 && name.as_str().unicode_len() > 0 {
        match read_dns_from_registry(&raw.registry) {
            Some(reg) => {
                dns_servers = reg;
            },
            None => {},
        }
    }
    let (dhcp_lease_obtained, dhcp_lease_expires) = read_lease_times_from_registry(&raw.registry);
    let wins_servers = present_ip_texts(&raw.wins_servers);
    let stats = match &raw.counters {
        Some(c) => Some(stats_of(c)),
        None => None,
    };
    let speed = if raw.transmit_link_speed > 0 && raw.transmit_link_speed != u64::MAX {
        Some(raw.transmit_link_speed)
    } else {
        None
    };
    let is_loopback = matches!(adapter_type, AdapterType::Loopback);
    let is_ppp = matches!(adapter_type, AdapterType::PPP);
    let flags = AdapterFlags {
        up,
        broadcast: !is_loopback && !is_ppp,
        debug: false,
        loopback: is_loopback,
        point_to_point: is_ppp,
        running: up,
        no_arp: is_loopback,
        promisc: false,
        multicast: !is_loopback,
        dynamic: false,
        dhcp: dhcp_enabled,
    };
    Some(AdapterInfo {
        index: raw.if_index,
        name: friendly_name.clone(),
        friendly_name,
        description,
        adapter_type,
        status,
        mac_address,
        ipv4_addresses,
        ipv6_addresses,
        gateway,
        dns_servers,
        dhcp_enabled,
        dhcp_server,
        dhcp_lease_obtained,
        dhcp_lease_expires,
        mtu: raw.mtu,
        speed,
        metric: raw.ipv4_metric,
        stats,
        flags,
        wins_servers,
    })
}

/// The records that carry a GUID name, in order.
pub open spec fn named(raws: Seq<RawAdapter>) -> Seq<RawAdapter>
    decreases raws.len(),
{
    if raws.len() == 0 {
        Seq::empty()
    } else if raws.last().adapter_name is Some {
        named(raws.drop_last()).push(raws.last())
    } else {
        named(raws.drop_last())
    }
}

/// Every adapter of the system, built from the records the system reports: one per record
/// that has a GUID name, in the order of the records.
pub fn get_adapters(raws: &Vec<RawAdapter>) -> (adapters: Vec<AdapterInfo>)
    requires
        forall|i: int| 0 <= i < raws@.len() ==> buildable(#[trigger] raws@[i]),
    ensures
        adapters@.len() == named(raws@).len(),
        forall|i: int| 0 <= i < adapters@.len() ==> built_from(#[trigger] adapters@[i], named(raws@)[i]),
{
    let mut adapters: Vec<AdapterInfo> = Vec::new();
    let mut i: usize = 0;
    assert(raws@.take(0) =~= Seq::<RawAdapter>::empty());
    while i < raws.len()
        invariant
            i <= raws@.len(),
            forall|k: int| 0 <= k < raws@.len() ==> buildable(#[trigger] raws@[k]),
            adapters@.len() == named(raws@.take(i as int)).len(),
            forall|k: int| 0 <= k < adapters@.len() ==> built_from(#[trigger] adapters@[k], named(raws@.take(i as int))[k]),
        decreases raws@.len() - i,
    {
        assert(raws@.take(i + 1).drop_last() =~= raws@.take(i as int));
        assert(raws@.take(i + 1).last() == raws@[i as int]);
        match parse_adapter(&raws[i]) {
            Some(info) => {
                adapters.push(info);
            },
            None => {},
        }
        i = i + 1;
    }
    assert(raws@.take(raws@.len() as int) =~= raws@);
    adapters
}

} // verus!
