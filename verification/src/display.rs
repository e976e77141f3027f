use vstd::prelude::*;
use crate::cli::Cli;
use crate::style::{line_view, lines_view, plain, push_line, push_lines, seg, seg_owned, seg_plain, sty, Color, Segment, Style};
use crate::text::{join, owned, contains, decimal, decimal_string, lowercase, push_char, str_contains, texts, to_lowercase};
use crate::types::{adapter_emoji, flag_names, scope_text, status_text, AdapterInfo, AdapterStatus, AdapterType, IpAddress};
use crate::units::{format_bytes, format_bytes_text, format_speed, format_speed_text};

verus! {

/// The text and rendering of each segment of a line.
pub type LineView = Seq<(Seq<char>, Style)>;

/// Plain coloured style.
pub open spec fn fg(c: Color) -> Style {
    sty(c, false, false)
}

/// Bold coloured style.
pub open spec fn fgb(c: Color) -> Style {
    sty(c, true, false)
}

/// Dimmed style.
pub open spec fn dim() -> Style {
    sty(Color::Plain, false, true)
}

/// `lines` when `c` holds, nothing otherwise.
pub open spec fn when(c: bool, lines: Seq<LineView>) -> Seq<LineView> {
    if c {
        lines
    } else {
        Seq::empty()
    }
}

/// The optional text of an optional string.
pub open spec fn opt_str(o: Option<String>) -> Option<Seq<char>> {
    match o {
        Some(s) => Some(s@),
        None => None,
    }
}

/// Whether an adapter is shown when no interface is named and `--all` is not given: it is up
/// and is not a loopback interface (down and loopback interfaces need `--all`).
pub open spec fn shown_by_default(a: AdapterInfo) -> bool {
    a.status == AdapterStatus::Up && !(a.adapter_type is Loopback)
}

/// Whether an adapter is shown in text output: with an interface given, when its lower-cased
/// name or friendly name contains the lower-cased interface, or its index is written as the
/// interface; otherwise with `--all`, or when it is shown by default.
pub open spec fn text_selected(a: AdapterInfo, interface: Option<Seq<char>>, all: bool) -> bool {
    match interface {
        Some(iface) => contains(lowercase(a.name@), lowercase(iface)) || contains(
            lowercase(a.friendly_name@),
            lowercase(iface),
        ) || decimal(a.index as nat) == iface,
        None => all || shown_by_default(a),
    }
}

/// Whether an adapter is shown in JSON output: as in text output, but only the name (not the
/// friendly name) is matched.
pub open spec fn json_selected(a: AdapterInfo, interface: Option<Seq<char>>, all: bool) -> bool {
    match interface {
        Some(iface) => contains(lowercase(a.name@), lowercase(iface)) || decimal(a.index as nat) == iface,
        None => all || shown_by_default(a),
    }
}

/// Positions of the adapters that text output shows, in order.
pub open spec fn text_selection(s: Seq<AdapterInfo>, interface: Option<Seq<char>>, all: bool) -> Seq<int>
    decreases s.len(),
{
    if s.len() == 0 {
        Seq::empty()
    } else {
        let rest = text_selection(s.drop_last(), interface, all);
        if text_selected(s.last(), interface, all) {
            rest.push(s.len() - 1)
        } else {
            rest
        }
    }
}

/// Positions of the adapters that JSON output shows, in order.
pub open spec fn json_selection(s: Seq<AdapterInfo>, interface: Option<Seq<char>>, all: bool) -> Seq<int>
    decreases s.len(),
{
    if s.len() == 0 {
        Seq::empty()
    } else {
        let rest = json_selection(s.drop_last(), interface, all);
        if json_selected(s.last(), interface, all) {
            rest.push(s.len() - 1)
        } else {
            rest
        }
    }
}

/// Positions as integers.
pub open spec fn positions(v: Seq<usize>) -> Seq<int> {
    v.map_values(|i: usize| i as int)
}

/// The banner: a framed title with the version.
pub open spec fn banner(version: Seq<char>) -> Seq<LineView> {
    seq![
        seq![("╔══════════════════════════════════════════════════════════════════════╗"@, fgb(Color::BrightCyan))],
        seq![
            ("║"@, fgb(Color::BrightCyan)),
            ("  "@, plain()),
            ("🌐  win-ifconfig v"@ + version + "  ─  Windows Network Interface Information"@, fgb(Color::BrightWhite)),
            ("  "@, plain()),
            ("║"@, fgb(Color::BrightCyan)),
        ],
        seq![("╚══════════════════════════════════════════════════════════════════════╝"@, fgb(Color::BrightCyan))],
    ]
}

/// The line with the host name and the time.
pub open spec fn host_line(host: Seq<char>, time: Seq<char>) -> LineView {
    seq![
        ("  "@, plain()),
        ("🖥️  Hostname:"@, fgb(Color::BrightCyan)),
        (" "@, plain()),
        (host, fgb(Color::BrightWhite)),
        ("   "@, plain()),
        ("🕐"@, dim()),
        (" "@, plain()),
        (time, fg(Color::BrightBlack)),
    ]
}

/// The message when nothing is shown.
pub open spec fn nothing_line(interface: Option<Seq<char>>) -> LineView {
    match interface {
        Some(iface) => seq![("❌ Interface '"@ + iface + "' not found."@, fgb(Color::Red))],
        None => seq![("❌ No active interfaces found. Use -a to show all."@, fg(Color::Red))],
    }
}

/// Style of a status word.
pub open spec fn status_style(s: AdapterStatus) -> Style {
    match s {
        AdapterStatus::Up => fgb(Color::BrightGreen),
        AdapterStatus::Down => fgb(Color::BrightRed),
        _ => fgb(Color::BrightYellow),
    }
}

/// The short name of a link type.
pub open spec fn link_type_text(t: AdapterType) -> Seq<char> {
    match t {
        AdapterType::Ethernet => "ether"@,
        AdapterType::WiFi => "ieee802.11"@,
        AdapterType::Loopback => "loopback"@,
        AdapterType::Tunnel => "tunnel"@,
        AdapterType::PPP => "ppp"@,
        AdapterType::Bridge => "bridge"@,
        AdapterType::VPN => "vpn"@,
        AdapterType::Other(_) => "unknown"@,
    }
}

/// The one-line view: symbol, name, status, hardware address (or `N/A`) and first IPv4
/// address (or `No IP`).
pub open spec fn brief_line(a: AdapterInfo) -> LineView {
    seq![
        (adapter_emoji(a.adapter_type), plain()),
        ("  "@, plain()),
        (a.name@, fgb(Color::BrightWhite)),
        ("  "@, plain()),
        (status_text(a.status), status_style(a.status)),
        ("  "@, plain()),
        (match a.mac_address { Some(m) => m@, None => "N/A"@ }, fg(Color::BrightYellow)),
        ("  "@, plain()),
        (if a.ipv4_addresses@.len() > 0 { a.ipv4_addresses@[0].address@ } else { "No IP"@ }, fg(Color::BrightGreen)),
    ]
}

/// Eight spaces of indentation.
pub open spec fn indent() -> (Seq<char>, Style) {
    ("        "@, plain())
}

/// Style of a counter that is red when positive.
pub open spec fn alarm(n: u64) -> Style {
    if n > 0 { fg(Color::BrightRed) } else { fg(Color::BrightBlack) }
}

/// Style of a counter that is yellow when positive.
pub open spec fn warn(n: u64) -> Style {
    if n > 0 { fg(Color::Yellow) } else { fg(Color::BrightBlack) }
}

/// The header line of the full view.
pub open spec fn header_line(a: AdapterInfo) -> LineView {
    seq![
        (adapter_emoji(a.adapter_type), plain()),
        (" "@, plain()),
        (a.name@, fgb(Color::BrightWhite)),
        (": <"@, plain()),
        (join(flag_names(a.flags), ","@), fg(Color::BrightCyan)),
        ("> "@, plain()),
        (status_text(a.status), status_style(a.status)),
        (" "@, plain()),
        ("mtu "@ + decimal(a.mtu as nat), fg(Color::BrightBlack)),
        (" "@, plain()),
        ("metric "@ + decimal(a.metric as nat), fg(Color::Yellow)),
    ]
}

/// An IPv4 address line.
pub open spec fn inet_line(ip: IpAddress) -> LineView {
    seq![
        indent(),
        ("inet"@, fgb(Color::BrightBlue)),
        ("   "@, plain()),
        (ip.address@, fgb(Color::BrightGreen)),
        ("  netmask "@, plain()),
        (match ip.netmask { Some(m) => m@, None => ""@ }, fg(Color::BrightBlack)),
        ("  broadcast "@, plain()),
        (match ip.broadcast { Some(b) => b@, None => ""@ }, fg(Color::BrightBlack)),
        ("  "@, plain()),
        ("scope "@ + scope_text(ip.scope), dim()),
    ]
}

/// An IPv6 address line.
pub open spec fn inet6_line(ip: IpAddress) -> LineView {
    seq![
        indent(),
        ("inet6"@, fgb(Color::BrightBlue)),
        ("  "@, plain()),
        (ip.address@, fgb(Color::BrightCyan)),
        ("/"@, plain()),
        (decimal(ip.prefix_len as nat), fg(Color::BrightBlack)),
        ("  "@, plain()),
        ("scope "@ + scope_text(ip.scope), dim()),
    ]
}

/// A labelled value line: `        <icon> <label> <value>`.
pub open spec fn labelled(icon: Seq<char>, label: Seq<char>, label_style: Style, value: Seq<char>, value_style: Style) -> LineView {
    seq![indent(), (icon, dim()), (" "@, plain()), (label, label_style), (" "@, plain()), (value, value_style)]
}

/// A list entry line under a heading.
pub open spec fn entry_line(v: Seq<char>) -> LineView {
    seq![("             "@, plain()), (v, fg(Color::BrightWhite))]
}

/// Unicast, multicast and broadcast counters.
pub open spec fn cast_line(u: u64, m: u64, b: u64) -> LineView {
    seq![
        ("               unicast:"@, plain()),
        (decimal(u as nat), fg(Color::BrightBlack)),
        (" multicast:"@, plain()),
        (decimal(m as nat), fg(Color::BrightBlack)),
        (" broadcast:"@, plain()),
        (decimal(b as nat), fg(Color::BrightBlack)),
    ]
}

/// Packet counters of one direction.
pub open spec fn packets_line(icon: Seq<char>, dir: Seq<char>, dir_style: Style, packets: u64, errors: u64, dropped: u64, tail: Seq<char>) -> LineView {
    seq![
        indent(),
        (icon, dim()),
        (" "@, plain()),
        (dir, dir_style),
        (" packets:"@, plain()),
        (decimal(packets as nat), fg(Color::BrightWhite)),
        (" errors:"@, plain()),
        (decimal(errors as nat), alarm(errors)),
        (" dropped:"@, plain()),
        (decimal(dropped as nat), warn(dropped)),
        (tail, plain()),
    ]
}

/// Byte counter of one direction, exact and human-readable.
pub open spec fn bytes_line(dir: Seq<char>, dir_style: Style, bytes: u64) -> LineView {
    seq![
        indent(),
        ("   "@, dim()),
        (" "@, plain()),
        (dir, dir_style),
        (" bytes:"@, plain()),
        (decimal(bytes as nat), fg(Color::BrightWhite)),
        ("  ("@, plain()),
        (format_bytes_text(bytes as nat), fg(Color::BrightCyan)),
        (")"@, plain()),
    ]
}

/// The separator between adapters.
pub open spec fn rule(c: char) -> Seq<char> {
    Seq::new(70, |i: int| c)
}

/// Lines of a list under a heading.
pub open spec fn entries(v: Seq<Seq<char>>) -> Seq<LineView> {
    Seq::new(v.len(), |i: int| entry_line(v[i]))
}

/// Statistics lines; unicast, multicast and broadcast counters with `--stats` or `--verbose`.
pub open spec fn stats_lines(a: AdapterInfo, extended: bool) -> Seq<LineView> {
    match a.stats {
        None => Seq::empty(),
        Some(s) => seq![
            Seq::empty(),
            packets_line("📥"@, "RX"@, fgb(Color::BrightGreen), s.rx_packets, s.rx_errors, s.rx_dropped, " overruns:0 frame:0"@),
            bytes_line("RX"@, fgb(Color::BrightGreen), s.rx_bytes),
        ] + when(extended, seq![cast_line(s.rx_unicast, s.rx_multicast, s.rx_broadcast)]) + seq![
            packets_line("📤"@, "TX"@, fgb(Color::BrightMagenta), s.tx_packets, s.tx_errors, s.tx_dropped, " overruns:0 carrier:0"@),
            bytes_line("TX"@, fgb(Color::BrightMagenta), s.tx_bytes),
        ] + when(extended, seq![cast_line(s.tx_unicast, s.tx_multicast, s.tx_broadcast)]) + seq![
            seq![("               collisions:"@, plain()), (decimal(s.collisions as nat), alarm(s.collisions))],
        ],
    }
}

/// Metric, speed, MTU and index lines.
pub open spec fn metric_lines(a: AdapterInfo) -> Seq<LineView> {
    seq![
        Seq::empty(),
        labelled("📊"@, "METRIC:"@, fgb(Color::BrightYellow), decimal(a.metric as nat), fg(Color::BrightWhite)),
    ] + (match a.speed {
        Some(sp) => seq![labelled("⚡"@, "SPEED:"@, fgb(Color::BrightYellow), format_speed_text(sp as nat), fg(Color::BrightMagenta))],
        None => Seq::empty(),
    }) + seq![
        labelled("📦"@, "MTU:"@, fgb(Color::BrightYellow), decimal(a.mtu as nat), fg(Color::BrightWhite)),
        labelled("🔢"@, "INDEX:"@, fgb(Color::BrightYellow), decimal(a.index as nat), fg(Color::BrightWhite)),
    ]
}

/// A DHCP detail line, shown when the value is known.
pub open spec fn dhcp_detail(label: Seq<char>, v: Option<String>) -> Seq<LineView> {
    match v {
        Some(s) => seq![labelled("   "@, label, fg(Color::BrightBlack), s@, fg(Color::BrightWhite))],
        None => Seq::empty(),
    }
}

/// DHCP lines.
pub open spec fn dhcp_lines(a: AdapterInfo) -> Seq<LineView> {
    if a.dhcp_enabled {
        seq![Seq::empty(), labelled("🏷️ "@, "DHCP:"@, fgb(Color::BrightCyan), "enabled"@, fg(Color::BrightGreen))]
            + dhcp_detail("Server:"@, a.dhcp_server) + dhcp_detail("Lease obtained:"@, a.dhcp_lease_obtained)
            + dhcp_detail("Lease expires: "@, a.dhcp_lease_expires)
    } else {
        seq![Seq::empty(), labelled("🏷️ "@, "DHCP:"@, fgb(Color::BrightCyan), "disabled (static)"@, fg(Color::BrightYellow))]
    }
}

/// A heading line such as `DNS servers:`.
pub open spec fn heading(title: Seq<char>) -> LineView {
    seq![indent(), ("🔍"@, dim()), (" "@, plain()), (title, fgb(Color::BrightCyan))]
}

/// The link line: link type and description.
pub open spec fn link_line(a: AdapterInfo) -> LineView {
    seq![indent(), ("link/"@ + link_type_text(a.adapter_type), fg(Color::BrightBlack)), ("  "@, plain()), (a.description@, dim())]
}

/// The hardware address line.
pub open spec fn ether_line(m: Seq<char>) -> LineView {
    seq![indent(), ("ether"@, fg(Color::BrightBlack)), ("    "@, plain()), (m, fgb(Color::BrightYellow)), (" "@, plain()), ("txqueuelen 1000"@, fg(Color::BrightBlack))]
}

/// The hardware address line, when the address is known.
pub open spec fn ether_lines(a: AdapterInfo) -> Seq<LineView> {
    match a.mac_address {
        Some(m) => seq![ether_line(m@)],
        None => Seq::empty(),
    }
}

/// The speed line.
pub open spec fn speed_line(sp: u64) -> LineView {
    seq![indent(), ("speed"@, fg(Color::BrightBlack)), ("  "@, plain()), (format_speed_text(sp as nat), fgb(Color::BrightMagenta))]
}

/// The speed line, when the speed is known.
pub open spec fn speed_lines(a: AdapterInfo) -> Seq<LineView> {
    match a.speed {
        Some(sp) => seq![speed_line(sp)],
        None => Seq::empty(),
    }
}

/// Header, link, hardware address and speed.
pub open spec fn head_lines(a: AdapterInfo) -> Seq<LineView> {
    seq![header_line(a), link_line(a)] + ether_lines(a) + speed_lines(a)
}

/// One line per IPv4 address, then one per IPv6 address.
pub open spec fn address_lines(a: AdapterInfo) -> Seq<LineView> {
    Seq::new(a.ipv4_addresses@.len(), |i: int| inet_line(a.ipv4_addresses@[i]))
        + Seq::new(a.ipv6_addresses@.len(), |i: int| inet6_line(a.ipv6_addresses@[i]))
}

/// The gateway line.
pub open spec fn gateway_line(g: Seq<char>) -> LineView {
    seq![indent(), ("gateway"@, fg(Color::BrightBlack)), ("     "@, plain()), (g, fg(Color::BrightYellow))]
}

/// The gateway line, when there is a gateway.
pub open spec fn gateway_lines(a: AdapterInfo) -> Seq<LineView> {
    match a.gateway {
        Some(g) => seq![gateway_line(g@)],
        None => Seq::empty(),
    }
}

/// The DNS server list, when asked for and not empty.
pub open spec fn dns_lines(a: AdapterInfo, shown: bool) -> Seq<LineView> {
    when(shown && a.dns_servers@.len() > 0, seq![Seq::empty(), heading("DNS servers:"@)] + entries(texts(a.dns_servers@)))
}

/// The WINS server list, when asked for and not empty.
pub open spec fn wins_lines(a: AdapterInfo, shown: bool) -> Seq<LineView> {
    when(shown && a.wins_servers@.len() > 0, seq![heading("WINS servers:"@)] + entries(texts(a.wins_servers@)))
}

/// The separator that closes the full view.
pub open spec fn closing_lines() -> Seq<LineView> {
    seq![Seq::empty(), seq![(rule('─'), fg(Color::BrightBlack))], Seq::empty()]
}

/// The full view of an adapter, in the style of `ifconfig`: header, link, hardware address,
/// speed, addresses, gateway, statistics, then metric, DHCP, DNS and WINS details as the
/// options ask, and a separator.
pub open spec fn full_lines(a: AdapterInfo, cli: Cli) -> Seq<LineView> {
    head_lines(a) + address_lines(a) + gateway_lines(a) + stats_lines(a, cli.stats || cli.verbose)
        + when(cli.metrics || cli.verbose, metric_lines(a))
        + when(cli.dhcp || cli.verbose, dhcp_lines(a))
        + dns_lines(a, cli.dns || cli.verbose)
        + wins_lines(a, cli.verbose)
        + closing_lines()
}

/// Positions of the adapters that text output shows.
pub fn select_for_text(adapters: &Vec<AdapterInfo>, interface: &Option<String>, all: bool) -> (r: Vec<usize>)
    ensures
        positions(r@) == text_selection(adapters@, opt_str(*interface), all),
{
    let lower = match interface {
        Some(i) => Some(to_lowercase(i.as_str())),
        None => None,
    };
    let mut r: Vec<usize> = Vec::new();
    let mut k: usize = 0;
    assert(adapters@.take(0) =~= Seq::<AdapterInfo>::empty());
    while k < adapters.len()
        invariant
            k <= adapters@.len(),
            match *interface {
                Some(i) => lower matches Some(l) && l@ == lowercase(i@),
                None => lower is None,
            },
            positions(r@) == text_selection(adapters@.take(k as int), opt_str(*interface), all),
        decreases adapters@.len() - k,
    {
        let a = &adapters[k];
        let ghost pre = adapters@.take(k as int);
        assert(adapters@.take(k + 1).drop_last() =~= pre);
        assert(adapters@.take(k + 1).last() == adapters@[k as int]);
        let keep = match (interface, &lower) {
            (Some(iface), Some(l)) => {
                let name_l = to_lowercase(a.name.as_str());
                let friendly_l = to_lowercase(a.friendly_name.as_str());
                let idx = decimal_string(a.index as u64);
                str_contains(name_l.as_str(), l.as_str()) || str_contains(friendly_l.as_str(), l.as_str())
                    || idx == *iface
            },
            _ => all || (matches!(a.status, AdapterStatus::Up) && !matches!(a.adapter_type, AdapterType::Loopback)),
        };
        if keep {
            let ghost before = r@;
            r.push(k);
            assert(positions(r@) =~= positions(before).push(k as int));
        }
        k = k + 1;
    }
    assert(adapters@.take(adapters@.len() as int) =~= adapters@);
    r
}

/// Positions of the adapters that JSON output shows.
pub fn output_json(adapters: &Vec<AdapterInfo>, interface: &Option<String>, all: bool) -> (r: Vec<usize>)
    ensures
        positions(r@) == json_selection(adapters@, opt_str(*interface), all),
{
    let lower = match interface {
        Some(i) => Some(to_lowercase(i.as_str())),
        None => None,
    };
    let mut r: Vec<usize> = Vec::new();
    let mut k: usize = 0;
    assert(adapters@.take(0) =~= Seq::<AdapterInfo>::empty());
    while k < adapters.len()
        invariant
            k <= adapters@.len(),
            match *interface {
                Some(i) => lower matches Some(l) && l@ == lowercase(i@),
                None => lower is None,
            },
            positions(r@) == json_selection(adapters@.take(k as int), opt_str(*interface), all),
        decreases adapters@.len() - k,
    {
        let a = &adapters[k];
        let ghost pre = adapters@.take(k as int);
        assert(adapters@.take(k + 1).drop_last() =~= pre);
        assert(adapters@.take(k + 1).last() == adapters@[k as int]);
        let keep = match (interface, &lower) {
            (Some(iface), Some(l)) => {
                let name_l = to_lowercase(a.name.as_str());
                let idx = decimal_string(a.index as u64);
                str_contains(name_l.as_str(), l.as_str()) || idx == *iface
            },
            _ => all || (matches!(a.status, AdapterStatus::Up) && !matches!(a.adapter_type, AdapterType::Loopback)),
        };
        if keep {
            let ghost before = r@;
            r.push(k);
            assert(positions(r@) =~= positions(before).push(k as int));
        }
        k = k + 1;
    }
    assert(adapters@.take(adapters@.len() as int) =~= adapters@);
    r
}

fn fg_seg(text: String, color: Color) -> (s: Segment)
    ensures
        s@ == (text@, fg(color)),
{
    seg_owned(text, color, false, false)
}

fn bold_seg(text: String, color: Color) -> (s: Segment)
    ensures
        s@ == (text@, fgb(color)),
{
    seg_owned(text, color, true, false)
}

fn lit(text: &str, color: Color, bold: bool) -> (s: Segment)
    ensures
        s@ == (text@, sty(color, bold, false)),
{
    seg(text, color, bold, false)
}

fn dim_seg(text: &str) -> (s: Segment)
    ensures
        s@ == (text@, dim()),
{
    seg(text, Color::Plain, false, true)
}

fn concat(a: &str, b: &str) -> (r: String)
    ensures
        r@ == a@ + b@,
{
    let mut r = a.to_owned();
    r.append(b);
    r
}

/// The banner: a framed title with the version.
pub fn banner_lines(version: &str) -> (lines: Vec<Vec<Segment>>)
    ensures
        lines_view(lines@) == banner(version@),
{
    let l1 = vec![lit("╔══════════════════════════════════════════════════════════════════════╗", Color::BrightCyan, true)];
    let mut title = owned("🌐  win-ifconfig v");
    title.append(version);
    title.append("  ─  Windows Network Interface Information");
    let ghost tv = title@;
    let l2 = vec![lit("║", Color::BrightCyan, true), seg_plain("  "), bold_seg(title, Color::BrightWhite), seg_plain("  "), lit("║", Color::BrightCyan, true)];
    let l3 = vec![lit("╚══════════════════════════════════════════════════════════════════════╝", Color::BrightCyan, true)];
    assert(line_view(l2@) =~= banner(version@)[1]);
    assert(line_view(l1@) =~= banner(version@)[0]);
    assert(line_view(l3@) =~= banner(version@)[2]);
    let lines = vec![l1, l2, l3];
    assert(lines_view(lines@) =~= banner(version@));
    lines
}

/// The line with the host name and the time.
pub fn hostname_line(host: &str, time: &str) -> (l: Vec<Segment>)
    ensures
        line_view(l@) == host_line(host@, time@),
{
    let l = vec![
        seg_plain("  "),
        lit("🖥️  Hostname:", Color::BrightCyan, true),
        seg_plain(" "),
        lit(host, Color::BrightWhite, true),
        seg_plain("   "),
        dim_seg("🕐"),
        seg_plain(" "),
        lit(time, Color::BrightBlack, false),
    ];
    assert(line_view(l@) =~= host_line(host@, time@));
    l
}

/// The message when no adapter is shown.
pub fn not_found_line(interface: &Option<String>) -> (l: Vec<Segment>)
    ensures
        line_view(l@) == nothing_line(opt_str(*interface)),
{
    match interface {
        Some(iface) => {
            let mut t = owned("❌ Interface '");
            t.append(iface.as_str());
            t.append("' not found.");
            let l = vec![bold_seg(t, Color::Red)];
            assert(line_view(l@) =~= nothing_line(opt_str(*interface)));
            l
        },
        None => {
            let l = vec![lit("❌ No active interfaces found. Use -a to show all.", Color::Red, false)];
            assert(line_view(l@) =~= nothing_line(opt_str(*interface)));
            l
        },
    }
}

fn status_segment(s: &AdapterStatus) -> (r: Segment)
    ensures
        r@ == (status_text(*s), status_style(*s)),
{
    let color = match s {
        AdapterStatus::Up => Color::BrightGreen,
        AdapterStatus::Down => Color::BrightRed,
        _ => Color::BrightYellow,
    };
    bold_seg(s.to_text(), color)
}

/// The one-line view of an adapter (`--brief`).
pub fn print_adapter_brief(a: &AdapterInfo) -> (l: Vec<Segment>)
    ensures
        line_view(l@) == brief_line(*a),
{
    let mac = match &a.mac_address {
        Some(m) => m.clone(),
        None => owned("N/A"),
    };
    let ip = if a.ipv4_addresses.len() > 0 {
        a.ipv4_addresses[0].address.clone()
    } else {
        owned("No IP")
    };
    let l = vec![
        seg_plain(a.adapter_type.emoji()),
        seg_plain("  "),
        bold_seg(a.name.clone(), Color::BrightWhite),
        seg_plain("  "),
        status_segment(&a.status),
        seg_plain("  "),
        fg_seg(mac, Color::BrightYellow),
        seg_plain("  "),
        fg_seg(ip, Color::BrightGreen),
    ];
    assert(line_view(l@) =~= brief_line(*a));
    l
}

fn indent_seg() -> (s: Segment)
    ensures
        s@ == indent(),
{
    seg_plain("        ")
}

fn count_seg(n: u64, color: Color) -> (s: Segment)
    ensures
        s@ == (decimal(n as nat), fg(color)),
{
    fg_seg(decimal_string(n), color)
}

fn alarm_seg(n: u64) -> (s: Segment)
    ensures
        s@ == (decimal(n as nat), alarm(n)),
{
    count_seg(n, if n > 0 { Color::BrightRed } else { Color::BrightBlack })
}

fn warn_seg(n: u64) -> (s: Segment)
    ensures
        s@ == (decimal(n as nat), warn(n)),
{
    count_seg(n, if n > 0 { Color::Yellow } else { Color::BrightBlack })
}

fn empty_line() -> (l: Vec<Segment>)
    ensures
        line_view(l@) == Seq::<(Seq<char>, Style)>::empty(),
{
    let l: Vec<Segment> = Vec::new();
    assert(line_view(l@) =~= Seq::<(Seq<char>, Style)>::empty());
    l
}

fn one_line(l: Vec<Segment>) -> (r: Vec<Vec<Segment>>)
    ensures
        lines_view(r@) == seq![line_view(l@)],
{
    let r = vec![l];
    assert(lines_view(r@) =~= seq![line_view(r@[0]@)]);
    r
}

fn no_lines() -> (r: Vec<Vec<Segment>>)
    ensures
        lines_view(r@) == Seq::<LineView>::empty(),
{
    let r: Vec<Vec<Segment>> = Vec::new();
    assert(lines_view(r@) =~= Seq::<LineView>::empty());
    r
}

fn labelled_line(icon: &str, label: &str, label_color: Color, label_bold: bool, value: String, value_color: Color) -> (l: Vec<Segment>)
    ensures
        line_view(l@) == labelled(icon@, label@, sty(label_color, label_bold, false), value@, fg(value_color)),
{
    let l = vec![indent_seg(), dim_seg(icon), seg_plain(" "), lit(label, label_color, label_bold), seg_plain(" "), fg_seg(value, value_color)];
    assert(line_view(l@) =~= labelled(icon@, label@, sty(label_color, label_bold, false), value@, fg(value_color)));
    l
}

fn header(a: &AdapterInfo) -> (l: Vec<Segment>)
    ensures
        line_view(l@) == header_line(*a),
{
    let l = vec![
        seg_plain(a.adapter_type.emoji()),
        seg_plain(" "),
        bold_seg(a.name.clone(), Color::BrightWhite),
        seg_plain(": <"),
        fg_seg(a.flags.to_flag_string(), Color::BrightCyan),
        seg_plain("> "),
        status_segment(&a.status),
        seg_plain(" "),
        fg_seg(concat("mtu ", decimal_string(a.mtu as u64).as_str()), Color::BrightBlack),
        seg_plain(" "),
        fg_seg(concat("metric ", decimal_string(a.metric as u64).as_str()), Color::Yellow),
    ];
    assert(line_view(l@) =~= header_line(*a));
    l
}

fn link_type_name(t: &AdapterType) -> (s: &'static str)
    ensures
        s@ == link_type_text(*t),
{
    match t {
        AdapterType::Ethernet => "ether",
        AdapterType::WiFi => "ieee802.11",
        AdapterType::Loopback => "loopback",
        AdapterType::Tunnel => "tunnel",
        AdapterType::PPP => "ppp",
        AdapterType::Bridge => "bridge",
        AdapterType::VPN => "vpn",
        AdapterType::Other(_) => "unknown",
    }
}

fn opt_or(o: &Option<String>, default: &str) -> (s: String)
    ensures
        s@ == match *o { Some(v) => v@, None => default@ },
{
    match o {
        Some(v) => v.clone(),
        None => owned(default),
    }
}

fn inet(ip: &IpAddress) -> (l: Vec<Segment>)
    ensures
        line_view(l@) == inet_line(*ip),
{
    let l = vec![
        indent_seg(),
        lit("inet", Color::BrightBlue, true),
        seg_plain("   "),
        bold_seg(ip.address.clone(), Color::BrightGreen),
        seg_plain("  netmask "),
        fg_seg(opt_or(&ip.netmask, ""), Color::BrightBlack),
        seg_plain("  broadcast "),
        fg_seg(opt_or(&ip.broadcast, ""), Color::BrightBlack),
        seg_plain("  "),
        seg_owned(concat("scope ", ip.scope.to_text().as_str()), Color::Plain, false, true),
    ];
    assert(line_view(l@) =~= inet_line(*ip));
    l
}

fn inet6(ip: &IpAddress) -> (l: Vec<Segment>)
    ensures
        line_view(l@) == inet6_line(*ip),
{
    let l = vec![
        indent_seg(),
        lit("inet6", Color::BrightBlue, true),
        seg_plain("  "),
        bold_seg(ip.address.clone(), Color::BrightCyan),
        seg_plain("/"),
        count_seg(ip.prefix_len as u64, Color::BrightBlack),
        seg_plain("  "),
        seg_owned(concat("scope ", ip.scope.to_text().as_str()), Color::Plain, false, true),
    ];
    assert(line_view(l@) =~= inet6_line(*ip));
    l
}

fn packets(icon: &str, dir: &str, dir_color: Color, p: u64, e: u64, d: u64, tail: &str) -> (l: Vec<Segment>)
    ensures
        line_view(l@) == packets_line(icon@, dir@, fgb(dir_color), p, e, d, tail@),
{
    let l = vec![
        indent_seg(),
        dim_seg(icon),
        seg_plain(" "),
        lit(dir, dir_color, true),
        seg_plain(" packets:"),
        count_seg(p, Color::BrightWhite),
        seg_plain(" errors:"),
        alarm_seg(e),
        seg_plain(" dropped:"),
        warn_seg(d),
        seg_plain(tail),
    ];
    assert(line_view(l@) =~= packets_line(icon@, dir@, fgb(dir_color), p, e, d, tail@));
    l
}

fn bytes_count(dir: &str, dir_color: Color, b: u64) -> (l: Vec<Segment>)
    ensures
        line_view(l@) == bytes_line(dir@, fgb(dir_color), b),
{
    let l = vec![
        indent_seg(),
        dim_seg("   "),
        seg_plain(" "),
        lit(dir, dir_color, true),
        seg_plain(" bytes:"),
        count_seg(b, Color::BrightWhite),
        seg_plain("  ("),
        fg_seg(format_bytes(b), Color::BrightCyan),
        seg_plain(")"),
    ];
    assert(line_view(l@) =~= bytes_line(dir@, fgb(dir_color), b));
    l
}

fn casts(u: u64, m: u64, b: u64) -> (l: Vec<Segment>)
    ensures
        line_view(l@) == cast_line(u, m, b),
{
    let l = vec![
        seg_plain("               unicast:"),
        count_seg(u, Color::BrightBlack),
        seg_plain(" multicast:"),
        count_seg(m, Color::BrightBlack),
        seg_plain(" broadcast:"),
        count_seg(b, Color::BrightBlack),
    ];
    assert(line_view(l@) =~= cast_line(u, m, b));
    l
}

fn stats_section(a: &AdapterInfo, extended: bool) -> (r: Vec<Vec<Segment>>)
    ensures
        lines_view(r@) == stats_lines(*a, extended),
{
    match &a.stats {
        None => no_lines(),
        Some(s) => {
            let mut r: Vec<Vec<Segment>> = Vec::new();
            let ghost s0 = lines_view(r@);
            push_line(&mut r, empty_line());
            push_line(&mut r, packets("📥", "RX", Color::BrightGreen, s.rx_packets, s.rx_errors, s.rx_dropped, " overruns:0 frame:0"));
            push_line(&mut r, bytes_count("RX", Color::BrightGreen, s.rx_bytes));
            let ghost s1 = lines_view(r@);
            if extended {
                push_line(&mut r, casts(s.rx_unicast, s.rx_multicast, s.rx_broadcast));
            }
            let ghost s2 = lines_view(r@);
            push_line(&mut r, packets("📤", "TX", Color::BrightMagenta, s.tx_packets, s.tx_errors, s.tx_dropped, " overruns:0 carrier:0"));
            push_line(&mut r, bytes_count("TX", Color::BrightMagenta, s.tx_bytes));
            let ghost s3 = lines_view(r@);
            if extended {
                push_line(&mut r, casts(s.tx_unicast, s.tx_multicast, s.tx_broadcast));
            }
            let ghost s4 = lines_view(r@);
            let c = vec![seg_plain("               collisions:"), alarm_seg(s.collisions)];
            assert(line_view(c@) =~= seq![("               collisions:"@, plain()), (decimal(s.collisions as nat), alarm(s.collisions))]);
            push_line(&mut r, c);
            assert(lines_view(r@) =~= stats_lines(*a, extended));
            r
        },
    }
}

fn metric_section(a: &AdapterInfo) -> (r: Vec<Vec<Segment>>)
    ensures
        lines_view(r@) == metric_lines(*a),
{
    let mut r: Vec<Vec<Segment>> = Vec::new();
    push_line(&mut r, empty_line());
    push_line(&mut r, labelled_line("📊", "METRIC:", Color::BrightYellow, true, decimal_string(a.metric as u64), Color::BrightWhite));
    match a.speed {
        Some(sp) => {
            push_line(&mut r, labelled_line("⚡", "SPEED:", Color::BrightYellow, true, format_speed(sp), Color::BrightMagenta));
        },
        None => {},
    }
    push_line(&mut r, labelled_line("📦", "MTU:", Color::BrightYellow, true, decimal_string(a.mtu as u64), Color::BrightWhite));
    push_line(&mut r, labelled_line("🔢", "INDEX:", Color::BrightYellow, true, decimal_string(a.index as u64), Color::BrightWhite));
    assert(lines_view(r@) =~= metric_lines(*a));
    r
}

fn dhcp_detail_lines(label: &str, v: &Option<String>) -> (r: Vec<Vec<Segment>>)
    ensures
        lines_view(r@) == dhcp_detail(label@, *v),
{
    match v {
        Some(s) => {
            let r = one_line(labelled_line("   ", label, Color::BrightBlack, false, s.clone(), Color::BrightWhite));
            assert(lines_view(r@) =~= dhcp_detail(label@, *v));
            r
        },
        None => no_lines(),
    }
}

fn dhcp_section(a: &AdapterInfo) -> (r: Vec<Vec<Segment>>)
    ensures
        lines_view(r@) == dhcp_lines(*a),
{
    let mut r: Vec<Vec<Segment>> = Vec::new();
    push_line(&mut r, empty_line());
    if a.dhcp_enabled {
        push_line(&mut r, labelled_line("🏷️ ", "DHCP:", Color::BrightCyan, true, owned("enabled"), Color::BrightGreen));
        let ghost s0 = lines_view(r@);
        push_lines(&mut r, dhcp_detail_lines("Server:", &a.dhcp_server));
        push_lines(&mut r, dhcp_detail_lines("Lease obtained:", &a.dhcp_lease_obtained));
        push_lines(&mut r, dhcp_detail_lines("Lease expires: ", &a.dhcp_lease_expires));
    } else {
        push_line(&mut r, labelled_line("🏷️ ", "DHCP:", Color::BrightCyan, true, owned("disabled (static)"), Color::BrightYellow));
    }
    assert(lines_view(r@) =~= dhcp_lines(*a));
    r
}

fn heading_line(title: &str) -> (l: Vec<Segment>)
    ensures
        line_view(l@) == heading(title@),
{
    let l = vec![indent_seg(), dim_seg("🔍"), seg_plain(" "), lit(title, Color::BrightCyan, true)];
    assert(line_view(l@) =~= heading(title@));
    l
}

fn entry_lines(v: &Vec<String>) -> (r: Vec<Vec<Segment>>)
    ensures
        lines_view(r@) == entries(texts(v@)),
{
    let mut r: Vec<Vec<Segment>> = Vec::new();
    let mut i: usize = 0;
    while i < v.len()
        invariant
            i <= v@.len(),
            lines_view(r@) == entries(texts(v@)).take(i as int),
        decreases v@.len() - i,
    {
        let l = vec![seg_plain("             "), fg_seg(v[i].clone(), Color::BrightWhite)];
        assert(line_view(l@) =~= entry_line(v@[i as int]@));
        push_line(&mut r, l);
        assert(entries(texts(v@)).take(i + 1) =~= entries(texts(v@)).take(i as int).push(entry_line(v@[i as int]@)));
        i = i + 1;
    }
    assert(entries(texts(v@)).take(v@.len() as int) =~= entries(texts(v@)));
    r
}

fn rule_text(c: char) -> (s: String)
    ensures
        s@ == rule(c),
{
    let mut s = String::new();
    let mut i: usize = 0;
    while i < 70
        invariant
            i <= 70,
            s@ == Seq::new(i as nat, |k: int| c),
        decreases 70 - i,
    {
        push_char(&mut s, c);
        assert(s@ =~= Seq::new((i + 1) as nat, |k: int| c));
        i = i + 1;
    }
    s
}

fn head_section(a: &AdapterInfo) -> (r: Vec<Vec<Segment>>)
    ensures
        lines_view(r@) == head_lines(*a),
{
    let mut r: Vec<Vec<Segment>> = Vec::new();
    push_line(&mut r, header(a));
    let link = vec![indent_seg(), fg_seg(concat("link/", link_type_name(&a.adapter_type)), Color::BrightBlack), seg_plain("  "), seg_owned(a.description.clone(), Color::Plain, false, true)];
    assert(line_view(link@) =~= link_line(*a));
    push_line(&mut r, link);
    match &a.mac_address {
        Some(m) => {
            let l = vec![indent_seg(), lit("ether", Color::BrightBlack, false), seg_plain("    "), bold_seg(m.clone(), Color::BrightYellow), seg_plain(" "), lit("txqueuelen 1000", Color::BrightBlack, false)];
            assert(line_view(l@) =~= ether_line(m@));
            push_line(&mut r, l);
        },
        None => {},
    }
    let ghost p2 = lines_view(r@);
    assert(p2 =~= seq![header_line(*a), link_line(*a)] + ether_lines(*a));
    match a.speed {
        Some(sp) => {
            let l = vec![indent_seg(), lit("speed", Color::BrightBlack, false), seg_plain("  "), bold_seg(format_speed(sp), Color::BrightMagenta)];
            assert(line_view(l@) =~= speed_line(sp));
            push_line(&mut r, l);
        },
        None => {},
    }
    assert(lines_view(r@) =~= head_lines(*a));
    r
}

fn address_section(a: &AdapterInfo) -> (r: Vec<Vec<Segment>>)
    ensures
        lines_view(r@) == address_lines(*a),
{
    let mut r: Vec<Vec<Segment>> = Vec::new();
    let mut i: usize = 0;
    while i < a.ipv4_addresses.len()
        invariant
            i <= a.ipv4_addresses@.len(),
            lines_view(r@) == Seq::new(i as nat, |k: int| inet_line(a.ipv4_addresses@[k])),
        decreases a.ipv4_addresses@.len() - i,
    {
        push_line(&mut r, inet(&a.ipv4_addresses[i]));
        assert(Seq::new((i + 1) as nat, |k: int| inet_line(a.ipv4_addresses@[k])) =~= Seq::new(i as nat, |k: int| inet_line(a.ipv4_addresses@[k])).push(inet_line(a.ipv4_addresses@[i as int])));
        i = i + 1;
    }
    let ghost p4 = lines_view(r@);
    let mut j: usize = 0;
    while j < a.ipv6_addresses.len()
        invariant
            j <= a.ipv6_addresses@.len(),
            lines_view(r@) == p4 + Seq::new(j as nat, |k: int| inet6_line(a.ipv6_addresses@[k])),
        decreases a.ipv6_addresses@.len() - j,
    {
        push_line(&mut r, inet6(&a.ipv6_addresses[j]));
        assert(p4 + Seq::new((j + 1) as nat, |k: int| inet6_line(a.ipv6_addresses@[k])) =~= p4 + Seq::new(j as nat, |k: int| inet6_line(a.ipv6_addresses@[k])) + seq![inet6_line(a.ipv6_addresses@[j as int])]);
        j = j + 1;
    }
    r
}

fn gateway_section(a: &AdapterInfo) -> (r: Vec<Vec<Segment>>)
    ensures
        lines_view(r@) == gateway_lines(*a),
{
    match &a.gateway {
        Some(g) => {
            let l = vec![indent_seg(), lit("gateway", Color::BrightBlack, false), seg_plain("     "), fg_seg(g.clone(), Color::BrightYellow)];
            assert(line_view(l@) =~= gateway_line(g@));
            let r = one_line(l);
            assert(lines_view(r@) =~= gateway_lines(*a));
            r
        },
        None => no_lines(),
    }
}

fn dns_section(a: &AdapterInfo, shown: bool) -> (r: Vec<Vec<Segment>>)
    ensures
        lines_view(r@) == dns_lines(*a, shown),
{
    if shown && a.dns_servers.len() > 0 {
        let mut r: Vec<Vec<Segment>> = Vec::new();
        push_line(&mut r, empty_line());
        push_line(&mut r, heading_line("DNS servers:"));
        push_lines(&mut r, entry_lines(&a.dns_servers));
        assert(lines_view(r@) =~= dns_lines(*a, shown));
        r
    } else {
        no_lines()
    }
}

fn wins_section(a: &AdapterInfo, shown: bool) -> (r: Vec<Vec<Segment>>)
    ensures
        lines_view(r@) == wins_lines(*a, shown),
{
    if shown && a.wins_servers.len() > 0 {
        let mut r: Vec<Vec<Segment>> = Vec::new();
        push_line(&mut r, heading_line("WINS servers:"));
        push_lines(&mut r, entry_lines(&a.wins_servers));
        assert(lines_view(r@) =~= wins_lines(*a, shown));
        r
    } else {
        no_lines()
    }
}

fn closing_section() -> (r: Vec<Vec<Segment>>)
    ensures
        lines_view(r@) == closing_lines(),
{
    let mut r: Vec<Vec<Segment>> = Vec::new();
    push_line(&mut r, empty_line());
    push_line(&mut r, one_rule_line());
    push_line(&mut r, empty_line());
    assert(lines_view(r@) =~= closing_lines());
    r
}

/// The full view of an adapter.
pub fn print_adapter_full(a: &AdapterInfo, cli: &Cli) -> (r: Vec<Vec<Segment>>)
    ensures
        lines_view(r@) == full_lines(*a, *cli),
{
    let mut r = head_section(a);
    push_lines(&mut r, address_section(a));
    push_lines(&mut r, gateway_section(a));
    push_lines(&mut r, stats_section(a, cli.stats || cli.verbose));
    let metrics = if cli.metrics || cli.verbose { metric_section(a) } else { no_lines() };
    push_lines(&mut r, metrics);
    let dhcp = if cli.dhcp || cli.verbose { dhcp_section(a) } else { no_lines() };
    push_lines(&mut r, dhcp);
    push_lines(&mut r, dns_section(a, cli.dns || cli.verbose));
    push_lines(&mut r, wins_section(a, cli.verbose));
    push_lines(&mut r, closing_section());
    r
}

fn one_rule_line() -> (l: Vec<Segment>)
    ensures
        line_view(l@) == seq![(rule('─'), fg(Color::BrightBlack))],
{
    let l = vec![fg_seg(rule_text('─'), Color::BrightBlack)];
    assert(line_view(l@) =~= seq![(rule('─'), fg(Color::BrightBlack))]);
    l
}


/// The adapters at the given positions, in that order.
pub open spec fn picked(s: Seq<AdapterInfo>, pos: Seq<int>) -> Seq<AdapterInfo> {
    Seq::new(pos.len(), |i: int| s[pos[i]])
}

/// Number of adapters that are up.
pub open spec fn up_count(s: Seq<AdapterInfo>) -> nat
    decreases s.len(),
{
    if s.len() == 0 {
        0
    } else {
        up_count(s.drop_last()) + if s.last().status == AdapterStatus::Up { 1nat } else { 0nat }
    }
}

/// Bytes received, summed over the adapters that have statistics.
pub open spec fn rx_total(s: Seq<AdapterInfo>) -> nat
    decreases s.len(),
{
    if s.len() == 0 {
        0
    } else {
        rx_total(s.drop_last()) + match s.last().stats {
            Some(st) => st.rx_bytes as nat,
            None => 0nat,
        }
    }
}

/// Bytes sent, summed over the adapters that have statistics.
pub open spec fn tx_total(s: Seq<AdapterInfo>) -> nat
    decreases s.len(),
{
    if s.len() == 0 {
        0
    } else {
        tx_total(s.drop_last()) + match s.last().stats {
            Some(st) => st.tx_bytes as nat,
            None => 0nat,
        }
    }
}

/// At most every adapter is up.
pub proof fn lemma_up_count_bound(s: Seq<AdapterInfo>)
    ensures
        up_count(s) <= s.len(),
    decreases s.len(),
{
    if s.len() > 0 {
        lemma_up_count_bound(s.drop_last());
    }
}

/// The summary: totals over all adapters, the number shown, and traffic of those shown.
pub open spec fn summary_lines(all: Seq<AdapterInfo>, shown: Seq<AdapterInfo>) -> Seq<LineView> {
    seq![
        Seq::empty(),
        seq![(rule('═'), fg(Color::BrightCyan))],
        seq![("  "@, plain()), ("📋 SUMMARY"@, fgb(Color::BrightWhite)), (" "@, plain()), ("─ Network Interface Overview"@, fg(Color::BrightBlack))],
        seq![(rule('═'), fg(Color::BrightCyan))],
        seq![
            ("  Total interfaces: "@, plain()),
            (decimal(all.len()), fgb(Color::BrightWhite)),
            ("  │  Up: "@, plain()),
            (decimal(up_count(all)), fgb(Color::BrightGreen)),
            ("  │  Down: "@, plain()),
            (decimal((all.len() - up_count(all)) as nat), fgb(Color::BrightRed)),
            ("  │  Displayed: "@, plain()),
            (decimal(shown.len()), fgb(Color::BrightCyan)),
        ],
        seq![
            ("  Total RX: "@, plain()),
            (format_bytes_text(rx_total(shown)), fgb(Color::BrightGreen)),
            ("  │  Total TX: "@, plain()),
            (format_bytes_text(tx_total(shown)), fgb(Color::BrightMagenta)),
        ],
        Seq::empty(),
    ]
}

/// Whether `pos` are increasing positions into a sequence of `n` items.
pub open spec fn valid_positions(pos: Seq<int>, n: int) -> bool {
    forall|i: int| 0 <= i < pos.len() ==> 0 <= #[trigger] pos[i] < n
}

fn count_up(all: &Vec<AdapterInfo>) -> (n: usize)
    ensures
        n == up_count(all@),
{
    let mut n: usize = 0;
    let mut k: usize = 0;
    while k < all.len()
        invariant
            k <= all@.len(),
            n == up_count(all@.take(k as int)),
            n <= k,
        decreases all@.len() - k,
    {
        assert(all@.take(k + 1).drop_last() =~= all@.take(k as int));
        if matches!(all[k].status, AdapterStatus::Up) {
            n = n + 1;
        }
        k = k + 1;
    }
    assert(all@.take(all@.len() as int) =~= all@);
    n
}

fn rule_line(c: char, color: Color) -> (l: Vec<Segment>)
    ensures
        line_view(l@) == seq![(rule(c), fg(color))],
{
    let l = vec![fg_seg(rule_text(c), color)];
    assert(line_view(l@) =~= seq![(rule(c), fg(color))]);
    l
}

/// The summary after the adapters (`--summary`).
pub fn print_summary(all: &Vec<AdapterInfo>, shown: &Vec<usize>) -> (r: Vec<Vec<Segment>>)
    requires
        valid_positions(positions(shown@), all@.len() as int),
        rx_total(picked(all@, positions(shown@))) <= u64::MAX,
        tx_total(picked(all@, positions(shown@))) <= u64::MAX,
    ensures
        lines_view(r@) == summary_lines(all@, picked(all@, positions(shown@))),
{
    let ghost shown_seq = picked(all@, positions(shown@));
    let up = count_up(all);
    proof {
        lemma_up_count_bound(all@);
    }
    let down = all.len() - up;
    let (rx, tx) = summary_totals(all, shown).unwrap();
    let mut r: Vec<Vec<Segment>> = Vec::new();
    push_line(&mut r, empty_line());
    push_line(&mut r, rule_line('═', Color::BrightCyan));
    let title = vec![seg_plain("  "), lit("📋 SUMMARY", Color::BrightWhite, true), seg_plain(" "), lit("─ Network Interface Overview", Color::BrightBlack, false)];
    assert(line_view(title@) =~= summary_lines(all@, shown_seq)[2]);
    push_line(&mut r, title);
    push_line(&mut r, rule_line('═', Color::BrightCyan));
    let counts = vec![
        seg_plain("  Total interfaces: "),
        bold_seg(decimal_string(all.len() as u64), Color::BrightWhite),
        seg_plain("  │  Up: "),
        bold_seg(decimal_string(up as u64), Color::BrightGreen),
        seg_plain("  │  Down: "),
        bold_seg(decimal_string(down as u64), Color::BrightRed),
        seg_plain("  │  Displayed: "),
        bold_seg(decimal_string(shown.len() as u64), Color::BrightCyan),
    ];
    assert(shown_seq.len() == shown@.len());
    assert(line_view(counts@) =~= summary_lines(all@, shown_seq)[4]);
    push_line(&mut r, counts);
    let traffic = vec![
        seg_plain("  Total RX: "),
        bold_seg(format_bytes(rx), Color::BrightGreen),
        seg_plain("  │  Total TX: "),
        bold_seg(format_bytes(tx), Color::BrightMagenta),
    ];
    assert(line_view(traffic@) =~= summary_lines(all@, shown_seq)[5]);
    push_line(&mut r, traffic);
    push_line(&mut r, empty_line());
    assert(lines_view(r@) =~= summary_lines(all@, shown_seq));
    r
}


/// Selected positions are positions of the sequence, in increasing order.
pub proof fn lemma_text_selection_valid(s: Seq<AdapterInfo>, interface: Option<Seq<char>>, all: bool)
    ensures
        valid_positions(text_selection(s, interface, all), s.len() as int),
        text_selection(s, interface, all).len() <= s.len(),
    decreases s.len(),
{
    if s.len() > 0 {
        lemma_text_selection_valid(s.drop_last(), interface, all);
    }
}

/// What one adapter contributes to text output: one line with `--brief`, the full view otherwise.
pub open spec fn adapter_view(a: AdapterInfo, cli: Cli) -> Seq<LineView> {
    if cli.brief {
        seq![brief_line(a)]
    } else {
        full_lines(a, cli)
    }
}

/// The views of the adapters, one after another.
pub open spec fn adapters_view(s: Seq<AdapterInfo>, cli: Cli) -> Seq<LineView>
    decreases s.len(),
{
    if s.len() == 0 {
        Seq::empty()
    } else {
        adapters_view(s.drop_last(), cli) + adapter_view(s.last(), cli)
    }
}

/// The host line and an empty line, or the empty line alone when the host name is unknown.
pub open spec fn host_lines(host: Option<Seq<char>>, time: Seq<char>) -> Seq<LineView> {
    match host {
        Some(h) => seq![host_line(h, time), Seq::empty()],
        None => seq![Seq::empty()],
    }
}

/// The adapters that text output shows.
pub open spec fn text_shown(adapters: Seq<AdapterInfo>, cli: Cli) -> Seq<AdapterInfo> {
    picked(adapters, text_selection(adapters, opt_str(cli.interface), cli.all))
}

/// Text output as (error lines, output lines): the not-found message alone when nothing is
/// selected; otherwise the banner, the host line, each selected adapter and, with
/// `--summary`, the summary.
pub open spec fn text_report(adapters: Seq<AdapterInfo>, cli: Cli, version: Seq<char>, host: Option<Seq<char>>, time: Seq<char>) -> (Seq<LineView>, Seq<LineView>) {
    let shown = text_shown(adapters, cli);
    if shown.len() == 0 {
        (seq![nothing_line(opt_str(cli.interface))], Seq::empty())
    } else {
        (
            Seq::empty(),
            banner(version) + host_lines(host, time) + adapters_view(shown, cli) + when(cli.summary, summary_lines(adapters, shown)),
        )
    }
}

fn adapter_lines(a: &AdapterInfo, cli: &Cli) -> (r: Vec<Vec<Segment>>)
    ensures
        lines_view(r@) == adapter_view(*a, *cli),
{
    if cli.brief {
        one_line(print_adapter_brief(a))
    } else {
        print_adapter_full(a, cli)
    }
}

/// Text output: the lines for standard error and the lines for standard output.
pub fn output_text(adapters: &Vec<AdapterInfo>, cli: &Cli, version: &str, host: &Option<String>, time: &str) -> (r: (Vec<Vec<Segment>>, Vec<Vec<Segment>>))
    requires
        cli.summary ==> rx_total(text_shown(adapters@, *cli)) <= u64::MAX,
        cli.summary ==> tx_total(text_shown(adapters@, *cli)) <= u64::MAX,
    ensures
        (lines_view(r.0@), lines_view(r.1@)) == text_report(adapters@, *cli, version@, opt_str(*host), time@),
{
    let shown = select_for_text(adapters, &cli.interface, cli.all);
    let ghost pos = positions(shown@);
    let ghost picks = picked(adapters@, pos);
    proof {
        lemma_text_selection_valid(adapters@, opt_str(cli.interface), cli.all);
    }
    assert(picks.len() == shown@.len());
    if shown.len() == 0 {
        let errs = one_line(not_found_line(&cli.interface));
        return (errs, no_lines());
    }
    let mut out = banner_lines(version);
    match host {
        Some(h) => {
            push_line(&mut out, hostname_line(h.as_str(), time));
        },
        None => {},
    }
    push_line(&mut out, empty_line());
    assert(lines_view(out@) =~= banner(version@) + host_lines(opt_str(*host), time@));
    let ghost head = lines_view(out@);
    let mut k: usize = 0;
    while k < shown.len()
        invariant
            k <= shown@.len(),
            pos == positions(shown@),
            picks == picked(adapters@, pos),
            picks.len() == shown@.len(),
            valid_positions(pos, adapters@.len() as int),
            lines_view(out@) == head + adapters_view(picks.take(k as int), *cli),
        decreases shown@.len() - k,
    {
        assert(pos[k as int] == shown@[k as int]);
        let a = &adapters[shown[k]];
        assert(picks.take(k + 1).drop_last() =~= picks.take(k as int));
        assert(picks.take(k + 1).last() == *a);
        push_lines(&mut out, adapter_lines(a, cli));
        assert(lines_view(out@) =~= head + adapters_view(picks.take(k + 1), *cli));
        k = k + 1;
    }
    assert(picks.take(shown@.len() as int) =~= picks);
    if cli.summary {
        push_lines(&mut out, print_summary(adapters, &shown));
    }
    assert(lines_view(out@) =~= text_report(adapters@, *cli, version@, opt_str(*host), time@).1);
    let errs = no_lines();
    (errs, out)
}


/// Received and sent byte totals over the shown adapters, or none when either total does
/// not fit in 64 bits.
pub fn summary_totals(all: &Vec<AdapterInfo>, shown: &Vec<usize>) -> (r: Option<(u64, u64)>)
    requires
        valid_positions(positions(shown@), all@.len() as int),
    ensures
        r is Some <==> (rx_total(picked(all@, positions(shown@))) <= u64::MAX && tx_total(
            picked(all@, positions(shown@)),
        ) <= u64::MAX),
        r matches Some(t) ==> t.0 == rx_total(picked(all@, positions(shown@))) && t.1 == tx_total(
            picked(all@, positions(shown@)),
        ),
{
    let ghost p = picked(all@, positions(shown@));
    let mut rx: Option<u64> = Some(0);
    let mut tx: Option<u64> = Some(0);
    let mut k: usize = 0;
    while k < shown.len()
        invariant
            k <= shown@.len(),
            p == picked(all@, positions(shown@)),
            valid_positions(positions(shown@), all@.len() as int),
            rx is Some <==> rx_total(p.take(k as int)) <= u64::MAX,
            rx matches Some(v) ==> v == rx_total(p.take(k as int)),
            tx is Some <==> tx_total(p.take(k as int)) <= u64::MAX,
            tx matches Some(v) ==> v == tx_total(p.take(k as int)),
        decreases shown@.len() - k,
    {
        assert(p.take(k + 1).drop_last() =~= p.take(k as int));
        assert(positions(shown@)[k as int] == shown@[k as int]);
        let a = &all[shown[k]];
        assert(p.take(k + 1).last() == *a);
        match &a.stats {
            Some(st) => {
                rx = match rx {
                    Some(v) => v.checked_add(st.rx_bytes),
                    None => None,
                };
                tx = match tx {
                    Some(v) => v.checked_add(st.tx_bytes),
                    None => None,
                };
            },
            None => {},
        }
        k = k + 1;
    }
    assert(p.take(shown@.len() as int) =~= p);
    match (rx, tx) {
        (Some(a), Some(b)) => Some((a, b)),
        _ => None,
    }
}

} // verus!
