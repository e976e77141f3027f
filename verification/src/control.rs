use vstd::prelude::*;
use crate::addr::{ipv4_text, netmask_value, octets_of, prefix_to_netmask_v4};
use crate::cli::SetOperation;
use crate::style::{line_view, plain, seg, seg_plain, sty, Color, Segment, Style};
use crate::text::{
    char_vec, contains, decimal, decode_utf8, join, lowercase, owned, parse_u8, parse_u8_at, push_char,
    push_decimal, push_joined, split_any, split_fields, str_contains, string_of, texts, to_lowercase,
    trim, trim_text, utf8_lossy,
};

verus! {

/// Why a CIDR text was refused.
#[derive(Debug, Clone, Copy, PartialEq, Eq, Structural)]
pub enum CidrError {
    /// No `/` in the text.
    Format,
    /// The part after the first `/` is not a byte value.
    Prefix,
    /// The prefix length is above 32.
    Range,
    /// The part before the `/` is not four dot-separated byte values.
    Address,
}

/// Index of the first `c` in `s` (`s.len()` when there is none).
pub open spec fn first_index(s: Seq<char>, c: char) -> int
    decreases s.len(),
{
    if s.len() == 0 {
        0
    } else if s[0] == c {
        0
    } else {
        1 + first_index(s.drop_first(), c)
    }
}

/// The first `c` in `s` stands at `i` when none comes before it.
pub proof fn lemma_first_index(s: Seq<char>, c: char, i: int)
    requires
        0 <= i <= s.len(),
        forall|k: int| 0 <= k < i ==> s[k] != c,
        i == s.len() || s[i] == c,
    ensures
        first_index(s, c) == i,
    decreases i,
{
    if i > 0 {
        lemma_first_index(s.drop_first(), c, i - 1);
    }
}

/// Whether `ip` is four dot-separated byte values, each as `str::parse::<u8>` accepts it.
pub open spec fn valid_ipv4_text(ip: Seq<char>) -> bool {
    let parts = split_fields(ip, seq!['.']);
    parts.len() == 4 && forall|i: int| 0 <= i < 4 ==> parse_u8(#[trigger] parts[i]) is Some
}

/// Address and prefix length of a CIDR text such as `192.168.1.50/24`: the text is cut at
/// its first `/`; the prefix must parse as a byte and be at most 32, the address must be
/// four byte values separated by dots. The address is returned as written.
pub open spec fn cidr_parse(s: Seq<char>) -> Result<(Seq<char>, u8), CidrError> {
    let i = first_index(s, '/');
    if i >= s.len() {
        Err(CidrError::Format)
    } else {
        match parse_u8(s.skip(i + 1)) {
            None => Err(CidrError::Prefix),
            Some(p) => if p > 32 {
                Err(CidrError::Range)
            } else if !valid_ipv4_text(s.take(i)) {
                Err(CidrError::Address)
            } else {
                Ok((s.take(i), p))
            },
        }
    }
}

/// Splits a CIDR text into the address (as written) and the prefix length.
pub fn parse_cidr(cidr: &str) -> (r: Result<(String, u8), CidrError>)
    ensures
        match r {
            Ok((ip, p)) => cidr_parse(cidr@) == Ok::<(Seq<char>, u8), CidrError>((ip@, p)),
            Err(e) => cidr_parse(cidr@) == Err::<(Seq<char>, u8), CidrError>(e),
        },
{
    let cs = char_vec(cidr);
    let mut i: usize = 0;
    while i < cs.len() && cs[i] != '/'
        invariant
            cs@ == cidr@,
            i <= cs.len(),
            forall|k: int| 0 <= k < i ==> cs@[k] != '/',
        decreases cs.len() - i,
    {
        i = i + 1;
    }
    proof {
        lemma_first_index(cs@, '/', i as int);
    }
    if i == cs.len() {
        return Err(CidrError::Format);
    }
    let prefix = parse_u8_at(&cs, i + 1, cs.len());
    assert(cs@.subrange(i + 1, cs@.len() as int) =~= cs@.skip(i + 1));
    let p = match prefix {
        None => {
            return Err(CidrError::Prefix);
        },
        Some(p) => p,
    };
    if p > 32 {
        return Err(CidrError::Range);
    }
    let dot = ['.'];
    assert(dot@ =~= seq!['.']);
    let parts = split_any(&cs, 0, i, &dot);
    assert(cs@.subrange(0, i as int) =~= cs@.take(i as int));
    if parts.len() != 4 {
        return Err(CidrError::Address);
    }
    let mut k: usize = 0;
    while k < 4
        invariant
            cs@ == cidr@,
            i < cs@.len(),
            first_index(cs@, '/') == i,
            parse_u8(cs@.skip(i + 1)) == Some(p),
            p <= 32,
            parts@.len() == 4,
            k <= 4,
            texts(parts@) == split_fields(cs@.take(i as int), seq!['.']),
            forall|j: int| 0 <= j < k ==> parse_u8(#[trigger] texts(parts@)[j]) is Some,
        decreases 4 - k,
    {
        let part = char_vec(parts[k].as_str());
        assert(part@.subrange(0, part@.len() as int) =~= part@);
        if parse_u8_at(&part, 0, part.len()).is_none() {
            assert(texts(parts@)[k as int] == parts@[k as int]@);
            return Err(CidrError::Address);
        }
        k = k + 1;
    }
    Ok((string_of(&cs, 0, i), p))
}

/// Text of the error for `cidr` refused with `e`.
pub open spec fn cidr_error_text(e: CidrError, cidr: Seq<char>) -> Seq<char> {
    match e {
        CidrError::Format => "Invalid CIDR '"@ + cidr + "'. Use format IP/prefix, e.g. 192.168.1.50/24"@,
        CidrError::Prefix => "Invalid prefix length '"@ + cidr.skip(first_index(cidr, '/') + 1) + "' in '"@
            + cidr + "'"@,
        CidrError::Range => "Prefix length "@ + decimal(parse_u8(cidr.skip(first_index(cidr, '/') + 1))->0 as nat)
            + " out of range (0–32)"@,
        CidrError::Address => "Invalid IPv4 address '"@ + cidr.take(first_index(cidr, '/')) + "'"@,
    }
}

/// Index of the first `/` in `cs`, or its length.
fn slash_index(cs: &Vec<char>) -> (i: usize)
    ensures
        i == first_index(cs@, '/'),
        i <= cs@.len(),
{
    let mut i: usize = 0;
    while i < cs.len() && cs[i] != '/'
        invariant
            i <= cs.len(),
            forall|k: int| 0 <= k < i ==> cs@[k] != '/',
        decreases cs.len() - i,
    {
        i = i + 1;
    }
    proof {
        lemma_first_index(cs@, '/', i as int);
    }
    i
}

/// The message shown when `cidr` is refused with `e`.
pub fn cidr_error_message(e: CidrError, cidr: &str) -> (m: String)
    requires
        cidr_parse(cidr@) == Err::<(Seq<char>, u8), CidrError>(e),
    ensures
        m@ == cidr_error_text(e, cidr@),
{
    let cs = char_vec(cidr);
    let i = slash_index(&cs);
    let mut m = String::new();
    match e {
        CidrError::Format => {
            m.append("Invalid CIDR '");
            m.append(cidr);
            m.append("'. Use format IP/prefix, e.g. 192.168.1.50/24");
        },
        CidrError::Prefix => {
            assert(i < cs.len());
            m.append("Invalid prefix length '");
            let rest = string_of(&cs, i + 1, cs.len());
            assert(cs@.subrange(i + 1, cs@.len() as int) =~= cs@.skip(i + 1));
            m.append(rest.as_str());
            m.append("' in '");
            m.append(cidr);
            m.append("'");
        },
        CidrError::Range => {
            assert(i < cs.len());
            m.append("Prefix length ");
            let p = parse_u8_at(&cs, i + 1, cs.len());
            assert(cs@.subrange(i + 1, cs@.len() as int) =~= cs@.skip(i + 1));
            match p {
                Some(p) => push_decimal(&mut m, p as u64),
                None => {},
            }
            m.append(" out of range (0–32)");
        },
        CidrError::Address => {
            m.append("Invalid IPv4 address '");
            let ip = string_of(&cs, 0, i);
            assert(cs@.subrange(0, i as int) =~= cs@.take(i as int));
            m.append(ip.as_str());
            m.append("'");
        },
    }
    m
}

/// The dotted netmask of a prefix length (all bits for 32 and above).
pub fn prefix_to_mask(prefix: u8) -> (s: String)
    ensures
        s@ == ipv4_text(octets_of(netmask_value(prefix as nat))),
{
    prefix_to_netmask_v4(prefix)
}

/// ASCII lower-case of a character; other characters are unchanged.
pub open spec fn ascii_lower(c: char) -> char {
    if 'A' <= c && c <= 'Z' {
        ((c as int) + 32) as char
    } else {
        c
    }
}

/// Equality up to ASCII case (`str::eq_ignore_ascii_case`).
pub open spec fn eq_ignore_ascii_case(a: Seq<char>, b: Seq<char>) -> bool {
    a.len() == b.len() && forall|i: int| 0 <= i < a.len() ==> ascii_lower(#[trigger] a[i]) == ascii_lower(b[i])
}

fn lower_ascii(c: char) -> (r: char)
    ensures
        r == ascii_lower(c),
{
    if 'A' <= c && c <= 'Z' {
        ((c as u32) + 32) as u8 as char
    } else {
        c
    }
}

/// Whether `a` equals `b` up to ASCII case.
pub fn same_ignoring_ascii_case(a: &str, b: &str) -> (r: bool)
    ensures
        r == eq_ignore_ascii_case(a@, b@),
{
    let x = char_vec(a);
    let y = char_vec(b);
    if x.len() != y.len() {
        return false;
    }
    let mut i: usize = 0;
    while i < x.len()
        invariant
            x@ == a@,
            y@ == b@,
            x.len() == y.len(),
            i <= x.len(),
            forall|k: int| 0 <= k < i ==> ascii_lower(#[trigger] x@[k]) == ascii_lower(y@[k]),
        decreases x.len() - i,
    {
        if lower_ascii(x[i]) != lower_ascii(y[i]) {
            return false;
        }
        i = i + 1;
    }
    true
}

/// An ASCII hexadecimal digit.
pub open spec fn is_hex_digit(c: char) -> bool {
    ('0' <= c && c <= '9') || ('a' <= c && c <= 'f') || ('A' <= c && c <= 'F')
}

/// The hexadecimal digits of a hardware address text: every `:` and `-` removed.
pub open spec fn mac_digits(mac: Seq<char>) -> Seq<char> {
    mac.filter(|c: char| c != ':' && c != '-')
}

/// A hardware address is accepted when, without its `:` and `-`, it is twelve hexadecimal
/// digits.
pub open spec fn valid_mac(mac: Seq<char>) -> bool {
    let d = mac_digits(mac);
    d.len() == 12 && forall|i: int| 0 <= i < 12 ==> is_hex_digit(#[trigger] d[i])
}

/// Whether a hardware address text is accepted by `set <iface> mac`.
pub fn check_mac(mac: &str) -> (r: bool)
    ensures
        r == valid_mac(mac@),
{
    let cs = char_vec(mac);
    let ghost pred = |c: char| c != ':' && c != '-';
    let mut digits: Vec<char> = Vec::new();
    let mut i: usize = 0;
    while i < cs.len()
        invariant
            cs@ == mac@,
            i <= cs.len(),
            pred == (|c: char| c != ':' && c != '-'),
            digits@ == cs@.take(i as int).filter(pred),
        decreases cs.len() - i,
    {
        let c = cs[i];
        proof {
            reveal_with_fuel(Seq::<char>::filter, 1);
            assert(cs@.take(i + 1).drop_last() =~= cs@.take(i as int));
        }
        if c != ':' && c != '-' {
            digits.push(c);
        }
        i = i + 1;
    }
    assert(cs@.take(cs@.len() as int) =~= cs@);
    assert(digits@ == mac_digits(mac@));
    if digits.len() != 12 {
        return false;
    }
    let mut k: usize = 0;
    while k < 12
        invariant
            digits@ == mac_digits(mac@),
            digits@.len() == 12,
            k <= 12,
            forall|j: int| 0 <= j < k ==> is_hex_digit(#[trigger] digits@[j]),
        decreases 12 - k,
    {
        let c = digits[k];
        if !(('0' <= c && c <= '9') || ('a' <= c && c <= 'f') || ('A' <= c && c <= 'F')) {
            return false;
        }
        k = k + 1;
    }
    true
}

/// A program that configuration commands run.
#[derive(Debug, Clone, Copy, PartialEq, Eq, Structural)]
pub enum Program {
    Netsh,
    PowerShell,
}

/// A program and its arguments.
#[derive(Debug, Clone)]
pub struct Invocation {
    pub program: Program,
    pub args: Vec<String>,
}

/// One step of a configuration command: print a line, or run a program. A failing run
/// ends the command with its error unless the step may fail.
#[derive(Debug, Clone)]
pub enum Step {
    Say(Vec<Segment>),
    Run { invocation: Invocation, may_fail: bool },
}

/// What a step prints or runs.
pub enum StepView {
    Say(Seq<(Seq<char>, Style)>),
    Run(Program, Seq<Seq<char>>, bool),
}

impl View for Step {
    type V = StepView;

    open spec fn view(&self) -> StepView {
        match self {
            Step::Say(l) => StepView::Say(line_view(l@)),
            Step::Run { invocation, may_fail } => StepView::Run(
                invocation.program,
                texts(invocation.args@),
                *may_fail,
            ),
        }
    }
}

/// The views of a sequence of steps.
pub open spec fn steps_view(s: Seq<Step>) -> Seq<StepView> {
    s.map_values(|x: Step| x@)
}

/// Plain coloured text.
pub open spec fn col(c: Color) -> Style {
    sty(c, false, false)
}

/// Bold coloured text.
pub open spec fn bold(c: Color) -> Style {
    sty(c, true, false)
}

/// A `netsh` run whose failure ends the command.
pub open spec fn netsh(args: Seq<Seq<char>>) -> StepView {
    StepView::Run(Program::Netsh, args, false)
}

/// The closing line `  ✅ <msg>`.
pub open spec fn done_say(msg: Seq<char>) -> StepView {
    StepView::Say(seq![("  "@, plain()), ("✅"@, col(Color::BrightGreen)), (msg, plain())])
}

/// The start of a line announcing an action: icon, text, interface name.
pub open spec fn announce(icon: Seq<char>, icon_style: Style, what: Seq<char>, iface: Seq<char>) -> Seq<(Seq<char>, Style)> {
    seq![(icon, icon_style), (what, plain()), (iface, bold(Color::BrightWhite))]
}

/// Steps of `ifconfig up <iface>`.
pub open spec fn up_plan(iface: Seq<char>) -> Seq<StepView> {
    seq![
        StepView::Say(announce("⬆️ "@, col(Color::BrightGreen), "  Bringing "@, iface) + seq![(" "@, plain()), ("UP"@, bold(Color::BrightGreen)), ("..."@, plain())]),
        netsh(seq!["interface"@, "set"@, "interface"@, iface, "admin=enabled"@]),
        done_say(" Interface enabled."@),
    ]
}

/// Steps of `ifconfig down <iface>`.
pub open spec fn down_plan(iface: Seq<char>) -> Seq<StepView> {
    seq![
        StepView::Say(announce("⬇️ "@, col(Color::BrightRed), "  Bringing "@, iface) + seq![(" "@, plain()), ("DOWN"@, bold(Color::BrightRed)), ("..."@, plain())]),
        netsh(seq!["interface"@, "set"@, "interface"@, iface, "admin=disabled"@]),
        done_say(" Interface disabled."@),
    ]
}

/// The dotted netmask of a prefix length.
pub open spec fn mask_text(p: u8) -> Seq<char> {
    ipv4_text(octets_of(netmask_value(p as nat)))
}

/// Segments that show an optional gateway.
pub open spec fn gateway_segments(gateway: Option<Seq<char>>) -> Seq<(Seq<char>, Style)> {
    match gateway {
        Some(g) => seq![("gw:"@, plain()), (g, col(Color::BrightYellow))],
        None => Seq::empty(),
    }
}

/// Trailing `netsh` argument for an optional gateway.
pub open spec fn gateway_args(gateway: Option<Seq<char>>) -> Seq<Seq<char>> {
    match gateway {
        Some(g) => seq![g],
        None => Seq::empty(),
    }
}

/// Outcome of `set <iface> ip <address> [--gw <gateway>]`: `dhcp` (any case) turns DHCP on,
/// a CIDR address sets a static address with its netmask, anything else is refused.
pub open spec fn ip_outcome(iface: Seq<char>, address: Seq<char>, gateway: Option<Seq<char>>) -> Result<Seq<StepView>, Seq<char>> {
    if eq_ignore_ascii_case(address, "dhcp"@) {
        Ok(seq![
            StepView::Say(announce("🔄"@, col(Color::Cyan), "  Setting "@, iface) + seq![(" to "@, plain()), ("DHCP"@, bold(Color::BrightCyan)), ("..."@, plain())]),
            netsh(seq!["interface"@, "ip"@, "set"@, "address"@, iface, "dhcp"@]),
            done_say(" DHCP enabled for address."@),
        ])
    } else {
        match cidr_parse(address) {
            Err(e) => Err(cidr_error_text(e, address)),
            Ok((ip, p)) => Ok(seq![
                StepView::Say(announce("🔧"@, col(Color::Yellow), "  Setting "@, iface) + seq![
                    (" → ip:"@, plain()),
                    (ip, col(Color::BrightGreen)),
                    (" mask:"@, plain()),
                    (mask_text(p), col(Color::BrightBlack)),
                    (" "@, plain()),
                ] + gateway_segments(gateway)),
                netsh(seq!["interface"@, "ip"@, "set"@, "address"@, iface, "static"@, ip, mask_text(p)] + gateway_args(gateway)),
                done_say(" IP address set."@),
            ]),
        }
    }
}

/// Outcome of `set <iface> add <address>`.
pub open spec fn add_outcome(iface: Seq<char>, address: Seq<char>) -> Result<Seq<StepView>, Seq<char>> {
    match cidr_parse(address) {
        Err(e) => Err(cidr_error_text(e, address)),
        Ok((ip, p)) => Ok(seq![
            StepView::Say(seq![("➕"@, col(Color::BrightGreen)), ("  Adding "@, plain()), (address, col(Color::BrightGreen)), (" to "@, plain()), (iface, bold(Color::BrightWhite)), ("..."@, plain())]),
            netsh(seq!["interface"@, "ip"@, "add"@, "address"@, iface, ip, mask_text(p)]),
            done_say(" Address added."@),
        ]),
    }
}

/// Steps of `set <iface> del <address>`; a prefix after `/` is ignored.
pub open spec fn del_plan(iface: Seq<char>, address: Seq<char>) -> Seq<StepView> {
    let ip = address.take(first_index(address, '/'));
    seq![
        StepView::Say(seq![("➖"@, col(Color::BrightRed)), ("  Removing "@, plain()), (ip, col(Color::BrightRed)), (" from "@, plain()), (iface, bold(Color::BrightWhite)), ("..."@, plain())]),
        netsh(seq!["interface"@, "ip"@, "delete"@, "address"@, iface, ip]),
        done_say(" Address removed."@),
    ]
}

/// Steps of `set <iface> flush`.
pub open spec fn flush_plan(iface: Seq<char>) -> Seq<StepView> {
    seq![
        StepView::Say(announce("🔄"@, col(Color::Cyan), "  Flushing all IPs on "@, iface) + seq![(" and resetting to DHCP..."@, plain())]),
        netsh(seq!["interface"@, "ip"@, "set"@, "address"@, iface, "dhcp"@]),
        netsh(seq!["interface"@, "ip"@, "set"@, "dns"@, iface, "dhcp"@]),
        done_say(" Interface flushed — DHCP re-enabled for IP and DNS."@),
    ]
}

/// Steps of `set <iface> mtu <value>`.
pub open spec fn mtu_plan(iface: Seq<char>, value: u32) -> Seq<StepView> {
    let v = decimal(value as nat);
    seq![
        StepView::Say(announce("📦"@, col(Color::Yellow), "  Setting MTU on "@, iface) + seq![(" → "@, plain()), (v, bold(Color::BrightCyan)), ("..."@, plain())]),
        netsh(seq!["interface"@, "ipv4"@, "set"@, "subinterface"@, iface, "mtu="@ + v, "store=persistent"@]),
        StepView::Say(seq![("  "@, plain()), ("✅"@, col(Color::BrightGreen)), (" MTU set to "@, plain()), (v, plain()), ("."@, plain())]),
    ]
}

/// Steps of `set <iface> metric <value>`: the automatic metric is switched off first, and a
/// failure of that step is ignored.
pub open spec fn metric_plan(iface: Seq<char>, value: u32) -> Seq<StepView> {
    let v = decimal(value as nat);
    seq![
        StepView::Say(announce("📊"@, col(Color::Yellow), "  Setting metric on "@, iface) + seq![(" → "@, plain()), (v, bold(Color::BrightCyan)), ("..."@, plain())]),
        StepView::Run(Program::Netsh, seq!["interface"@, "ip"@, "set"@, "interface"@, iface, "metric=automatic"@], true),
        netsh(seq!["interface"@, "ip"@, "set"@, "interface"@, iface, "metric="@ + v]),
        StepView::Say(seq![("  "@, plain()), ("✅"@, col(Color::BrightGreen)), (" Metric set to "@, plain()), (v, plain()), ("."@, plain())]),
    ]
}

/// The servers, each in bright white, separated by `, `.
pub open spec fn server_list(servers: Seq<Seq<char>>) -> Seq<(Seq<char>, Style)>
    decreases servers.len(),
{
    if servers.len() == 0 {
        Seq::empty()
    } else if servers.len() == 1 {
        seq![(servers[0], col(Color::BrightWhite))]
    } else {
        server_list(servers.drop_last()) + seq![(", "@, plain()), (servers.last(), col(Color::BrightWhite))]
    }
}

/// The `netsh` run that adds the DNS server at position `i` (from 1) with index `i + 1`.
pub open spec fn dns_add_run(iface: Seq<char>, servers: Seq<Seq<char>>, i: int) -> StepView {
    netsh(seq!["interface"@, "ip"@, "add"@, "dns"@, iface, servers[i], "index="@ + decimal((i + 1) as nat)])
}

/// The closing line of `set <iface> dns` for `n` servers.
pub open spec fn dns_done(n: nat) -> StepView {
    StepView::Say(seq![
        ("  "@, plain()),
        ("✅"@, col(Color::BrightGreen)),
        (" DNS configured ("@, plain()),
        (decimal(n), plain()),
        (" server"@, plain()),
        (if n == 1 { ""@ } else { "s"@ }, plain()),
        (")."@, plain()),
    ])
}

/// Steps of `set <iface> dns <servers>`: the single word `dhcp` (any case) returns to
/// automatic DNS; otherwise the first server becomes primary and the others are added in order.
pub open spec fn dns_plan(iface: Seq<char>, servers: Seq<Seq<char>>) -> Seq<StepView> {
    if servers.len() == 1 && eq_ignore_ascii_case(servers[0], "dhcp"@) {
        seq![
            StepView::Say(announce("🔍"@, col(Color::Cyan), "  Setting DNS on "@, iface) + seq![(" → "@, plain()), ("DHCP (automatic)"@, col(Color::BrightCyan)), ("..."@, plain())]),
            netsh(seq!["interface"@, "ip"@, "set"@, "dns"@, iface, "dhcp"@]),
            done_say(" DNS set to automatic."@),
        ]
    } else {
        seq![
            StepView::Say(announce("🔍"@, col(Color::Yellow), "  Setting DNS on "@, iface) + seq![(" → "@, plain())] + server_list(servers) + seq![("..."@, plain())]),
            netsh(seq!["interface"@, "ip"@, "set"@, "dns"@, iface, "static"@, servers[0], "primary"@]),
        ] + Seq::new((servers.len() - 1) as nat, |k: int| dns_add_run(iface, servers, k + 1)) + seq![dns_done(servers.len())]
    }
}

/// Outcome of `set <iface> mac <mac>`.
pub open spec fn mac_outcome(iface: Seq<char>, mac: Seq<char>) -> Result<Seq<StepView>, Seq<char>> {
    if !valid_mac(mac) {
        Err("Invalid MAC address '"@ + mac + "'. Use format AA:BB:CC:DD:EE:FF"@)
    } else {
        Ok(seq![
            StepView::Say(announce("🔌"@, col(Color::Yellow), "  Setting MAC on "@, iface) + seq![(" → "@, plain()), (mac, bold(Color::BrightYellow)), ("..."@, plain())]),
            StepView::Run(Program::PowerShell, seq![
                "-NoProfile"@,
                "-NonInteractive"@,
                "-Command"@,
                "Set-NetAdapter -Name '"@ + iface + "' -MacAddress '"@ + mac + "' -Confirm:$false"@,
            ], false),
            StepView::Say(seq![("  "@, plain()), ("✅"@, col(Color::BrightGreen)), (" MAC address changed to "@, plain()), (mac, col(Color::BrightYellow)), ("."@, plain())]),
            StepView::Say(seq![("  "@, plain()), ("ℹ️ "@, col(Color::BrightCyan)), (" You may need to reconnect the interface for the change to take effect."@, plain())]),
        ])
    }
}

/// The text of an optional string.
pub open spec fn opt_text(o: Option<String>) -> Option<Seq<char>> {
    match o {
        Some(s) => Some(s@),
        None => None,
    }
}

/// Outcome of `set <iface> <operation>`.
pub open spec fn set_outcome(iface: Seq<char>, op: SetOperation) -> Result<Seq<StepView>, Seq<char>> {
    match op {
        SetOperation::Ip(a) => ip_outcome(iface, a.address@, opt_text(a.gateway)),
        SetOperation::Mtu { value } => Ok(mtu_plan(iface, value)),
        SetOperation::Metric { value } => Ok(metric_plan(iface, value)),
        SetOperation::Dns(a) => Ok(dns_plan(iface, texts(a.servers@))),
        SetOperation::Add { address } => add_outcome(iface, address@),
        SetOperation::Del { address } => Ok(del_plan(iface, address@)),
        SetOperation::Mac { address } => mac_outcome(iface, address@),
        SetOperation::Flush => Ok(flush_plan(iface)),
    }
}

/// The view of a planned outcome.
pub open spec fn outcome_view(r: Result<Vec<Step>, String>) -> Result<Seq<StepView>, Seq<char>> {
    match r {
        Ok(s) => Ok(steps_view(s@)),
        Err(m) => Err(m@),
    }
}

fn say(line: Vec<Segment>) -> (s: Step)
    ensures
        s@ == StepView::Say(line_view(line@)),
{
    Step::Say(line)
}

fn run(program: Program, args: Vec<String>, may_fail: bool) -> (s: Step)
    ensures
        s@ == StepView::Run(program, texts(args@), may_fail),
{
    Step::Run { invocation: Invocation { program, args }, may_fail }
}

fn done(msg: &str) -> (s: Step)
    ensures
        s@ == done_say(msg@),
{
    let line = vec![seg_plain("  "), seg("✅", Color::BrightGreen, false, false), seg_plain(msg)];
    assert(line_view(line@) =~= seq![("  "@, plain()), ("✅"@, col(Color::BrightGreen)), (msg@, plain())]);
    say(line)
}

fn announce_line(icon: &str, icon_color: Color, what: &str, iface: &str) -> (l: Vec<Segment>)
    ensures
        line_view(l@) == announce(icon@, col(icon_color), what@, iface@),
{
    let l = vec![seg(icon, icon_color, false, false), seg_plain(what), seg(iface, Color::BrightWhite, true, false)];
    assert(line_view(l@) =~= announce(icon@, col(icon_color), what@, iface@));
    l
}

/// Appends segments to a line.
fn extend_line(l: &mut Vec<Segment>, more: Vec<Segment>)
    ensures
        line_view(final(l)@) == line_view(old(l)@) + line_view(more@),
{
    let ghost before = l@;
    let ghost added = more@;
    let mut more = more;
    l.append(&mut more);
    assert(line_view(l@) =~= line_view(before) + line_view(added));
}

/// Steps of `ifconfig up <iface>`: announce, enable with `netsh`, confirm.
pub fn interface_up(iface: &str) -> (steps: Vec<Step>)
    ensures
        steps_view(steps@) == up_plan(iface@),
{
    let mut l = announce_line("⬆️ ", Color::BrightGreen, "  Bringing ", iface);
    let more = vec![seg_plain(" "), seg("UP", Color::BrightGreen, true, false), seg_plain("...")];
    assert(line_view(more@) =~= seq![(" "@, plain()), ("UP"@, bold(Color::BrightGreen)), ("..."@, plain())]);
    extend_line(&mut l, more);
    let a = vec![owned("interface"), owned("set"), owned("interface"), owned(iface), owned("admin=enabled")];
    assert(texts(a@) =~= seq!["interface"@, "set"@, "interface"@, iface@, "admin=enabled"@]);
    let steps = vec![say(l), run(Program::Netsh, a, false), done(" Interface enabled.")];
    assert(steps_view(steps@) =~= up_plan(iface@));
    steps
}

/// Steps of `ifconfig down <iface>`: announce, disable with `netsh`, confirm.
pub fn interface_down(iface: &str) -> (steps: Vec<Step>)
    ensures
        steps_view(steps@) == down_plan(iface@),
{
    let mut l = announce_line("⬇️ ", Color::BrightRed, "  Bringing ", iface);
    let more = vec![seg_plain(" "), seg("DOWN", Color::BrightRed, true, false), seg_plain("...")];
    assert(line_view(more@) =~= seq![(" "@, plain()), ("DOWN"@, bold(Color::BrightRed)), ("..."@, plain())]);
    extend_line(&mut l, more);
    let a = vec![owned("interface"), owned("set"), owned("interface"), owned(iface), owned("admin=disabled")];
    assert(texts(a@) =~= seq!["interface"@, "set"@, "interface"@, iface@, "admin=disabled"@]);
    let steps = vec![say(l), run(Program::Netsh, a, false), done(" Interface disabled.")];
    assert(steps_view(steps@) =~= down_plan(iface@));
    steps
}

/// Steps of `set <iface> <operation>`, or the message of the error that refuses it before
/// anything runs.
pub fn run_set(iface: &str, op: &SetOperation) -> (r: Result<Vec<Step>, String>)
    requires
        op matches SetOperation::Dns(a) ==> a.servers@.len() >= 1,
    ensures
        outcome_view(r) == set_outcome(iface@, *op),
{
    match op {
        SetOperation::Ip(args) => set_ip(iface, args.address.as_str(), &args.gateway),
        SetOperation::Mtu { value } => Ok(set_mtu(iface, *value)),
        SetOperation::Metric { value } => Ok(set_metric(iface, *value)),
        SetOperation::Dns(args) => Ok(set_dns(iface, &args.servers)),
        SetOperation::Add { address } => add_ip(iface, address.as_str()),
        SetOperation::Del { address } => Ok(del_ip(iface, address.as_str())),
        SetOperation::Mac { address } => set_mac(iface, address.as_str()),
        SetOperation::Flush => Ok(flush_ip(iface)),
    }
}

fn set_ip(iface: &str, address: &str, gateway: &Option<String>) -> (r: Result<Vec<Step>, String>)
    ensures
        outcome_view(r) == ip_outcome(iface@, address@, opt_text(*gateway)),
{
    if same_ignoring_ascii_case(address, "dhcp") {
        let mut l = announce_line("🔄", Color::Cyan, "  Setting ", iface);
        let more = vec![seg_plain(" to "), seg("DHCP", Color::BrightCyan, true, false), seg_plain("...")];
        assert(line_view(more@) =~= seq![(" to "@, plain()), ("DHCP"@, bold(Color::BrightCyan)), ("..."@, plain())]);
        extend_line(&mut l, more);
        let a = vec![owned("interface"), owned("ip"), owned("set"), owned("address"), owned(iface), owned("dhcp")];
        assert(texts(a@) =~= seq!["interface"@, "ip"@, "set"@, "address"@, iface@, "dhcp"@]);
        let steps = vec![say(l), run(Program::Netsh, a, false), done(" DHCP enabled for address.")];
        assert(steps_view(steps@) =~= ip_outcome(iface@, address@, opt_text(*gateway))->Ok_0);
        return Ok(steps);
    }
    let (ip, prefix) = match parse_cidr(address) {
        Ok(v) => v,
        Err(e) => {
            return Err(cidr_error_message(e, address));
        },
    };
    let mask = prefix_to_mask(prefix);
    let mut l = announce_line("🔧", Color::Yellow, "  Setting ", iface);
    let more = vec![
        seg_plain(" → ip:"),
        seg(ip.as_str(), Color::BrightGreen, false, false),
        seg_plain(" mask:"),
        seg(mask.as_str(), Color::BrightBlack, false, false),
        seg_plain(" "),
    ];
    assert(line_view(more@) =~= seq![
        (" → ip:"@, plain()),
        (ip@, col(Color::BrightGreen)),
        (" mask:"@, plain()),
        (mask@, col(Color::BrightBlack)),
        (" "@, plain()),
    ]);
    extend_line(&mut l, more);
    let mut a = vec![
        owned("interface"),
        owned("ip"),
        owned("set"),
        owned("address"),
        owned(iface),
        owned("static"),
        ip,
        mask,
    ];
    let ghost a0 = texts(a@);
    assert(a0 =~= seq!["interface"@, "ip"@, "set"@, "address"@, iface@, "static"@, ip@, mask@]);
    let ghost l0 = line_view(l@);
    match gateway {
        Some(g) => {
            let gw = vec![seg_plain("gw:"), seg(g.as_str(), Color::BrightYellow, false, false)];
            assert(line_view(gw@) =~= gateway_segments(opt_text(*gateway)));
            extend_line(&mut l, gw);
            a.push(g.clone());
            assert(texts(a@) =~= a0 + gateway_args(opt_text(*gateway)));
            assert(line_view(l@) == l0 + gateway_segments(opt_text(*gateway)));
        },
        None => {
            assert(line_view(l@) =~= l0 + gateway_segments(opt_text(*gateway)));
            assert(texts(a@) =~= a0 + gateway_args(opt_text(*gateway)));
        },
    }
    let steps = vec![say(l), run(Program::Netsh, a, false), done(" IP address set.")];
    assert(steps_view(steps@) =~= ip_outcome(iface@, address@, opt_text(*gateway))->Ok_0);
    Ok(steps)
}

fn add_ip(iface: &str, address: &str) -> (r: Result<Vec<Step>, String>)
    ensures
        outcome_view(r) == add_outcome(iface@, address@),
{
    let (ip, prefix) = match parse_cidr(address) {
        Ok(v) => v,
        Err(e) => {
            return Err(cidr_error_message(e, address));
        },
    };
    let mask = prefix_to_mask(prefix);
    let l = vec![
        seg("➕", Color::BrightGreen, false, false),
        seg_plain("  Adding "),
        seg(address, Color::BrightGreen, false, false),
        seg_plain(" to "),
        seg(iface, Color::BrightWhite, true, false),
        seg_plain("..."),
    ];
    assert(line_view(l@) =~= seq![("➕"@, col(Color::BrightGreen)), ("  Adding "@, plain()), (address@, col(Color::BrightGreen)), (" to "@, plain()), (iface@, bold(Color::BrightWhite)), ("..."@, plain())]);
    let ghost ipv = ip@;
    let ghost maskv = mask@;
    let a = vec![owned("interface"), owned("ip"), owned("add"), owned("address"), owned(iface), ip, mask];
    assert(texts(a@) =~= seq!["interface"@, "ip"@, "add"@, "address"@, iface@, ipv, maskv]);
    let steps = vec![say(l), run(Program::Netsh, a, false), done(" Address added.")];
    assert(steps_view(steps@) =~= add_outcome(iface@, address@)->Ok_0);
    Ok(steps)
}

fn del_ip(iface: &str, address: &str) -> (steps: Vec<Step>)
    ensures
        steps_view(steps@) == del_plan(iface@, address@),
{
    let cs = char_vec(address);
    let cut = slash_index(&cs);
    let ip = string_of(&cs, 0, cut);
    assert(cs@.subrange(0, cut as int) =~= address@.take(first_index(address@, '/')));
    let l = vec![
        seg("➖", Color::BrightRed, false, false),
        seg_plain("  Removing "),
        seg(ip.as_str(), Color::BrightRed, false, false),
        seg_plain(" from "),
        seg(iface, Color::BrightWhite, true, false),
        seg_plain("..."),
    ];
    let ghost ipv = ip@;
    assert(line_view(l@) =~= seq![("➖"@, col(Color::BrightRed)), ("  Removing "@, plain()), (ipv, col(Color::BrightRed)), (" from "@, plain()), (iface@, bold(Color::BrightWhite)), ("..."@, plain())]);
    let a = vec![owned("interface"), owned("ip"), owned("delete"), owned("address"), owned(iface), ip];
    assert(texts(a@) =~= seq!["interface"@, "ip"@, "delete"@, "address"@, iface@, ipv]);
    let steps = vec![say(l), run(Program::Netsh, a, false), done(" Address removed.")];
    assert(steps_view(steps@) =~= del_plan(iface@, address@));
    steps
}

fn flush_ip(iface: &str) -> (steps: Vec<Step>)
    ensures
        steps_view(steps@) == flush_plan(iface@),
{
    let mut l = announce_line("🔄", Color::Cyan, "  Flushing all IPs on ", iface);
    let more = vec![seg_plain(" and resetting to DHCP...")];
    assert(line_view(more@) =~= seq![(" and resetting to DHCP..."@, plain())]);
    extend_line(&mut l, more);
    let a1 = vec![owned("interface"), owned("ip"), owned("set"), owned("address"), owned(iface), owned("dhcp")];
    let a2 = vec![owned("interface"), owned("ip"), owned("set"), owned("dns"), owned(iface), owned("dhcp")];
    assert(texts(a1@) =~= seq!["interface"@, "ip"@, "set"@, "address"@, iface@, "dhcp"@]);
    assert(texts(a2@) =~= seq!["interface"@, "ip"@, "set"@, "dns"@, iface@, "dhcp"@]);
    let steps = vec![
        say(l),
        run(Program::Netsh, a1, false),
        run(Program::Netsh, a2, false),
        done(" Interface flushed — DHCP re-enabled for IP and DNS."),
    ];
    assert(steps_view(steps@) =~= flush_plan(iface@));
    steps
}

fn decimal_text(n: u64) -> (s: String)
    ensures
        s@ == decimal(n as nat),
{
    let mut s = String::new();
    push_decimal(&mut s, n);
    s
}

fn set_mtu(iface: &str, mtu: u32) -> (steps: Vec<Step>)
    ensures
        steps_view(steps@) == mtu_plan(iface@, mtu),
{
    let v = decimal_text(mtu as u64);
    let mut l = announce_line("📦", Color::Yellow, "  Setting MTU on ", iface);
    let more = vec![seg_plain(" → "), seg(v.as_str(), Color::BrightCyan, true, false), seg_plain("...")];
    assert(line_view(more@) =~= seq![(" → "@, plain()), (v@, bold(Color::BrightCyan)), ("..."@, plain())]);
    extend_line(&mut l, more);
    let mut opt = owned("mtu=");
    opt.append(v.as_str());
    let ghost optv = opt@;
    let a = vec![owned("interface"), owned("ipv4"), owned("set"), owned("subinterface"), owned(iface), opt, owned("store=persistent")];
    assert(texts(a@) =~= seq!["interface"@, "ipv4"@, "set"@, "subinterface"@, iface@, "mtu="@ + v@, "store=persistent"@]);
    let l2 = vec![seg_plain("  "), seg("✅", Color::BrightGreen, false, false), seg_plain(" MTU set to "), seg_plain(v.as_str()), seg_plain(".")];
    assert(line_view(l2@) =~= seq![("  "@, plain()), ("✅"@, col(Color::BrightGreen)), (" MTU set to "@, plain()), (v@, plain()), ("."@, plain())]);
    let steps = vec![say(l), run(Program::Netsh, a, false), say(l2)];
    assert(steps_view(steps@) =~= mtu_plan(iface@, mtu));
    steps
}

fn set_metric(iface: &str, metric: u32) -> (steps: Vec<Step>)
    ensures
        steps_view(steps@) == metric_plan(iface@, metric),
{
    let v = decimal_text(metric as u64);
    let mut l = announce_line("📊", Color::Yellow, "  Setting metric on ", iface);
    let more = vec![seg_plain(" → "), seg(v.as_str(), Color::BrightCyan, true, false), seg_plain("...")];
    assert(line_view(more@) =~= seq![(" → "@, plain()), (v@, bold(Color::BrightCyan)), ("..."@, plain())]);
    extend_line(&mut l, more);
    let a1 = vec![owned("interface"), owned("ip"), owned("set"), owned("interface"), owned(iface), owned("metric=automatic")];
    let mut opt = owned("metric=");
    opt.append(v.as_str());
    let a2 = vec![owned("interface"), owned("ip"), owned("set"), owned("interface"), owned(iface), opt];
    assert(texts(a1@) =~= seq!["interface"@, "ip"@, "set"@, "interface"@, iface@, "metric=automatic"@]);
    assert(texts(a2@) =~= seq!["interface"@, "ip"@, "set"@, "interface"@, iface@, "metric="@ + v@]);
    let l2 = vec![seg_plain("  "), seg("✅", Color::BrightGreen, false, false), seg_plain(" Metric set to "), seg_plain(v.as_str()), seg_plain(".")];
    assert(line_view(l2@) =~= seq![("  "@, plain()), ("✅"@, col(Color::BrightGreen)), (" Metric set to "@, plain()), (v@, plain()), ("."@, plain())]);
    let steps = vec![say(l), run(Program::Netsh, a1, true), run(Program::Netsh, a2, false), say(l2)];
    assert(steps_view(steps@) =~= metric_plan(iface@, metric));
    steps
}

fn set_mac(iface: &str, mac: &str) -> (r: Result<Vec<Step>, String>)
    ensures
        outcome_view(r) == mac_outcome(iface@, mac@),
{
    if !check_mac(mac) {
        let mut m = owned("Invalid MAC address '");
        m.append(mac);
        m.append("'. Use format AA:BB:CC:DD:EE:FF");
        return Err(m);
    }
    let mut l = announce_line("🔌", Color::Yellow, "  Setting MAC on ", iface);
    let more = vec![seg_plain(" → "), seg(mac, Color::BrightYellow, true, false), seg_plain("...")];
    assert(line_view(more@) =~= seq![(" → "@, plain()), (mac@, bold(Color::BrightYellow)), ("..."@, plain())]);
    extend_line(&mut l, more);
    let mut cmd = owned("Set-NetAdapter -Name '");
    cmd.append(iface);
    cmd.append("' -MacAddress '");
    cmd.append(mac);
    cmd.append("' -Confirm:$false");
    let ghost cmdv = cmd@;
    assert(cmdv =~= "Set-NetAdapter -Name '"@ + iface@ + "' -MacAddress '"@ + mac@ + "' -Confirm:$false"@);
    let a = vec![owned("-NoProfile"), owned("-NonInteractive"), owned("-Command"), cmd];
    assert(texts(a@) =~= seq!["-NoProfile"@, "-NonInteractive"@, "-Command"@, cmdv]);
    let l2 = vec![seg_plain("  "), seg("✅", Color::BrightGreen, false, false), seg_plain(" MAC address changed to "), seg(mac, Color::BrightYellow, false, false), seg_plain(".")];
    let l3 = vec![seg_plain("  "), seg("ℹ️ ", Color::BrightCyan, false, false), seg_plain(" You may need to reconnect the interface for the change to take effect.")];
    assert(line_view(l2@) =~= seq![("  "@, plain()), ("✅"@, col(Color::BrightGreen)), (" MAC address changed to "@, plain()), (mac@, col(Color::BrightYellow)), ("."@, plain())]);
    assert(line_view(l3@) =~= seq![("  "@, plain()), ("ℹ️ "@, col(Color::BrightCyan)), (" You may need to reconnect the interface for the change to take effect."@, plain())]);
    let steps = vec![say(l), run(Program::PowerShell, a, false), say(l2), say(l3)];
    assert(steps_view(steps@) =~= mac_outcome(iface@, mac@)->Ok_0);
    Ok(steps)
}

fn set_dns(iface: &str, servers: &Vec<String>) -> (steps: Vec<Step>)
    requires
        servers@.len() >= 1,
    ensures
        steps_view(steps@) == dns_plan(iface@, texts(servers@)),
{
    let ghost sv = texts(servers@);
    if servers.len() == 1 && same_ignoring_ascii_case(servers[0].as_str(), "dhcp") {
        let mut l = announce_line("🔍", Color::Cyan, "  Setting DNS on ", iface);
        let more = vec![seg_plain(" → "), seg("DHCP (automatic)", Color::BrightCyan, false, false), seg_plain("...")];
        assert(line_view(more@) =~= seq![(" → "@, plain()), ("DHCP (automatic)"@, col(Color::BrightCyan)), ("..."@, plain())]);
        extend_line(&mut l, more);
        let a = vec![owned("interface"), owned("ip"), owned("set"), owned("dns"), owned(iface), owned("dhcp")];
        assert(texts(a@) =~= seq!["interface"@, "ip"@, "set"@, "dns"@, iface@, "dhcp"@]);
        let steps = vec![say(l), run(Program::Netsh, a, false), done(" DNS set to automatic.")];
        assert(steps_view(steps@) =~= dns_plan(iface@, sv));
        return steps;
    }
    let mut l = announce_line("🔍", Color::Yellow, "  Setting DNS on ", iface);
    let arrow = vec![seg_plain(" → ")];
    assert(line_view(arrow@) =~= seq![(" → "@, plain())]);
    extend_line(&mut l, arrow);
    let ghost head = line_view(l@);
    let mut i: usize = 0;
    while i < servers.len()
        invariant
            i <= servers@.len(),
            sv == texts(servers@),
            line_view(l@) == head + server_list(sv.take(i as int)),
        decreases servers@.len() - i,
    {
        let ghost prev = sv.take(i as int);
        assert(sv.take(i + 1).drop_last() =~= prev);
        if i > 0 {
            let more = vec![seg_plain(", "), seg(servers[i].as_str(), Color::BrightWhite, false, false)];
            assert(line_view(more@) =~= seq![(", "@, plain()), (sv[i as int], col(Color::BrightWhite))]);
            extend_line(&mut l, more);
            assert(head + server_list(sv.take(i + 1)) =~= head + server_list(prev) + line_view(more@));
        } else {
            let more = vec![seg(servers[i].as_str(), Color::BrightWhite, false, false)];
            assert(line_view(more@) =~= seq![(sv[0], col(Color::BrightWhite))]);
            extend_line(&mut l, more);
            assert(server_list(prev) =~= Seq::empty());
            assert(head + server_list(sv.take(i + 1)) =~= head + server_list(prev) + line_view(more@));
        }
        i = i + 1;
    }
    assert(sv.take(servers@.len() as int) =~= sv);
    let dots = vec![seg_plain("...")];
    assert(line_view(dots@) =~= seq![("..."@, plain())]);
    extend_line(&mut l, dots);
    let a = vec![owned("interface"), owned("ip"), owned("set"), owned("dns"), owned(iface), owned("static"), servers[0].clone(), owned("primary")];
    assert(texts(a@) =~= seq!["interface"@, "ip"@, "set"@, "dns"@, iface@, "static"@, sv[0], "primary"@]);
    let mut steps = vec![say(l), run(Program::Netsh, a, false)];
    let ghost first = steps_view(steps@);
    assert(first =~= dns_plan(iface@, sv).take(2));
    let mut k: usize = 1;
    while k < servers.len()
        invariant
            1 <= k <= servers@.len(),
            sv == texts(servers@),
            steps_view(steps@) == first + Seq::new((k - 1) as nat, |j: int| dns_add_run(iface@, sv, j + 1)),
        decreases servers@.len() - k,
    {
        let mut idx = owned("index=");
        push_decimal(&mut idx, k as u64 + 1);
        let a = vec![owned("interface"), owned("ip"), owned("add"), owned("dns"), owned(iface), servers[k].clone(), idx];
        let ghost al = texts(a@);
        assert(al =~= seq!["interface"@, "ip"@, "add"@, "dns"@, iface@, sv[k as int], "index="@ + decimal((k + 1) as nat)]);
        let ghost before = steps@;
        steps.push(run(Program::Netsh, a, false));
        assert(steps_view(steps@) =~= steps_view(before).push(dns_add_run(iface@, sv, k as int)));
        assert(first + Seq::new(k as nat, |j: int| dns_add_run(iface@, sv, j + 1)) =~= first + Seq::new((k - 1) as nat, |j: int| dns_add_run(iface@, sv, j + 1)).push(dns_add_run(iface@, sv, k as int)));
        k = k + 1;
    }
    let n = decimal_text(servers.len() as u64);
    let plural = if servers.len() == 1 { "" } else { "s" };
    let l2 = vec![
        seg_plain("  "),
        seg("✅", Color::BrightGreen, false, false),
        seg_plain(" DNS configured ("),
        seg_plain(n.as_str()),
        seg_plain(" server"),
        seg_plain(plural),
        seg_plain(")."),
    ];
    let ghost ll2 = line_view(l2@);
    let ghost before = steps@;
    steps.push(say(l2));
    assert(ll2 =~= seq![
        ("  "@, plain()),
        ("✅"@, col(Color::BrightGreen)),
        (" DNS configured ("@, plain()),
        (decimal(servers@.len()), plain()),
        (" server"@, plain()),
        (if servers@.len() == 1 { ""@ } else { "s"@ }, plain()),
        (")."@, plain()),
    ]);
    assert(steps_view(steps@) =~= steps_view(before).push(dns_done(servers@.len())));
    assert(steps_view(steps@) =~= dns_plan(iface@, sv));
    steps
}

/// Decimal text of a signed integer.
pub open spec fn int_text(i: int) -> Seq<char> {
    if i < 0 {
        seq!['-'] + decimal((-i) as nat)
    } else {
        decimal(i as nat)
    }
}

/// Debug text of an optional exit code: `Some(<code>)` or `None`.
pub open spec fn code_text(code: Option<i32>) -> Seq<char> {
    match code {
        Some(c) => "Some("@ + int_text(c as int) + ")"@,
        None => "None"@,
    }
}

/// `l` without one trailing carriage return.
pub open spec fn strip_cr(l: Seq<char>) -> Seq<char> {
    if l.len() > 0 && l.last() == '\r' {
        l.drop_last()
    } else {
        l
    }
}

/// The lines of `s` (`str::lines`): split at `\n`, a `\r` before a `\n` removed, and no
/// empty line after a final `\n`.
pub open spec fn text_lines(s: Seq<char>) -> Seq<Seq<char>> {
    let p = split_fields(s, seq!['\n']);
    let n = p.len();
    let kept = if p[n - 1].len() == 0 {
        n - 1
    } else {
        n as int
    };
    Seq::new(kept as nat, |i: int| if i < n - 1 { strip_cr(p[i]) } else { p[i] })
}

/// Whether a line of `netsh` output reports a failure.
pub open spec fn is_error_line(l: Seq<char>) -> bool {
    let ll = lowercase(l);
    contains(ll, "error"@) || contains(ll, "access is denied"@) || contains(ll, "the parameter is incorrect"@)
        || contains(ll, "failed"@)
}

/// The hint added when the text mentions missing rights.
pub open spec fn admin_tip(needed: bool) -> Seq<char> {
    if needed {
        "\n  💡 Tip: Run as Administrator"@
    } else {
        ""@
    }
}

/// How a finished `netsh` run ends: a failed run reports its trimmed error output (or its
/// trimmed output, or its exit code), with the administrator tip when that mentions denied
/// access; a successful run whose output mentions a failure
/// reports the lines that do, joined with `; `; otherwise the output is the result.
pub open spec fn netsh_result(success: bool, code: Option<i32>, stdout: Seq<char>, stderr: Seq<char>) -> Result<Seq<char>, Seq<char>> {
    if !success {
        let msg = if trim(stderr).len() > 0 {
            trim(stderr)
        } else if trim(stdout).len() > 0 {
            trim(stdout)
        } else {
            "netsh exited with code "@ + code_text(code)
        };
        let l = lowercase(msg);
        Err("netsh error: "@ + msg + admin_tip(contains(l, "access is denied"@)))
    } else {
        let lower = lowercase(stdout);
        let errs = text_lines(stdout).filter(|l: Seq<char>| is_error_line(l));
        if (contains(lower, "the parameter is incorrect"@) || contains(lower, "access is denied"@)
            || contains(lower, "failed"@) || contains(lower, "error"@)) && errs.len() > 0 {
            Err("netsh reported: "@ + join(errs, "; "@) + admin_tip(
                contains(lower, "access is denied"@) || contains(lower, "administrator"@),
            ))
        } else {
            Ok(stdout)
        }
    }
}

/// How a finished PowerShell run ends: a failed run reports its trimmed error output (or
/// trimmed output), with a hint when that mentions missing rights.
pub open spec fn powershell_result(success: bool, stdout: Seq<char>, stderr: Seq<char>) -> Result<Seq<char>, Seq<char>> {
    if !success {
        let msg = if trim(stderr).len() > 0 {
            trim(stderr)
        } else {
            trim(stdout)
        };
        let l = lowercase(msg);
        Err("PowerShell error: "@ + msg + admin_tip(
            contains(l, "access"@) || contains(l, "privilege"@) || contains(l, "administrator"@),
        ))
    } else {
        Ok(stdout)
    }
}

/// The view of a run's result.
pub open spec fn result_view(r: Result<String, String>) -> Result<Seq<char>, Seq<char>> {
    match r {
        Ok(s) => Ok(s@),
        Err(m) => Err(m@),
    }
}

fn push_int(out: &mut String, i: i32)
    ensures
        final(out)@ == old(out)@ + int_text(i as int),
{
    if i < 0 {
        push_char(out, '-');
        let m: i64 = -(i as i64);
        let ghost mid = out@;
        push_decimal(out, m as u64);
        assert(out@ =~= old(out)@ + int_text(i as int));
    } else {
        push_decimal(out, i as u64);
    }
}

/// The lines of `s`.
pub fn lines_of(s: &str) -> (ls: Vec<String>)
    ensures
        texts(ls@) == text_lines(s@),
{
    let cs = char_vec(s);
    let nl = ['\n'];
    assert(nl@ =~= seq!['\n']);
    let pieces = split_any(&cs, 0, cs.len(), &nl);
    assert(cs@.subrange(0, cs@.len() as int) =~= s@);
    let ghost p = split_fields(s@, seq!['\n']);
    proof {
        crate::text::lemma_split_fields_len(s@, seq!['\n']);
    }
    let n = pieces.len();
    let kept = if pieces[n - 1].as_str().unicode_len() == 0 {
        n - 1
    } else {
        n
    };
    let mut out: Vec<String> = Vec::new();
    let mut i: usize = 0;
    while i < kept
        invariant
            texts(pieces@) == p,
            n == p.len() >= 1,
            kept <= n,
            kept == (if p[n - 1].len() == 0 { n - 1 } else { n as int }),
            i <= kept,
            texts(out@) == Seq::new(i as nat, |j: int| if j < n - 1 { strip_cr(p[j]) } else { p[j] }),
        decreases kept - i,
    {
        let piece = &pieces[i];
        assert(piece@ == p[i as int]);
        let line = if i < n - 1 {
            let pc = char_vec(piece.as_str());
            if pc.len() > 0 && pc[pc.len() - 1] == '\r' {
                let t = string_of(&pc, 0, pc.len() - 1);
                assert(pc@.subrange(0, pc@.len() - 1) =~= pc@.drop_last());
                t
            } else {
                piece.clone()
            }
        } else {
            piece.clone()
        };
        assert(line@ == (if i < n - 1 { strip_cr(p[i as int]) } else { p[i as int] }));
        let ghost before = out@;
        let ghost lv = line@;
        out.push(line);
        assert(texts(out@) =~= texts(before).push(lv));
        assert(texts(out@) =~= Seq::new((i + 1) as nat, |j: int| if j < n - 1 { strip_cr(p[j]) } else { p[j] }));
        i = i + 1;
    }
    out
}

/// Whether a line of `netsh` output reports a failure.
fn error_line(l: &str) -> (r: bool)
    ensures
        r == is_error_line(l@),
{
    let ll = to_lowercase(l);
    str_contains(ll.as_str(), "error") || str_contains(ll.as_str(), "access is denied") || str_contains(
        ll.as_str(),
        "the parameter is incorrect",
    ) || str_contains(ll.as_str(), "failed")
}

/// Decides how a finished `netsh` run ends, from its exit status and raw output.
pub fn netsh_outcome(success: bool, code: Option<i32>, stdout: &[u8], stderr: &[u8]) -> (r: Result<String, String>)
    ensures
        result_view(r) == netsh_result(success, code, utf8_lossy(stdout@), utf8_lossy(stderr@)),
{
    let out = decode_utf8(stdout);
    let err = decode_utf8(stderr);
    if !success {
        let te = trim_text(err.as_str());
        let to = trim_text(out.as_str());
        let msg = if te.as_str().unicode_len() > 0 {
            te
        } else if to.as_str().unicode_len() > 0 {
            to
        } else {
            let mut m = String::new();
            m.append("netsh exited with code ");
            match code {
                Some(c) => {
                    m.append("Some(");
                    push_int(&mut m, c);
                    m.append(")");
                },
                None => {
                    m.append("None");
                },
            }
            assert(m@ =~= "netsh exited with code "@ + code_text(code));
            m
        };
        let l = to_lowercase(msg.as_str());
        let mut e = String::new();
        e.append("netsh error: ");
        e.append(msg.as_str());
        if str_contains(l.as_str(), "access is denied") {
            e.append("\n  💡 Tip: Run as Administrator");
        } else {
            e.append("");
        }
        return Err(e);
    }
    let lower = to_lowercase(out.as_str());
    let ls = lines_of(out.as_str());
    let ghost pred = |l: Seq<char>| is_error_line(l);
    let mut joined = String::new();
    let mut any = false;
    let mut i: usize = 0;
    while i < ls.len()
        invariant
            i <= ls@.len(),
            pred == (|l: Seq<char>| is_error_line(l)),
            joined@ == join(texts(ls@).take(i as int).filter(pred), "; "@),
            any == (texts(ls@).take(i as int).filter(pred).len() > 0),
        decreases ls@.len() - i,
    {
        let ghost prev = texts(ls@).take(i as int);
        proof {
            reveal_with_fuel(Seq::<Seq<char>>::filter, 1);
            assert(texts(ls@).take(i + 1).drop_last() =~= prev);
            assert(texts(ls@).take(i + 1).last() == ls@[i as int]@);
        }
        if error_line(ls[i].as_str()) {
            push_joined(&mut joined, &mut any, ls[i].as_str(), "; ", Ghost(prev.filter(pred)));
        }
        i = i + 1;
    }
    assert(texts(ls@).take(ls@.len() as int) =~= texts(ls@));
    let mentioned = str_contains(lower.as_str(), "the parameter is incorrect") || str_contains(
        lower.as_str(),
        "access is denied",
    ) || str_contains(lower.as_str(), "failed") || str_contains(lower.as_str(), "error");
    if mentioned && any {
        let mut e = String::new();
        e.append("netsh reported: ");
        e.append(joined.as_str());
        if str_contains(lower.as_str(), "access is denied") || str_contains(lower.as_str(), "administrator") {
            e.append("\n  💡 Tip: Run as Administrator");
        } else {
            e.append("");
        }
        return Err(e);
    }
    Ok(out)
}

/// Decides how a finished PowerShell run ends, from its exit status and raw output.
pub fn powershell_outcome(success: bool, stdout: &[u8], stderr: &[u8]) -> (r: Result<String, String>)
    ensures
        result_view(r) == powershell_result(success, utf8_lossy(stdout@), utf8_lossy(stderr@)),
{
    let out = decode_utf8(stdout);
    let err = decode_utf8(stderr);
    if !success {
        let te = trim_text(err.as_str());
        let msg = if te.as_str().unicode_len() > 0 {
            te
        } else {
            trim_text(out.as_str())
        };
        let l = to_lowercase(msg.as_str());
        let mut e = String::new();
        e.append("PowerShell error: ");
        e.append(msg.as_str());
        if str_contains(l.as_str(), "access") || str_contains(l.as_str(), "privilege") || str_contains(
            l.as_str(),
            "administrator",
        ) {
            e.append("\n  💡 Tip: Run as Administrator");
        } else {
            e.append("");
        }
        return Err(e);
    }
    Ok(out)
}


/// How the run of one step bears on its command: a failed run ends the command with the
/// run's error, unless the step may fail; otherwise the command goes on.
pub fn step_outcome(may_fail: bool, run: Result<String, String>) -> (r: Result<(), String>)
    ensures
        match run {
            Err(m) => if may_fail {
                r is Ok
            } else {
                r matches Err(e) && e@ == m@
            },
            Ok(_) => r is Ok,
        },
{
    match run {
        Err(m) => if may_fail {
            Ok(())
        } else {
            Err(m)
        },
        Ok(_) => Ok(()),
    }
}

} // verus!
