use vstd::prelude::*;
use crate::text::{join, push_joined};

verus! {

/// Everything shown about one network adapter.
#[derive(Debug, Clone)]
pub struct AdapterInfo {
    pub index: u32,
    pub name: String,
    pub friendly_name: String,
    pub description: String,
    pub adapter_type: AdapterType,
    pub status: AdapterStatus,
    pub mac_address: Option<String>,
    pub ipv4_addresses: Vec<IpAddress>,
    pub ipv6_addresses: Vec<IpAddress>,
    pub gateway: Option<String>,
    pub dns_servers: Vec<String>,
    pub dhcp_enabled: bool,
    pub dhcp_server: Option<String>,
    pub dhcp_lease_obtained: Option<String>,
    pub dhcp_lease_expires: Option<String>,
    pub mtu: u32,
    /// Link speed in bits per second.
    pub speed: Option<u64>,
    pub metric: u32,
    pub stats: Option<AdapterStats>,
    pub flags: AdapterFlags,
    pub wins_servers: Vec<String>,
}

/// One address assigned to an adapter.
#[derive(Debug, Clone)]
pub struct IpAddress {
    pub address: String,
    pub prefix_len: u8,
    pub netmask: Option<String>,
    pub broadcast: Option<String>,
    pub scope: IpScope,
}

/// Scope of an address, as shown after the word `scope`.
#[derive(Debug, Clone, PartialEq, Eq, Structural)]
pub enum IpScope {
    Global,
    LinkLocal,
    Loopback,
    SiteLocal,
    Unknown,
}

/// Kind of network adapter.
#[derive(Debug, Clone, PartialEq)]
pub enum AdapterType {
    Ethernet,
    WiFi,
    Loopback,
    Tunnel,
    PPP,
    Bridge,
    VPN,
    Other(String),
}

/// Operational state of an adapter.
#[derive(Debug, Clone, PartialEq, Eq, Structural)]
pub enum AdapterStatus {
    Up,
    Down,
    Testing,
    Unknown,
    Dormant,
    NotPresent,
    LowerLayerDown,
}

/// Traffic counters of an adapter.
#[derive(Debug, Clone)]
pub struct AdapterStats {
    pub rx_bytes: u64,
    pub rx_packets: u64,
    pub rx_errors: u64,
    pub rx_dropped: u64,
    pub rx_unicast: u64,
    pub rx_multicast: u64,
    pub rx_broadcast: u64,
    pub tx_bytes: u64,
    pub tx_packets: u64,
    pub tx_errors: u64,
    pub tx_dropped: u64,
    pub tx_unicast: u64,
    pub tx_multicast: u64,
    pub tx_broadcast: u64,
    pub collisions: u64,
}

/// Interface flags in the style of `ifconfig`.
#[derive(Debug, Clone)]
pub struct AdapterFlags {
    pub up: bool,
    pub broadcast: bool,
    pub debug: bool,
    pub loopback: bool,
    pub point_to_point: bool,
    pub running: bool,
    pub no_arp: bool,
    pub promisc: bool,
    pub multicast: bool,
    pub dynamic: bool,
    pub dhcp: bool,
}

/// Word shown for a scope.
pub open spec fn scope_text(s: IpScope) -> Seq<char> {
    match s {
        IpScope::Global => "global"@,
        IpScope::LinkLocal => "link"@,
        IpScope::Loopback => "host"@,
        IpScope::SiteLocal => "site"@,
        IpScope::Unknown => "unknown"@,
    }
}

/// Name shown for an adapter type.
pub open spec fn adapter_type_text(t: AdapterType) -> Seq<char> {
    match t {
        AdapterType::Ethernet => "Ethernet"@,
        AdapterType::WiFi => "IEEE 802.11 (Wi-Fi)"@,
        AdapterType::Loopback => "Local Loopback"@,
        AdapterType::Tunnel => "Tunnel"@,
        AdapterType::PPP => "Point-to-Point"@,
        AdapterType::Bridge => "Bridge"@,
        AdapterType::VPN => "VPN"@,
        AdapterType::Other(s) => s@,
    }
}

/// Symbol shown in front of an adapter of type `t`.
pub open spec fn adapter_emoji(t: AdapterType) -> Seq<char> {
    match t {
        AdapterType::Ethernet => "🔌"@,
        AdapterType::WiFi => "📶"@,
        AdapterType::Loopback => "🔁"@,
        AdapterType::Tunnel => "🚇"@,
        AdapterType::PPP => "🔗"@,
        AdapterType::Bridge => "🌉"@,
        AdapterType::VPN => "🔒"@,
        AdapterType::Other(_) => "🔧"@,
    }
}

/// Word shown for a status.
pub open spec fn status_text(s: AdapterStatus) -> Seq<char> {
    match s {
        AdapterStatus::Up => "UP"@,
        AdapterStatus::Down => "DOWN"@,
        AdapterStatus::Testing => "TESTING"@,
        AdapterStatus::Unknown => "UNKNOWN"@,
        AdapterStatus::Dormant => "DORMANT"@,
        AdapterStatus::NotPresent => "NOT-PRESENT"@,
        AdapterStatus::LowerLayerDown => "LOWER-LAYER-DOWN"@,
    }
}

/// Names of the flags that are set, in display order; `debug` is never shown.
pub open spec fn flag_names(f: AdapterFlags) -> Seq<Seq<char>> {
    let s = Seq::<Seq<char>>::empty();
    let s = if f.up { s.push("UP"@) } else { s };
    let s = if f.broadcast { s.push("BROADCAST"@) } else { s };
    let s = if f.loopback { s.push("LOOPBACK"@) } else { s };
    let s = if f.point_to_point { s.push("POINTOPOINT"@) } else { s };
    let s = if f.running { s.push("RUNNING"@) } else { s };
    let s = if f.no_arp { s.push("NOARP"@) } else { s };
    let s = if f.promisc { s.push("PROMISC"@) } else { s };
    let s = if f.multicast { s.push("MULTICAST"@) } else { s };
    let s = if f.dynamic { s.push("DYNAMIC"@) } else { s };
    let s = if f.dhcp { s.push("DHCP"@) } else { s };
    s
}

impl IpScope {
    /// The word shown after `scope`.
    pub fn to_text(&self) -> (s: String)
        ensures
            s@ == scope_text(*self),
    {
        let t = match self {
            IpScope::Global => "global",
            IpScope::LinkLocal => "link",
            IpScope::Loopback => "host",
            IpScope::SiteLocal => "site",
            IpScope::Unknown => "unknown",
        };
        t.to_owned()
    }
}

impl AdapterType {
    /// The name of the adapter type.
    pub fn to_text(&self) -> (s: String)
        ensures
            s@ == adapter_type_text(*self),
    {
        match self {
            AdapterType::Ethernet => "Ethernet".to_owned(),
            AdapterType::WiFi => "IEEE 802.11 (Wi-Fi)".to_owned(),
            AdapterType::Loopback => "Local Loopback".to_owned(),
            AdapterType::Tunnel => "Tunnel".to_owned(),
            AdapterType::PPP => "Point-to-Point".to_owned(),
            AdapterType::Bridge => "Bridge".to_owned(),
            AdapterType::VPN => "VPN".to_owned(),
            AdapterType::Other(s) => s.clone(),
        }
    }

    /// The symbol shown in front of an adapter of this type.
    pub fn emoji(&self) -> (e: &'static str)
        ensures
            e@ == adapter_emoji(*self),
    {
        match self {
            AdapterType::Ethernet => "🔌",
            AdapterType::WiFi => "📶",
            AdapterType::Loopback => "🔁",
            AdapterType::Tunnel => "🚇",
            AdapterType::PPP => "🔗",
            AdapterType::Bridge => "🌉",
            AdapterType::VPN => "🔒",
            AdapterType::Other(_) => "🔧",
        }
    }
}

impl AdapterStatus {
    /// The word shown for this status.
    pub fn to_text(&self) -> (s: String)
        ensures
            s@ == status_text(*self),
    {
        let t = match self {
            AdapterStatus::Up => "UP",
            AdapterStatus::Down => "DOWN",
            AdapterStatus::Testing => "TESTING",
            AdapterStatus::Unknown => "UNKNOWN",
            AdapterStatus::Dormant => "DORMANT",
            AdapterStatus::NotPresent => "NOT-PRESENT",
            AdapterStatus::LowerLayerDown => "LOWER-LAYER-DOWN",
        };
        t.to_owned()
    }
}

impl AdapterFlags {
    /// The set flags joined with commas, e.g. `UP,BROADCAST,RUNNING,MULTICAST`.
    pub fn to_flag_string(&self) -> (s: String)
        ensures
            s@ == join(flag_names(*self), ","@),
    {
        let mut out = String::new();
        let mut any = false;
        let ghost parts = Seq::<Seq<char>>::empty();
        let ghost f = *self;
        if self.up {
            push_joined(&mut out, &mut any, "UP", ",", Ghost(parts));
            proof { parts = parts.push("UP"@); }
        }
        if self.broadcast {
            push_joined(&mut out, &mut any, "BROADCAST", ",", Ghost(parts));
            proof { parts = parts.push("BROADCAST"@); }
        }
        if self.loopback {
            push_joined(&mut out, &mut any, "LOOPBACK", ",", Ghost(parts));
            proof { parts = parts.push("LOOPBACK"@); }
        }
        if self.point_to_point {
            push_joined(&mut out, &mut any, "POINTOPOINT", ",", Ghost(parts));
            proof { parts = parts.push("POINTOPOINT"@); }
        }
        if self.running {
            push_joined(&mut out, &mut any, "RUNNING", ",", Ghost(parts));
            proof { parts = parts.push("RUNNING"@); }
        }
        if self.no_arp {
            push_joined(&mut out, &mut any, "NOARP", ",", Ghost(parts));
            proof { parts = parts.push("NOARP"@); }
        }
        if self.promisc {
            push_joined(&mut out, &mut any, "PROMISC", ",", Ghost(parts));
            proof { parts = parts.push("PROMISC"@); }
        }
        if self.multicast {
            push_joined(&mut out, &mut any, "MULTICAST", ",", Ghost(parts));
            proof { parts = parts.push("MULTICAST"@); }
        }
        if self.dynamic {
            push_joined(&mut out, &mut any, "DYNAMIC", ",", Ghost(parts));
            proof { parts = parts.push("DYNAMIC"@); }
        }
        if self.dhcp {
            push_joined(&mut out, &mut any, "DHCP", ",", Ghost(parts));
            proof { parts = parts.push("DHCP"@); }
        }
        assert(parts == flag_names(f));
        out
    }
}

} // verus!
