use vstd::prelude::*;

verus! {

/// Command-line options: what to show, or a configuration command.
#[derive(Debug)]
pub struct Cli {
    /// Interface name or index to display (all when absent).
    pub interface: Option<String>,
    /// Show all interfaces, including those that are down.
    pub all: bool,
    /// Output in JSON format.
    pub json: bool,
    /// Show extended statistics.
    pub stats: bool,
    /// Show routing metrics.
    pub metrics: bool,
    /// Show DNS configuration.
    pub dns: bool,
    /// Show DHCP lease information.
    pub dhcp: bool,
    /// Disable coloured output.
    pub no_color: bool,
    /// Compact output.
    pub brief: bool,
    /// Stats, metrics, DNS and DHCP together.
    pub verbose: bool,
    /// Refresh every given number of seconds.
    pub watch: Option<u64>,
    /// Show summary totals at the end.
    pub summary: bool,
    /// A configuration command instead of the display.
    pub command: Option<Commands>,
}

/// Configuration commands (they need Administrator rights).
#[derive(Debug)]
pub enum Commands {
    /// Bring an interface up.
    Up { interface: String },
    /// Bring an interface down.
    Down { interface: String },
    /// Change a property of an interface.
    Configure { interface: String, operation: SetOperation },
}

/// Properties that `set` can change.
#[derive(Debug)]
pub enum SetOperation {
    /// IPv4 address in CIDR notation, or `dhcp`.
    Ip(IpArgs),
    /// MTU in bytes.
    Mtu { value: u32 },
    /// Routing metric.
    Metric { value: u32 },
    /// DNS servers, or `dhcp`.
    Dns(DnsArgs),
    /// An additional IPv4 address in CIDR notation.
    Add { address: String },
    /// An IPv4 address to remove.
    Del { address: String },
    /// New hardware address.
    Mac { address: String },
    /// Remove all addresses and return to DHCP.
    Flush,
}

/// Arguments of `set <iface> ip`.
#[derive(Debug)]
pub struct IpArgs {
    /// CIDR address or `dhcp`.
    pub address: String,
    /// Default gateway.
    pub gateway: Option<String>,
}

/// Arguments of `set <iface> dns`.
#[derive(Debug)]
pub struct DnsArgs {
    /// DNS servers, or the single word `dhcp`.
    pub servers: Vec<String>,
}

} // verus!
