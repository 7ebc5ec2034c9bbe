//! The daemon's settings, as given on its command line.
use vstd::prelude::*;

verus! {

/// Settings of the failover daemon. Addresses are held as plain values: the IPv4
/// target as its four octets, the IPv6 target as its eight 16-bit segments.
#[derive(Debug, Clone)]
pub struct Cli {
    /// WAN interfaces in order of preference; the first has the highest priority.
    pub interfaces: Vec<String>,
    /// Only manage IPv4 routing and health checks.
    pub ipv4: bool,
    /// Only manage IPv6 routing and health checks.
    pub ipv6: bool,
    /// Ping target for IPv4.
    pub ip4: [u8; 4],
    /// Ping target for IPv6.
    pub ip6: [u16; 8],
    /// Metric of the split routes (0 leaves it unset).
    pub metric: u32,
    /// Seconds between health check cycles.
    pub interval: u64,
    /// Timeout of one probe, in milliseconds.
    pub timeout: u64,
    /// Number of probes per health check.
    pub count: u32,
    /// Do not flush the connection-tracking table after a route change.
    pub no_conntrack_flush: bool,
    /// Only report what would change.
    pub dry_run: bool,
    /// Run a single cycle and exit.
    pub once: bool,
}

impl Cli {
    /// IPv4 is managed unless `-6` (IPv6 only) was given.
    pub fn is_ipv4_enabled(&self) -> (r: bool)
        ensures
            r == !self.ipv6,
    {
        if self.ipv6 {
            false
        } else {
            true
        }
    }

    /// IPv6 is managed unless `-4` (IPv4 only) was given.
    pub fn is_ipv6_enabled(&self) -> (r: bool)
        ensures
            r == !self.ipv4,
    {
        if self.ipv4 {
            false
        } else {
            true
        }
    }
}

} // verus!
