//! Decisions and wire formats of a multi-WAN failover daemon: the ICMP echo probes and
//! their checksum, the health check schedule, the choice of the active WAN link, the
//! comparison with the routing in effect, and the `ip` / `conntrack` commands that
//! query and change it.
pub mod checksum;
pub mod text;
pub mod router;
pub mod icmp;
pub mod cli;
pub mod probe;
pub mod failover;
