//! Run configuration.

use vstd::prelude::*;

verus! {

/// What to probe and how.
pub struct Options {
    /// The destination host, as a literal IPv4 or IPv6 address.
    pub host: String,
    /// The TTL of the first hop probed.
    pub first_ttl: u8,
    /// The largest TTL probed.
    pub max_ttl: u8,
    /// Probes sent per hop.
    pub nqueries: u16,
    /// Seconds to wait for a reply to one probe.
    pub waittime: u8,
}

} // verus!
