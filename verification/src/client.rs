//! Client identity: the resolved source address of a request.
//!
//! Every per-client map in the admission layer is keyed by a
//! [`ClientIp`].  The value is produced by an external collaborator
//! that resolves and parses the forwarded-for address; the admission
//! logic itself only needs structural equality and the octet fields
//! that the whitelist reads.

use vstd::prelude::*;

verus! {

/// A parsed IPv4 or IPv6 source address.
#[derive(Clone, Copy, Debug, Hash, PartialEq, Eq, Structural)]
pub enum ClientIp {
    /// An IPv4 address, one field per octet.
    V4 { a: u8, b: u8, c: u8, d: u8 },
    /// An IPv6 address, split into its high and low 64 bits.
    V6 { hi: u64, lo: u64 },
}

/// Addresses exempt from global-attack throttling: loopback and the
/// private RFC1918 ranges 10.0.0.0/8, 172.16.0.0/12 and
/// 192.168.0.0/16.  No IPv6 exemptions.
pub open spec fn spec_is_whitelisted(ip: ClientIp) -> bool {
    match ip {
        ClientIp::V4 { a, b, c, d } => a == 127 || a == 10 || (a == 172 && 16 <= b <= 31) || (a
            == 192 && b == 168),
        ClientIp::V6 { .. } => false,
    }
}

/// Whether `ip` belongs to the static whitelist.  The whitelist exempts
/// a client only from global-attack throttling; blacklist and
/// per-client checks still apply to whitelisted addresses.
pub fn is_whitelisted(ip: &ClientIp) -> (r: bool)
    ensures
        r == spec_is_whitelisted(*ip),
{
    match ip {
        ClientIp::V4 { a, b, c, d: _ } => {
            *a == 127 || *a == 10 || (*a == 172 && 16 <= *b && *b <= 31) || (*a == 192 && *b
                == 168)
        },
        ClientIp::V6 { .. } => false,
    }
}

} // verus!
