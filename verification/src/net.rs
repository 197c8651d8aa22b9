//! Address parsing: the one place the library leans on its host framework's
//! IP-literal parser.

use crate::event::IpValue;
use vstd::prelude::*;

verus! {

/// The value of the IPv4 or IPv6 literal `s`, when it is one: what
/// `usiem`'s `SiemIp::from_ip_str` computes from the characters alone.
pub uninterp spec fn ip_of(s: Seq<char>) -> Option<IpValue>;

/// Relies on usiem's `SiemIp::from_ip_str`: parses an IPv4 or IPv6 address
/// literal; the result depends on the characters of `s` alone.
#[verifier::external_body]
pub(crate) fn parse_ip(s: &str) -> (r: Option<IpValue>)
    ensures
        r == ip_of(s@),
{
    match usiem::events::ip::SiemIp::from_ip_str(s) {
        Ok(usiem::events::ip::SiemIp::V4(v)) => Some(IpValue::V4(v)),
        Ok(usiem::events::ip::SiemIp::V6(v)) => Some(IpValue::V6(v)),
        Err(_) => None,
    }
}

} // verus!
