use vstd::prelude::*;

verus! {

/// An IP address: an IPv4 address as its 32-bit value, an IPv6 address as
/// its 128-bit value, both with the octets in big-endian order.
#[derive(Clone, Copy, Debug, PartialEq, Eq, Structural)]
pub enum IpAddress {
    V4(u32),
    V6(u128),
}

/// An IP network: a base address together with a prefix length.
#[derive(Clone, Copy, Debug, PartialEq, Eq, Structural)]
pub struct IpNetwork {
    pub addr: IpAddress,
    pub prefix: u8,
}

impl IpNetwork {
    /// The prefix length never exceeds the bit width of the address family.
    pub open spec fn wf(self) -> bool {
        match self.addr {
            IpAddress::V4(_) => self.prefix <= 32,
            IpAddress::V6(_) => self.prefix <= 128,
        }
    }
}

/// Membership of an address in a network: the families agree and the address
/// has the same first `prefix` bits as the network's base address.
pub open spec fn spec_net_contains(net: IpNetwork, ip: IpAddress) -> bool {
    match (net.addr, ip) {
        (IpAddress::V4(base), IpAddress::V4(a)) => {
            if net.prefix == 0 {
                true
            } else if net.prefix >= 32 {
                base == a
            } else {
                base >> ((32 - net.prefix) as u32) == a >> ((32 - net.prefix) as u32)
            }
        },
        (IpAddress::V6(base), IpAddress::V6(a)) => {
            if net.prefix == 0 {
                true
            } else if net.prefix >= 128 {
                base == a
            } else {
                base >> ((128 - net.prefix) as u128) == a >> ((128 - net.prefix) as u128)
            }
        },
        _ => false,
    }
}

/// Decides membership of an address in a network.
pub fn net_contains(net: &IpNetwork, ip: &IpAddress) -> (r: bool)
    ensures
        r == spec_net_contains(*net, *ip),
{
    match (net.addr, *ip) {
        (IpAddress::V4(base), IpAddress::V4(a)) => {
            if net.prefix == 0 {
                true
            } else if net.prefix >= 32 {
                base == a
            } else {
                let shift: u32 = 32 - (net.prefix as u32);
                (base >> shift) == (a >> shift)
            }
        },
        (IpAddress::V6(base), IpAddress::V6(a)) => {
            if net.prefix == 0 {
                true
            } else if net.prefix >= 128 {
                base == a
            } else {
                let shift: u128 = 128 - (net.prefix as u128);
                (base >> shift) == (a >> shift)
            }
        },
        _ => false,
    }
}

/// What the host's textual IP address parser returns for the given
/// characters: the family flag (true for IPv4) and the address bits, or
/// nothing when the text is not an address.
pub uninterp spec fn ip_of(s: Seq<char>) -> Option<(bool, u128)>;

/// What the network parser returns for the given characters: the family
/// flag (true for IPv4), the base address bits and the prefix length, or
/// nothing when the text is not a network in "address/prefix" form.
pub uninterp spec fn cidr_of(s: Seq<char>) -> Option<(bool, u128, u8)>;

/// Relies on core's IP address parser (`IpAddr` from text): it accepts
/// exactly the textual IPv4 and IPv6 address forms and the result depends on
/// the characters alone; an IPv4 value fits in 32 bits.
#[verifier::external_body]
fn parse_ip_chars(s: &str) -> (r: Option<(bool, u128)>)
    ensures
        r == ip_of(s@),
        r matches Some(p) ==> (p.0 ==> p.1 < 0x1_0000_0000u128),
{
    match s.parse::<core::net::IpAddr>() {
        Ok(core::net::IpAddr::V4(a)) => Some((true, u32::from(a) as u128)),
        Ok(core::net::IpAddr::V6(a)) => Some((false, u128::from(a))),
        Err(_) => None,
    }
}

/// Relies on ipnet::IpNet::from_str: it accepts "address/prefix" with the
/// prefix at most the family's bit width, and the result depends on the
/// characters alone; an IPv4 base address fits in 32 bits.
#[verifier::external_body]
fn parse_cidr_chars(s: &str) -> (r: Option<(bool, u128, u8)>)
    ensures
        r == cidr_of(s@),
        r matches Some(c) ==> (c.0 ==> c.1 < 0x1_0000_0000u128 && c.2 <= 32),
        r matches Some(c) ==> (!c.0 ==> c.2 <= 128),
{
    match s.parse::<ipnet::IpNet>() {
        Ok(ipnet::IpNet::V4(n)) => Some((true, u32::from(n.addr()) as u128, n.prefix_len())),
        Ok(ipnet::IpNet::V6(n)) => Some((false, u128::from(n.addr()), n.prefix_len())),
        Err(_) => None,
    }
}

/// The address parsed from the given characters, in the library's
/// representation.
pub open spec fn spec_parse_ip(s: Seq<char>) -> Option<IpAddress> {
    match ip_of(s) {
        Some(p) => if p.0 {
            Some(IpAddress::V4(p.1 as u32))
        } else {
            Some(IpAddress::V6(p.1))
        },
        None => None,
    }
}

/// The network parsed from the given characters, in the library's
/// representation.
pub open spec fn spec_parse_cidr(s: Seq<char>) -> Option<IpNetwork> {
    match cidr_of(s) {
        Some(c) => if c.0 {
            Some(IpNetwork { addr: IpAddress::V4(c.1 as u32), prefix: c.2 })
        } else {
            Some(IpNetwork { addr: IpAddress::V6(c.1), prefix: c.2 })
        },
        None => None,
    }
}

/// Parses the text of a literal IP address.
pub fn parse_ip(s: &str) -> (r: Option<IpAddress>)
    ensures
        r == spec_parse_ip(s@),
{
    match parse_ip_chars(s) {
        Some(p) => {
            if p.0 {
                Some(IpAddress::V4(p.1 as u32))
            } else {
                Some(IpAddress::V6(p.1))
            }
        },
        None => None,
    }
}

/// Parses the text of a network in "address/prefix" form.
pub fn parse_cidr(s: &str) -> (r: Option<IpNetwork>)
    ensures
        r == spec_parse_cidr(s@),
        r matches Some(n) ==> n.wf(),
{
    match parse_cidr_chars(s) {
        Some(c) => {
            if c.0 {
                Some(IpNetwork { addr: IpAddress::V4(c.1 as u32), prefix: c.2 })
            } else {
                Some(IpNetwork { addr: IpAddress::V6(c.1), prefix: c.2 })
            }
        },
        None => None,
    }
}

} // verus!
