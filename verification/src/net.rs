//! Plain-value models of network addresses.
//!
//! The engine never opens sockets; it only compares addresses.  An IP
//! address is therefore held as its raw bits, and a CIDR block as a network
//! address plus prefix length, so containment and equality are ordinary
//! arithmetic that the verifier can see through.  Parsing address and
//! network texts is delegated to the `cidr` crate behind trusted wrappers.

use vstd::prelude::*;
use crate::text::chars_of;

verus! {

/// An IP address, as its raw bits.
#[derive(Debug, Clone, Copy, PartialEq, Eq, Structural, Hash)]
pub enum IpAddress {
    /// An IPv4 address: four octets, most significant first.
    V4(u32),
    /// An IPv6 address: sixteen octets, most significant first.
    V6(u128),
}

/// A socket address: an IP address and a port.
#[derive(Debug, Clone, Copy, PartialEq, Eq, Structural, Hash)]
pub struct SocketAddress {
    /// The host part.
    pub ip: IpAddress,
    /// The port part.
    pub port: u16,
}

/// A parsed CIDR block: the special block that contains every address, or
/// a network address with a prefix length, per address family.
#[derive(Debug, Clone, Copy, PartialEq, Eq, Structural)]
pub enum CidrBlock {
    /// Contains every address of both families (the text `any`).
    Any,
    /// An IPv4 network.
    V4 {
        /// The network address; host bits are zero.
        network: u32,
        /// The prefix length, at most 32.
        length: u8,
    },
    /// An IPv6 network.
    V6 {
        /// The network address; host bits are zero.
        network: u128,
        /// The prefix length, at most 128.
        length: u8,
    },
}

/// The top `length` bits of `network` and `a` agree.
pub open spec fn v4_prefix_match(network: u32, a: u32, length: u8) -> bool {
    if length == 0 {
        true
    } else if length >= 32 {
        network == a
    } else {
        (network >> ((32 - length) as u32)) == (a >> ((32 - length) as u32))
    }
}

/// The top `length` bits of `network` and `a` agree.
pub open spec fn v6_prefix_match(network: u128, a: u128, length: u8) -> bool {
    if length == 0 {
        true
    } else if length >= 128 {
        network == a
    } else {
        (network >> ((128 - length) as u32)) == (a >> ((128 - length) as u32))
    }
}

/// `ip` falls inside the block: same family and matching prefix, or the
/// block that contains everything.
pub open spec fn cidr_contains(c: CidrBlock, ip: IpAddress) -> bool {
    match c {
        CidrBlock::Any => true,
        CidrBlock::V4 { network, length } => match ip {
            IpAddress::V4(a) => v4_prefix_match(network, a, length),
            IpAddress::V6(_) => false,
        },
        CidrBlock::V6 { network, length } => match ip {
            IpAddress::V4(_) => false,
            IpAddress::V6(a) => v6_prefix_match(network, a, length),
        },
    }
}

/// The CIDR block denoted by a text, if any.  The grammar is the one
/// `cidr::AnyIpCidr` accepts: the word `any`, a plain IPv4 or IPv6
/// address (a full-length host network), or `address/prefix` with the
/// host bits zero.
pub uninterp spec fn parsed_cidr(s: Seq<char>) -> Option<CidrBlock>;

/// Relies on `cidr::AnyIpCidr` parsing (`FromStr`): the result is a
/// function of the text alone; `any` gives the block containing every
/// address, and otherwise the parsed network address and prefix length are
/// returned bit for bit.
#[verifier::external_body]
pub(crate) fn cidr_from_str(s: &str) -> (r: Option<CidrBlock>)
    ensures
        r == parsed_cidr(s@),
{
    match s.parse::<cidr::AnyIpCidr>() {
        Ok(cidr::AnyIpCidr::Any) => Some(CidrBlock::Any),
        Ok(cidr::AnyIpCidr::V4(c)) => Some(
            CidrBlock::V4 { network: u32::from(c.first_address()), length: c.network_length() },
        ),
        Ok(cidr::AnyIpCidr::V6(c)) => Some(
            CidrBlock::V6 { network: u128::from(c.first_address()), length: c.network_length() },
        ),
        Err(_) => None,
    }
}

/// The IP address denoted by a text, if any.
///
/// A text without `/` that is not the word `any` is accepted by the CIDR
/// grammar exactly when it is a plain address, and then denotes the
/// full-length host network of that address; so the address can be read
/// off [`parsed_cidr`].
pub open spec fn parsed_ip(s: Seq<char>) -> Option<IpAddress> {
    if s.contains('/') || s == "any"@ {
        None
    } else {
        match parsed_cidr(s) {
            Some(CidrBlock::V4 { network, .. }) => Some(IpAddress::V4(network)),
            Some(CidrBlock::V6 { network, .. }) => Some(IpAddress::V6(network)),
            _ => None,
        }
    }
}

/// Parse a plain IP address, of either family.
pub fn ip_from_str(s: &str) -> (r: Option<IpAddress>)
    ensures
        r == parsed_ip(s@),
{
    let cs = chars_of(s);
    let n = cs.len();
    let mut i: usize = 0;
    while i < n
        invariant
            0 <= i <= n,
            n == s@.len(),
            cs@ == s@,
            forall|j: int| 0 <= j < i ==> s@[j] != '/',
        decreases n - i,
    {
        if cs[i] == '/' {
            proof {
                assert(s@.contains('/'));
            }
            return None;
        }
        i += 1;
    }
    proof {
        assert(!s@.contains('/'));
    }
    let is_any = n == 3 && cs[0] == 'a' && cs[1] == 'n' && cs[2] == 'y';
    proof {
        reveal_strlit("any");
        if is_any {
            assert(s@ =~= "any"@);
        }
    }
    if is_any {
        return None;
    }
    proof {
        assert(s@ != "any"@);
    }
    match cidr_from_str(s) {
        Some(CidrBlock::V4 { network, .. }) => Some(IpAddress::V4(network)),
        Some(CidrBlock::V6 { network, .. }) => Some(IpAddress::V6(network)),
        _ => None,
    }
}

impl CidrBlock {
    /// Does the block contain `ip`?
    pub fn contains_ip(&self, ip: &IpAddress) -> (r: bool)
        ensures
            r == cidr_contains(*self, *ip),
    {
        match self {
            CidrBlock::Any => true,
            CidrBlock::V4 { network, length } => match ip {
                IpAddress::V4(a) => {
                    if *length == 0 {
                        true
                    } else if *length >= 32 {
                        *network == *a
                    } else {
                        (*network >> ((32 - *length) as u32)) == (*a >> ((32 - *length) as u32))
                    }
                },
                IpAddress::V6(_) => false,
            },
            CidrBlock::V6 { network, length } => match ip {
                IpAddress::V4(_) => false,
                IpAddress::V6(a) => {
                    if *length == 0 {
                        true
                    } else if *length >= 128 {
                        *network == *a
                    } else {
                        (*network >> ((128 - *length) as u32)) == (*a >> ((128 - *length) as u32))
                    }
                },
            },
        }
    }
}

/// Every proxy block listed in the configuration, parsed; `None` as soon
/// as any entry is not a valid CIDR text.
pub fn parse_allowed_proxies(texts: &Vec<String>) -> (r: Option<Vec<CidrBlock>>)
    ensures
        r is Some <==> (forall|i: int|
            0 <= i < texts@.len() ==> parsed_cidr(texts@[i]@) is Some),
        r matches Some(v) ==> {
            &&& v@.len() == texts@.len()
            &&& forall|i: int| 0 <= i < texts@.len() ==> Some(v@[i]) == parsed_cidr(texts@[i]@)
        },
{
    let mut out: Vec<CidrBlock> = Vec::new();
    let n = texts.len();
    let mut i: usize = 0;
    while i < n
        invariant
            0 <= i <= n,
            n == texts@.len(),
            out@.len() == i,
            forall|j: int| 0 <= j < i ==> Some(out@[j]) == parsed_cidr(texts@[j]@),
        decreases n - i,
    {
        match cidr_from_str(texts[i].as_str()) {
            Some(b) => {
                out.push(b);
            },
            None => {
                return None;
            },
        }
        i += 1;
    }
    proof {
        assert forall|j: int| 0 <= j < texts@.len() implies parsed_cidr(texts@[j]@) is Some by {
            assert(Some(out@[j]) == parsed_cidr(texts@[j]@));
        }
    }
    Some(out)
}

/// Is `ip` inside any of the listed blocks?  This is the allow-list test
/// applied to a connection's source before its proxy header is believed.
pub fn ip_allowed_by_proxies(proxies: &Vec<CidrBlock>, ip: &IpAddress) -> (r: bool)
    ensures
        r == exists|i: int| 0 <= i < proxies@.len() && cidr_contains(proxies@[i], *ip),
{
    let n = proxies.len();
    let mut i: usize = 0;
    while i < n
        invariant
            0 <= i <= n,
            n == proxies@.len(),
            forall|j: int| 0 <= j < i ==> !cidr_contains(proxies@[j], *ip),
        decreases n - i,
    {
        if proxies[i].contains_ip(ip) {
            return true;
        }
        i += 1;
    }
    false
}

} // verus!
