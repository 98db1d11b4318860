//! Which ACL chain a packet goes through: `Inbound` when it is addressed to this
//! node, `Forward` otherwise.
//!
//! Addresses are plain integers: an IPv4 address is its 32 bits, an IPv6 address
//! its 128 bits, most significant octet (or segment) first.
use vstd::prelude::*;

verus! {

/// An IPv4 address, held as its 32 bits in network order.
#[derive(Clone, Copy, Debug, PartialEq, Eq, Structural)]
pub struct Ipv4Addr {
    pub bits: u32,
}

/// An IPv6 address, held as its 128 bits in network order.
#[derive(Clone, Copy, Debug, PartialEq, Eq, Structural)]
pub struct Ipv6Addr {
    pub bits: u128,
}

/// An IP address of either family.
#[derive(Clone, Copy, Debug, PartialEq, Eq, Structural)]
pub enum IpAddr {
    V4(Ipv4Addr),
    V6(Ipv6Addr),
}

/// The chain that a packet is filtered by.
#[derive(Clone, Copy, Debug, PartialEq, Eq, Structural)]
pub enum ChainType {
    Inbound,
    Forward,
}

/// The 32-bit value of the dotted address `a.b.c.d`.
pub open spec fn ipv4_bits(a: u8, b: u8, c: u8, d: u8) -> int {
    a * 0x100_0000 + b * 0x1_0000 + c * 0x100 + d
}

/// The 128-bit value of the address with the eight given 16-bit segments.
pub open spec fn ipv6_bits(s: Seq<u16>) -> int
    recommends
        s.len() == 8,
{
    s[0] * 0x1_0000_0000_0000_0000_0000_0000_0000
        + s[1] * 0x1_0000_0000_0000_0000_0000_0000
        + s[2] * 0x1_0000_0000_0000_0000_0000
        + s[3] * 0x1_0000_0000_0000_0000
        + s[4] * 0x1_0000_0000_0000
        + s[5] * 0x1_0000_0000
        + s[6] * 0x1_0000
        + s[7]
}

impl Ipv4Addr {
    /// The address `a.b.c.d`.
    pub fn new(a: u8, b: u8, c: u8, d: u8) -> (r: Ipv4Addr)
        ensures
            r.bits == ipv4_bits(a, b, c, d),
    {
        let bits: u32 = (a as u32) * 0x100_0000 + (b as u32) * 0x1_0000 + (c as u32) * 0x100
            + (d as u32);
        Ipv4Addr { bits }
    }

    /// `0.0.0.0`, the address that stands for no address.
    pub fn unspecified() -> (r: Ipv4Addr)
        ensures
            r == spec_ipv4_unspecified(),
    {
        Ipv4Addr { bits: 0 }
    }
}

impl Ipv6Addr {
    /// The address whose eight 16-bit segments are the arguments, first segment first.
    pub fn new(s0: u16, s1: u16, s2: u16, s3: u16, s4: u16, s5: u16, s6: u16, s7: u16) -> (r:
        Ipv6Addr)
        ensures
            r.bits == ipv6_bits(seq![s0, s1, s2, s3, s4, s5, s6, s7]),
    {
        let bits: u128 = (s0 as u128) * 0x1_0000_0000_0000_0000_0000_0000_0000 + (s1 as u128)
            * 0x1_0000_0000_0000_0000_0000_0000 + (s2 as u128) * 0x1_0000_0000_0000_0000_0000
            + (s3 as u128) * 0x1_0000_0000_0000_0000 + (s4 as u128) * 0x1_0000_0000_0000
            + (s5 as u128) * 0x1_0000_0000 + (s6 as u128) * 0x1_0000 + (s7 as u128);
        Ipv6Addr { bits }
    }

    /// `::`, the address that stands for no address.
    pub fn unspecified() -> (r: Ipv6Addr)
        ensures
            r == spec_ipv6_unspecified(),
    {
        Ipv6Addr { bits: 0 }
    }
}

pub open spec fn spec_ipv4_unspecified() -> Ipv4Addr {
    Ipv4Addr { bits: 0 }
}

pub open spec fn spec_ipv6_unspecified() -> Ipv6Addr {
    Ipv6Addr { bits: 0 }
}

impl ChainType {
    /// The chain's name as the filter reports it.
    pub open spec fn label(self) -> Seq<char> {
        match self {
            ChainType::Inbound => "Inbound"@,
            ChainType::Forward => "Forward"@,
        }
    }

    pub fn as_str(self) -> (r: &'static str)
        ensures
            r@ == self.label(),
    {
        match self {
            ChainType::Inbound => "Inbound",
            ChainType::Forward => "Forward",
        }
    }
}

/// The chain chosen by comparing the destination with the node's addresses, an
/// address that is not configured standing as the unspecified address of its family.
pub open spec fn spec_current_chain_type(
    packet_dst_ip: IpAddr,
    my_ipv4: Option<Ipv4Addr>,
    my_ipv6: Option<Ipv6Addr>,
) -> ChainType {
    let v4 = match my_ipv4 {
        Some(a) => a,
        None => spec_ipv4_unspecified(),
    };
    let v6 = match my_ipv6 {
        Some(a) => a,
        None => spec_ipv6_unspecified(),
    };
    if packet_dst_ip == IpAddr::V4(v4) || packet_dst_ip == IpAddr::V6(v6) {
        ChainType::Inbound
    } else {
        ChainType::Forward
    }
}

/// The chain chosen by comparing the destination with the configured address of
/// its own family only: a packet is inbound exactly when that address is
/// configured and equal to the destination.
pub open spec fn spec_correct_chain_type(
    packet_dst_ip: IpAddr,
    my_ipv4: Option<Ipv4Addr>,
    my_ipv6: Option<Ipv6Addr>,
) -> ChainType {
    match packet_dst_ip {
        IpAddr::V4(addr) => if my_ipv4 == Some(addr) {
            ChainType::Inbound
        } else {
            ChainType::Forward
        },
        IpAddr::V6(addr) => if my_ipv6 == Some(addr) {
            ChainType::Inbound
        } else {
            ChainType::Forward
        },
    }
}

/// The chain selection as it stands in the ACL filter: the destination is compared
/// with `my_ipv4.unwrap_or(0.0.0.0)` and with `my_ipv6.unwrap_or(::)`.
pub fn determine_chain_type_current_logic(
    packet_dst_ip: IpAddr,
    my_ipv4: Option<Ipv4Addr>,
    my_ipv6: Option<Ipv6Addr>,
) -> (r: &'static str)
    ensures
        r@ == spec_current_chain_type(packet_dst_ip, my_ipv4, my_ipv6).label(),
{
    let v4 = match my_ipv4 {
        Some(a) => a,
        None => Ipv4Addr::unspecified(),
    };
    let v6 = match my_ipv6 {
        Some(a) => a,
        None => Ipv6Addr::unspecified(),
    };
    let hit = match packet_dst_ip {
        IpAddr::V4(a) => a.bits == v4.bits,
        IpAddr::V6(a) => a.bits == v6.bits,
    };
    if hit {
        ChainType::Inbound.as_str()
    } else {
        ChainType::Forward.as_str()
    }
}

/// The chain selection that only counts a configured address of the packet's family.
pub fn determine_chain_type_correct_logic(
    packet_dst_ip: IpAddr,
    my_ipv4: Option<Ipv4Addr>,
    my_ipv6: Option<Ipv6Addr>,
) -> (r: &'static str)
    ensures
        r@ == spec_correct_chain_type(packet_dst_ip, my_ipv4, my_ipv6).label(),
{
    let hit = match packet_dst_ip {
        IpAddr::V4(addr) => match my_ipv4 {
            Some(my_addr) => addr.bits == my_addr.bits,
            None => false,
        },
        IpAddr::V6(addr) => match my_ipv6 {
            Some(my_addr) => addr.bits == my_addr.bits,
            None => false,
        },
    };
    if hit {
        ChainType::Inbound.as_str()
    } else {
        ChainType::Forward.as_str()
    }
}

/// The two chain names are different, so comparing the names that the two
/// selections return compares the chains.
pub proof fn lemma_chain_labels_distinct()
    ensures
        ChainType::Inbound.label() != ChainType::Forward.label(),
{
    reveal_strlit("Inbound");
    reveal_strlit("Forward");
    assert(ChainType::Inbound.label()[0] != ChainType::Forward.label()[0]);
}

/// The selection in the filter and the family-aware selection choose the same chain
/// on every packet except one addressed to the unspecified address of a family for
/// which the node has no address: there the filter says `Inbound`, the family-aware
/// selection `Forward`.
pub proof fn law_chain_logics_agree(
    packet_dst_ip: IpAddr,
    my_ipv4: Option<Ipv4Addr>,
    my_ipv6: Option<Ipv6Addr>,
)
    ensures
        (spec_current_chain_type(packet_dst_ip, my_ipv4, my_ipv6) == spec_correct_chain_type(
            packet_dst_ip,
            my_ipv4,
            my_ipv6,
        )) <==> !((packet_dst_ip == IpAddr::V4(spec_ipv4_unspecified()) && my_ipv4 is None) || (
        packet_dst_ip == IpAddr::V6(spec_ipv6_unspecified()) && my_ipv6 is None)),
        (packet_dst_ip == IpAddr::V4(spec_ipv4_unspecified()) && my_ipv4 is None) ==> (
        spec_current_chain_type(packet_dst_ip, my_ipv4, my_ipv6) == ChainType::Inbound
            && spec_correct_chain_type(packet_dst_ip, my_ipv4, my_ipv6) == ChainType::Forward),
        (packet_dst_ip == IpAddr::V6(spec_ipv6_unspecified()) && my_ipv6 is None) ==> (
        spec_current_chain_type(packet_dst_ip, my_ipv4, my_ipv6) == ChainType::Inbound
            && spec_correct_chain_type(packet_dst_ip, my_ipv4, my_ipv6) == ChainType::Forward),
{
}

/// A node without any configured address forwards every packet under the
/// family-aware selection.
pub proof fn law_unconfigured_node_forwards_everything(packet_dst_ip: IpAddr)
    ensures
        spec_correct_chain_type(packet_dst_ip, None, None) == ChainType::Forward,
{
}

/// The chain names are the words `Inbound` and `Forward`.
pub proof fn law_chain_labels()
    ensures
        ChainType::Inbound.label() =~= seq!['I', 'n', 'b', 'o', 'u', 'n', 'd'],
        ChainType::Forward.label() =~= seq!['F', 'o', 'r', 'w', 'a', 'r', 'd'],
{
    reveal_strlit("Inbound");
    reveal_strlit("Forward");
}

/// The family-aware selection: an IPv4 packet is inbound exactly when the node's
/// IPv4 address is configured and is the destination, whatever the IPv6 address;
/// an IPv6 packet exactly when the node's IPv6 address is configured and is the
/// destination, whatever the IPv4 address.
pub proof fn law_correct_chain_type_exact(
    a4: Ipv4Addr,
    a6: Ipv6Addr,
    my_ipv4: Option<Ipv4Addr>,
    my_ipv6: Option<Ipv6Addr>,
)
    ensures
        (spec_correct_chain_type(IpAddr::V4(a4), my_ipv4, my_ipv6) == ChainType::Inbound) <==> (
        my_ipv4 is Some && my_ipv4->0.bits == a4.bits),
        (spec_correct_chain_type(IpAddr::V6(a6), my_ipv4, my_ipv6) == ChainType::Inbound) <==> (
        my_ipv6 is Some && my_ipv6->0.bits == a6.bits),
        spec_correct_chain_type(IpAddr::V6(a6), my_ipv4, Some(a6)) == ChainType::Inbound,
        spec_correct_chain_type(IpAddr::V4(a4), Some(a4), my_ipv6) == ChainType::Inbound,
{
}

/// The selection in the filter: an IPv4 packet is inbound exactly when its
/// destination is the node's IPv4 address, or is `0.0.0.0` when the node has none;
/// an IPv6 packet exactly when its destination is the node's IPv6 address, or is
/// `::` when the node has none. In particular a packet is only inbound when its
/// destination is, bit for bit, an address it was compared with.
pub proof fn law_current_chain_type_exact(
    a4: Ipv4Addr,
    a6: Ipv6Addr,
    my_ipv4: Option<Ipv4Addr>,
    my_ipv6: Option<Ipv6Addr>,
)
    ensures
        (spec_current_chain_type(IpAddr::V4(a4), my_ipv4, my_ipv6) == ChainType::Inbound) <==> (
        match my_ipv4 {
            Some(b) => a4.bits == b.bits,
            None => a4.bits == 0,
        }),
        (spec_current_chain_type(IpAddr::V6(a6), my_ipv4, my_ipv6) == ChainType::Inbound) <==> (
        match my_ipv6 {
            Some(b) => a6.bits == b.bits,
            None => a6.bits == 0,
        }),
        forall|b: Ipv6Addr|
            spec_current_chain_type(IpAddr::V6(a6), my_ipv4, Some(b)) == ChainType::Inbound
                ==> a6 == b,
        forall|b: Ipv4Addr|
            spec_current_chain_type(IpAddr::V4(a4), Some(b), my_ipv6) == ChainType::Inbound
                ==> a4 == b,
{
}

} // verus!
