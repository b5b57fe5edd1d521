//! Addresses and networks as plain values.
use vstd::prelude::*;

verus! {

/// An IPv4 address, most significant octet first.
#[derive(Clone, Copy, Debug, PartialEq, Eq, Structural)]
pub struct Ipv4Addr(pub u8, pub u8, pub u8, pub u8);

/// An IP address of either family; an IPv6 address is its 128-bit number.
#[derive(Clone, Copy, Debug, PartialEq, Eq, Structural)]
pub enum IpAddr {
    V4(Ipv4Addr),
    V6(u128),
}

/// An IPv4 address with the length of its network prefix.
#[derive(Clone, Copy, Debug, PartialEq, Eq, Structural)]
pub struct Ipv4Network {
    pub addr: Ipv4Addr,
    pub prefix: u8,
}

/// An IP address of either family with the length of its network prefix.
#[derive(Clone, Copy, Debug, PartialEq, Eq, Structural)]
pub enum IpNetwork {
    V4(Ipv4Network),
    V6 { addr: u128, prefix: u8 },
}

impl DeepView for Ipv4Addr {
    type V = Ipv4Addr;

    open spec fn deep_view(&self) -> Ipv4Addr {
        *self
    }
}

impl DeepView for IpAddr {
    type V = IpAddr;

    open spec fn deep_view(&self) -> IpAddr {
        *self
    }
}

impl DeepView for IpNetwork {
    type V = IpNetwork;

    open spec fn deep_view(&self) -> IpNetwork {
        *self
    }
}

/// The error of `ipnetwork`'s constructors.
#[verifier::external_type_specification]
#[verifier::external_body]
pub struct ExIpNetworkError(ipnetwork::IpNetworkError);

/// The error of `ipnet`'s constructors.
#[verifier::external_type_specification]
#[verifier::external_body]
pub struct ExPrefixLenError(ipnet::PrefixLenError);

/// Calls `ipnetwork::Ipv4Network::new`, which takes any address and refuses exactly the
/// prefixes longer than 32 bits; the network it gives back keeps the address, host bits
/// included, and the prefix.
#[verifier::external_body]
pub(crate) fn ipv4_network(addr: Ipv4Addr, prefix: u8) -> (r: Result<
    Ipv4Network,
    ipnetwork::IpNetworkError,
>)
    ensures
        r is Ok <==> prefix <= 32,
        r matches Ok(network) ==> network == (Ipv4Network { addr, prefix }),
{
    match ipnetwork::Ipv4Network::new([addr.0, addr.1, addr.2, addr.3].into(), prefix) {
        Ok(network) => {
            let octets = network.ip().octets();
            Ok(
                Ipv4Network {
                    addr: Ipv4Addr(octets[0], octets[1], octets[2], octets[3]),
                    prefix: network.prefix(),
                },
            )
        },
        Err(error) => Err(error),
    }
}

/// Calls `ipnet::IpNet::new` on an IPv4 address: it refuses exactly the prefixes longer than
/// 32 bits, and the network it gives back is an IPv4 one that keeps the address, host bits
/// included, and the prefix.
#[verifier::external_body]
pub(crate) fn ip_net(addr: Ipv4Addr, prefix: u8) -> (r: Result<IpNetwork, ipnet::PrefixLenError>)
    ensures
        r is Ok <==> prefix <= 32,
        r matches Ok(network) ==> network == IpNetwork::V4(Ipv4Network { addr, prefix }),
{
    match ipnet::IpNet::new([addr.0, addr.1, addr.2, addr.3].into(), prefix) {
        Ok(ipnet::IpNet::V4(net)) => {
            let octets = net.addr().octets();
            let addr = Ipv4Addr(octets[0], octets[1], octets[2], octets[3]);
            Ok(IpNetwork::V4(Ipv4Network { addr, prefix: net.prefix_len() }))
        },
        Ok(ipnet::IpNet::V6(net)) => {
            Ok(IpNetwork::V6 { addr: net.addr().into(), prefix: net.prefix_len() })
        },
        Err(error) => Err(error),
    }
}

/// Addresses and networks stand for themselves.
pub proof fn addresses_are_shown_whole(v4: Ipv4Addr, ip: IpAddr, network: IpNetwork)
    ensures
        v4.deep_view() == v4,
        ip.deep_view() == ip,
        network.deep_view() == network,
{
}

} // verus!
