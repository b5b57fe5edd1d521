//! What netavark is told about a container and its networks.
use vstd::prelude::*;
use vstd::string::*;

use crate::keymap::NameMap;
use crate::network::addr::{ip_net, IpAddr, IpNetwork, Ipv4Addr, Ipv4Network};
use crate::network::config::{default_gateway, default_subnet, SUBNET_PREFIX};
use crate::network::error::NetworkError;
use crate::network::model::Networks;
use crate::text::{signed_decimal, signed_decimal_text};

verus! {

/// A container that is running.
pub struct StartedContainer {
    pub id: String,
    pub ip: Option<IpAddr>,
}

/// The addresses to lease.
#[derive(Debug)]
pub struct LeaseRange {
    pub end_ip: Option<String>,
    pub start_ip: Option<String>,
}

/// A subnet of a network.
#[derive(Debug)]
pub struct Subnet {
    pub gateway: Option<IpAddr>,
    pub lease_range: Option<LeaseRange>,
    pub subnet: IpNetwork,
}

/// A static route of a network.
#[derive(Clone, Copy, Debug)]
pub struct StaticRoute {
    pub gateway: IpAddr,
    pub destination: IpNetwork,
    pub metric: Option<u32>,
}

/// A network as netavark takes it.
pub struct Network {
    pub dns_enabled: bool,
    pub driver: String,
    pub id: String,
    pub internal: bool,
    pub ipv6_enabled: bool,
    pub name: String,
    pub network_interface: Option<String>,
    pub options: Option<NameMap<String>>,
    pub ipam_options: Option<NameMap<String>>,
    pub subnets: Option<Vec<Subnet>>,
    pub routes: Option<Vec<StaticRoute>>,
    pub network_dns_servers: Option<Vec<IpAddr>>,
}

/// What holds for a container in one network.
pub struct PerNetworkOptions {
    pub aliases: Option<Vec<String>>,
    pub interface_name: String,
    pub static_ips: Option<Vec<IpAddr>>,
    pub static_mac: Option<String>,
    pub options: Option<NameMap<String>>,
}

/// Ports of the host that lead into a container.
#[derive(Debug)]
pub struct PortMapping {
    pub container_port: u16,
    pub host_ip: String,
    pub host_port: u16,
    pub protocol: String,
    pub range: u16,
}

/// Everything netavark is told about a container.
pub struct NetworkOptions {
    pub container_id: String,
    pub container_name: String,
    pub container_hostname: Option<String>,
    /// What holds for the container in each of its networks.
    pub networks: NameMap<PerNetworkOptions>,
    /// Those networks themselves.
    pub network_info: NameMap<Network>,
    pub port_mappings: Option<Vec<PortMapping>>,
    pub dns_servers: Option<Vec<IpAddr>>,
}

#[verifier::ext_equal]
pub struct LeaseRangeView {
    pub end_ip: Option<Seq<char>>,
    pub start_ip: Option<Seq<char>>,
}

#[verifier::ext_equal]
pub struct SubnetView {
    pub gateway: Option<IpAddr>,
    pub lease_range: Option<LeaseRangeView>,
    pub subnet: IpNetwork,
}

#[verifier::ext_equal]
pub struct NetworkView {
    pub dns_enabled: bool,
    pub driver: Seq<char>,
    pub id: Seq<char>,
    pub internal: bool,
    pub ipv6_enabled: bool,
    pub name: Seq<char>,
    pub network_interface: Option<Seq<char>>,
    pub options: Option<Map<Seq<char>, Seq<char>>>,
    pub ipam_options: Option<Map<Seq<char>, Seq<char>>>,
    pub subnets: Option<Seq<SubnetView>>,
    pub routes: Option<Seq<StaticRoute>>,
    pub network_dns_servers: Option<Seq<IpAddr>>,
}

#[verifier::ext_equal]
pub struct PerNetworkOptionsView {
    pub aliases: Option<Seq<Seq<char>>>,
    pub interface_name: Seq<char>,
    pub static_ips: Option<Seq<IpAddr>>,
    pub static_mac: Option<Seq<char>>,
    pub options: Option<Map<Seq<char>, Seq<char>>>,
}

#[verifier::ext_equal]
pub struct PortMappingView {
    pub container_port: u16,
    pub host_ip: Seq<char>,
    pub host_port: u16,
    pub protocol: Seq<char>,
    pub range: u16,
}

#[verifier::ext_equal]
pub struct NetworkOptionsView {
    pub container_id: Seq<char>,
    pub container_name: Seq<char>,
    pub container_hostname: Option<Seq<char>>,
    pub networks: Map<Seq<char>, PerNetworkOptionsView>,
    pub network_info: Map<Seq<char>, NetworkView>,
    pub port_mappings: Option<Seq<PortMappingView>>,
    pub dns_servers: Option<Seq<IpAddr>>,
}

impl DeepView for LeaseRange {
    type V = LeaseRangeView;

    open spec fn deep_view(&self) -> LeaseRangeView {
        LeaseRangeView { end_ip: self.end_ip.deep_view(), start_ip: self.start_ip.deep_view() }
    }
}

impl DeepView for Subnet {
    type V = SubnetView;

    open spec fn deep_view(&self) -> SubnetView {
        SubnetView {
            gateway: self.gateway,
            lease_range: self.lease_range.deep_view(),
            subnet: self.subnet,
        }
    }
}

impl DeepView for StaticRoute {
    type V = StaticRoute;

    open spec fn deep_view(&self) -> StaticRoute {
        *self
    }
}

impl DeepView for Network {
    type V = NetworkView;

    open spec fn deep_view(&self) -> NetworkView {
        NetworkView {
            dns_enabled: self.dns_enabled,
            driver: self.driver@,
            id: self.id@,
            internal: self.internal,
            ipv6_enabled: self.ipv6_enabled,
            name: self.name@,
            network_interface: self.network_interface.deep_view(),
            options: self.options.deep_view(),
            ipam_options: self.ipam_options.deep_view(),
            subnets: self.subnets.deep_view(),
            routes: self.routes.deep_view(),
            network_dns_servers: self.network_dns_servers.deep_view(),
        }
    }
}

impl DeepView for PerNetworkOptions {
    type V = PerNetworkOptionsView;

    open spec fn deep_view(&self) -> PerNetworkOptionsView {
        PerNetworkOptionsView {
            aliases: self.aliases.deep_view(),
            interface_name: self.interface_name@,
            static_ips: self.static_ips.deep_view(),
            static_mac: self.static_mac.deep_view(),
            options: self.options.deep_view(),
        }
    }
}

impl DeepView for PortMapping {
    type V = PortMappingView;

    open spec fn deep_view(&self) -> PortMappingView {
        PortMappingView {
            container_port: self.container_port,
            host_ip: self.host_ip@,
            host_port: self.host_port,
            protocol: self.protocol@,
            range: self.range,
        }
    }
}

impl DeepView for NetworkOptions {
    type V = NetworkOptionsView;

    open spec fn deep_view(&self) -> NetworkOptionsView {
        NetworkOptionsView {
            container_id: self.container_id@,
            container_name: self.container_name@,
            container_hostname: self.container_hostname.deep_view(),
            networks: self.networks@,
            network_info: self.network_info@,
            port_mappings: self.port_mappings.deep_view(),
            dns_servers: self.dns_servers.deep_view(),
        }
    }
}

/// Whether the container `id` belongs to the service in place `i` of `network`.
pub open spec fn runs_service(s: Networks, network: Seq<char>, id: Seq<char>, i: int) -> bool {
    0 <= i < s.members[network].len() && s.members[network][i].1.container_name == Some(id)
}

/// Whether the container `id` belongs to a service in `network`.
pub open spec fn in_network(s: Networks, network: Seq<char>, id: Seq<char>) -> bool {
    &&& s.defined.contains_key(network)
    &&& s.members.contains_key(network)
    &&& exists|i: int| runs_service(s, network, id, i)
}

/// The interface of a network, or the name used where none was allocated.
pub open spec fn interface_of(s: Networks, network: Seq<char>) -> Seq<char> {
    if s.interfaces.contains_key(network) {
        s.interfaces[network]
    } else {
        "vethcni0"@
    }
}

/// The container is known by its id and keeps its address.
pub open spec fn per_network_options(
    s: Networks,
    network: Seq<char>,
    id: Seq<char>,
    ip: Ipv4Addr,
) -> PerNetworkOptionsView {
    PerNetworkOptionsView {
        aliases: Some(seq![id]),
        interface_name: interface_of(s, network),
        static_ips: Some(seq![IpAddr::V4(ip)]),
        static_mac: None,
        options: None,
    }
}

/// An internal bridge network with DNS and without IPv6, on the default subnet.
pub open spec fn network_info(network: Seq<char>) -> NetworkView {
    NetworkView {
        dns_enabled: true,
        driver: "bridge"@,
        id: ""@,
        internal: true,
        ipv6_enabled: false,
        name: network,
        network_interface: None,
        options: None,
        ipam_options: None,
        subnets: Some(
            seq![
                SubnetView {
                    gateway: Some(IpAddr::V4(default_gateway())),
                    lease_range: None,
                    subnet: IpNetwork::V4(
                        Ipv4Network { addr: default_subnet(), prefix: SUBNET_PREFIX },
                    ),
                },
            ],
        ),
        routes: None,
        network_dns_servers: Some(Seq::empty()),
    }
}

/// The container `id` with the address `ip` in each network that its service is in.
pub open spec fn options_for(s: Networks, id: Seq<char>, ip: Ipv4Addr) -> NetworkOptionsView {
    NetworkOptionsView {
        container_id: id,
        container_name: id,
        container_hostname: None,
        networks: Map::new(
            |n: Seq<char>| in_network(s, n, id),
            |n: Seq<char>| per_network_options(s, n, id, ip),
        ),
        network_info: Map::new(
            |n: Seq<char>| in_network(s, n, id),
            |n: Seq<char>| network_info(n),
        ),
        port_mappings: None,
        dns_servers: None,
    }
}

pub(crate) fn describe_member(id: &String, interface: String, ip: IpAddr) -> (r: PerNetworkOptions)
    ensures
        r.deep_view() == (PerNetworkOptionsView {
            aliases: Some(seq![id@]),
            interface_name: interface@,
            static_ips: Some(seq![ip]),
            static_mac: None,
            options: None,
        }),
{
    let mut aliases: Vec<String> = Vec::new();
    aliases.push(id.clone());
    let mut static_ips: Vec<IpAddr> = Vec::new();
    static_ips.push(ip);
    assert(aliases.deep_view() =~= seq![id@]);
    assert(static_ips.deep_view() =~= seq![ip]);
    PerNetworkOptions {
        aliases: Some(aliases),
        interface_name: interface,
        static_ips: Some(static_ips),
        static_mac: None,
        options: None,
    }
}

pub(crate) fn describe_network(name: &String) -> (r: Network)
    ensures
        r.deep_view() == network_info(name@),
{
    let mut subnets: Vec<Subnet> = Vec::new();
    subnets.push(
        Subnet {
            gateway: Some(IpAddr::V4(Ipv4Addr(172, 17, 0, 1))),
            lease_range: None,
            subnet: ip_net(Ipv4Addr(172, 17, 0, 0), SUBNET_PREFIX).unwrap(),
        },
    );
    let dns_servers: Vec<IpAddr> = Vec::new();
    assert(dns_servers.deep_view() =~= Seq::<IpAddr>::empty());
    assert(subnets.deep_view() =~= network_info(name@).subnets->0);
    Network {
        dns_enabled: true,
        driver: "bridge".to_string(),
        id: "".to_string(),
        internal: true,
        ipv6_enabled: false,
        name: name.clone(),
        network_interface: None,
        options: None,
        ipam_options: None,
        subnets: Some(subnets),
        routes: None,
        network_dns_servers: Some(dns_servers),
    }
}

/// Where the network namespace of the process `pid` is.
pub open spec fn netns_path_of(pid: int) -> Seq<char> {
    "/proc/"@ + signed_decimal(pid) + "/ns/net"@
}

/// Where the network namespace of a container is, which is known once the container has a
/// process.
pub fn netns_path(id: &str, pid: Option<i32>) -> (r: Result<String, NetworkError>)
    ensures
        match pid {
            Some(pid) => {
                &&& r matches Ok(path)
                &&& path@ == netns_path_of(pid as int)
                &&& path@ == "/proc/"@ + signed_decimal(pid as int) + "/ns/net"@
            },
            None => r matches Err(NetworkError::NoPid { container }) && container@ == id@,
        },
{
    match pid {
        Some(pid) => Ok(
            "/proc/".to_string().concat(signed_decimal_text(pid).as_str()).concat("/ns/net"),
        ),
        None => Err(NetworkError::NoPid { container: id.to_string() }),
    }
}

/// The namespace at `path`, provided that it is `present`.
pub fn require_netns(id: &str, path: String, present: bool) -> (r: Result<String, NetworkError>)
    ensures
        if present {
            r matches Ok(p) && p@ == path@
        } else {
            r matches Err(NetworkError::NoNetns { container, path: p }) && container@ == id@ && p@
                == path@
        },
{
    if present {
        Ok(path)
    } else {
        Err(NetworkError::NoNetns { container: id.to_string(), path })
    }
}

/// The name of the directory, below the one for temporary files, that netavark's input is
/// written to.
pub const NETAVARK_INPUT_DIR: &'static str = "rkl-netavark";

/// The name of the file that holds netavark's input for a container.
pub fn netavark_input_file(id: &str) -> (r: String)
    ensures
        r@ == id@ + ".network.json"@,
{
    id.to_string().concat(".network.json")
}

/// Netavark is told of a container in a network exactly if the network is defined and lists a
/// service whose container has that very name. It is told so in both places.
pub proof fn only_own_networks_are_told(s: Networks, id: Seq<char>, ip: Ipv4Addr, n: Seq<char>)
    ensures
        options_for(s, id, ip).networks.contains_key(n) <==> s.defined.contains_key(n)
            && s.members.contains_key(n) && exists|i: int|
            0 <= i < s.members[n].len() && (#[trigger] s.members[n][i]).1.container_name == Some(id),
        options_for(s, id, ip).network_info.contains_key(n) <==> s.defined.contains_key(n)
            && s.members.contains_key(n) && exists|i: int|
            0 <= i < s.members[n].len() && (#[trigger] s.members[n][i]).1.container_name == Some(id),
{
    if s.defined.contains_key(n) && s.members.contains_key(n) {
        if in_network(s, n, id) {
            let i = choose|i: int| runs_service(s, n, id, i);
            assert(s.members[n][i].1.container_name == Some(id));
        }
        if exists|i: int|
            0 <= i < s.members[n].len() && (#[trigger] s.members[n][i]).1.container_name == Some(
                id,
            ) {
            let i = choose|i: int|
                0 <= i < s.members[n].len() && (#[trigger] s.members[n][i]).1.container_name
                    == Some(id);
            assert(runs_service(s, n, id, i));
        }
    }
}

/// Whatever the container, its address and the network: the container is known by its id, has
/// its id for its only alias and its address for its only address, and sits on the interface
/// allocated for the network or else on `vethcni0`. The network is told of as an internal bridge
/// of that name with DNS and without IPv6, on 172.17.0.0/16 behind 172.17.0.1. Nothing else is
/// set.
pub proof fn what_is_told(s: Networks, id: Seq<char>, ip: Ipv4Addr, n: Seq<char>)
    ensures
        ({
            let o = options_for(s, id, ip);
            &&& o.container_id == id && o.container_name == id
            &&& o.container_hostname == None::<Seq<char>>
            &&& o.port_mappings == None::<Seq<PortMappingView>>
            &&& o.dns_servers == None::<Seq<IpAddr>>
        }),
        options_for(s, id, ip).networks.contains_key(n) ==> ({
            let o = options_for(s, id, ip).networks[n];
            &&& o.aliases == Some(seq![id])
            &&& o.static_ips == Some(seq![IpAddr::V4(ip)])
            &&& o.interface_name == (if s.interfaces.contains_key(n) {
                s.interfaces[n]
            } else {
                "vethcni0"@
            })
            &&& o.static_mac == None::<Seq<char>>
            &&& o.options == None::<Map<Seq<char>, Seq<char>>>
        }),
        options_for(s, id, ip).network_info.contains_key(n) ==> ({
            let o = options_for(s, id, ip).network_info[n];
            let subnet = (o.subnets->0)[0];
            &&& o.name == n && o.driver == "bridge"@ && o.id == ""@
            &&& o.dns_enabled && o.internal && !o.ipv6_enabled
            &&& o.network_interface == None::<Seq<char>>
            &&& o.options == None::<Map<Seq<char>, Seq<char>>>
            &&& o.ipam_options == None::<Map<Seq<char>, Seq<char>>>
            &&& o.routes == None::<Seq<StaticRoute>>
            &&& o.network_dns_servers is Some && (o.network_dns_servers->0).len() == 0
            &&& o.subnets is Some && (o.subnets->0).len() == 1
            &&& subnet.gateway == Some(IpAddr::V4(Ipv4Addr(172, 17, 0, 1)))
            &&& subnet.lease_range == None::<LeaseRangeView>
            &&& subnet.subnet == IpNetwork::V4(
                Ipv4Network { addr: Ipv4Addr(172, 17, 0, 0), prefix: 16 },
            )
        }),
{
}

/// What netavark is told stands for shows all of it.
pub proof fn options_are_shown_whole(o: NetworkOptions, p: PerNetworkOptions, n: Network)
    ensures
        o.deep_view().container_id == o.container_id@,
        o.deep_view().container_name == o.container_name@,
        o.deep_view().container_hostname is Some <==> o.container_hostname is Some,
        o.deep_view().networks == o.networks@ && o.deep_view().network_info == o.network_info@,
        o.deep_view().port_mappings is Some <==> o.port_mappings is Some,
        o.deep_view().dns_servers is Some <==> o.dns_servers is Some,
        p.deep_view().interface_name == p.interface_name@,
        p.deep_view().aliases is Some <==> p.aliases is Some,
        p.aliases is Some ==> (p.deep_view().aliases->0).len() == (p.aliases->0)@.len(),
        forall|i: int|
            p.aliases is Some && 0 <= i < (p.aliases->0)@.len()
                ==> #[trigger] (p.deep_view().aliases->0)[i] == (p.aliases->0)@[i]@,
        p.deep_view().static_ips is Some <==> p.static_ips is Some,
        p.static_ips is Some ==> p.deep_view().static_ips->0 == (p.static_ips->0)@,
        p.deep_view().static_mac is Some <==> p.static_mac is Some,
        p.deep_view().options is Some <==> p.options is Some,
        n.deep_view().dns_enabled == n.dns_enabled && n.deep_view().internal == n.internal,
        n.deep_view().ipv6_enabled == n.ipv6_enabled && n.deep_view().driver == n.driver@,
        n.deep_view().id == n.id@ && n.deep_view().name == n.name@,
        n.deep_view().network_interface is Some <==> n.network_interface is Some,
        n.deep_view().options is Some <==> n.options is Some,
        n.deep_view().ipam_options is Some <==> n.ipam_options is Some,
        n.deep_view().routes is Some <==> n.routes is Some,
        n.deep_view().network_dns_servers is Some <==> n.network_dns_servers is Some,
        n.network_dns_servers is Some ==> n.deep_view().network_dns_servers->0
            == (n.network_dns_servers->0)@,
        n.deep_view().subnets is Some <==> n.subnets is Some,
        n.subnets is Some ==> (n.deep_view().subnets->0).len() == (n.subnets->0)@.len(),
        forall|i: int|
            n.subnets is Some && 0 <= i < (n.subnets->0)@.len() ==> ({
                let shown = #[trigger] (n.deep_view().subnets->0)[i];
                let subnet = (n.subnets->0)@[i];
                &&& shown.gateway == subnet.gateway && shown.subnet == subnet.subnet
                &&& shown.lease_range is Some <==> subnet.lease_range is Some
            }),
{
    if p.static_ips is Some {
        assert((p.static_ips->0).deep_view() =~= (p.static_ips->0)@);
    }
    if n.network_dns_servers is Some {
        assert((n.network_dns_servers->0).deep_view() =~= (n.network_dns_servers->0)@);
    }
}

/// Where netavark's input goes below the directory for temporary files.
pub proof fn place_of_the_input()
    ensures
        NETAVARK_INPUT_DIR@ == "rkl-netavark"@,
{
}

} // verus!
