//! The configuration of a bridge network, as the CNI bridge plugin reads it.
use vstd::prelude::*;

use crate::network::addr::{ipv4_network, IpAddr, IpNetwork, Ipv4Addr, Ipv4Network};

verus! {

pub const CNI_VERSION: &'static str = "1.0.0";

pub const STD_CONF_PATH: &'static str = "/etc/cni/net.d";

pub const BRIDGE_PLUGIN_NAME: &'static str = "libbridge";

pub const BRIDGE_CONF: &'static str = "rkl-standalone-bridge.conf";

/// The name of the bridge interface where none is given.
pub const DEFAULT_BRIDGE: &'static str = "cni0";

/// The name of the address management plugin.
pub const IPAM_PLUGIN_NAME: &'static str = "libipam";

/// The length of the prefix of every subnet that is configured here.
pub const SUBNET_PREFIX: u8 = 16;

/// 172.17.0.0, the subnet for container management.
pub open spec fn default_subnet() -> Ipv4Addr {
    Ipv4Addr(172, 17, 0, 0)
}

/// 172.17.0.1, the gateway of that subnet.
pub open spec fn default_gateway() -> Ipv4Addr {
    Ipv4Addr(172, 17, 0, 1)
}

/// A range of addresses inside a subnet.
#[derive(Clone, Copy, Debug)]
pub struct IpRange {
    pub subnet: IpNetwork,
    /// The first usable address.
    pub range_start: Option<IpAddr>,
    /// The last usable address.
    pub range_end: Option<IpAddr>,
    pub gateway: Option<IpAddr>,
}

/// Ranges that belong together.
pub type RangeSet = Vec<IpRange>;

/// A route to announce to the container.
#[derive(Clone, Copy, Debug)]
pub struct Route {
    pub dst: IpNetwork,
    pub gw: Option<IpAddr>,
}

/// What the address management plugin is told.
#[derive(Debug)]
pub struct IPAMConfig {
    pub type_field: String,
    pub name: Option<String>,
    pub routes: Option<Vec<Route>>,
    pub resolv_conf: Option<String>,
    pub data_dir: Option<String>,
    pub ranges: Vec<RangeSet>,
    pub ip_args: Vec<IpAddr>,
}

#[derive(Debug)]
pub struct CliNetworkConfig {
    /// The CNI version, 1.0.0 by default.
    pub cni_version: String,
    /// The `type` of the plugin.
    pub plugin: String,
    /// The name of the network.
    pub name: String,
    /// The name of the bridge interface, `cni0` by default.
    pub bridge: String,
    /// Whether the network is the container's default gateway.
    pub is_default_gateway: Option<bool>,
    /// Whether the bridge acts as a gateway.
    pub is_gateway: Option<bool>,
    /// The maximum transmission unit of the bridge interface.
    pub mtu: Option<u32>,
    /// Whether spoofed MAC addresses are refused.
    pub mac_spoof_check: Option<bool>,
    /// Address management.
    pub ipam: Option<IPAMConfig>,
    pub hairpin_mode: Option<bool>,
    /// The VLAN id.
    pub vlan: Option<u16>,
    /// The ids of a VLAN trunk.
    pub vlan_trunk: Option<Vec<u16>>,
}

/// What an `IPAMConfig` stands for.
pub struct IpamView {
    pub type_field: Seq<char>,
    pub name: Option<Seq<char>>,
    pub routes: Option<Seq<Route>>,
    pub resolv_conf: Option<Seq<char>>,
    pub data_dir: Option<Seq<char>>,
    pub ranges: Seq<Seq<IpRange>>,
    pub ip_args: Seq<IpAddr>,
}

/// What a `CliNetworkConfig` stands for.
pub struct CliNetworkConfigView {
    pub cni_version: Seq<char>,
    pub plugin: Seq<char>,
    pub name: Seq<char>,
    pub bridge: Seq<char>,
    pub is_default_gateway: Option<bool>,
    pub is_gateway: Option<bool>,
    pub mtu: Option<u32>,
    pub mac_spoof_check: Option<bool>,
    pub ipam: Option<IpamView>,
    pub hairpin_mode: Option<bool>,
    pub vlan: Option<u16>,
    pub vlan_trunk: Option<Seq<u16>>,
}

impl DeepView for IpRange {
    type V = IpRange;

    open spec fn deep_view(&self) -> IpRange {
        *self
    }
}

impl DeepView for Route {
    type V = Route;

    open spec fn deep_view(&self) -> Route {
        *self
    }
}

impl DeepView for IPAMConfig {
    type V = IpamView;

    open spec fn deep_view(&self) -> IpamView {
        IpamView {
            type_field: self.type_field@,
            name: self.name.deep_view(),
            routes: self.routes.deep_view(),
            resolv_conf: self.resolv_conf.deep_view(),
            data_dir: self.data_dir.deep_view(),
            ranges: self.ranges.deep_view(),
            ip_args: self.ip_args.deep_view(),
        }
    }
}

impl DeepView for CliNetworkConfig {
    type V = CliNetworkConfigView;

    open spec fn deep_view(&self) -> CliNetworkConfigView {
        CliNetworkConfigView {
            cni_version: self.cni_version@,
            plugin: self.plugin@,
            name: self.name@,
            bridge: self.bridge@,
            is_default_gateway: self.is_default_gateway,
            is_gateway: self.is_gateway,
            mtu: self.mtu,
            mac_spoof_check: self.mac_spoof_check,
            ipam: self.ipam.deep_view(),
            hairpin_mode: self.hairpin_mode,
            vlan: self.vlan,
            vlan_trunk: self.vlan_trunk.deep_view(),
        }
    }
}

/// Address management with one range: the whole of `subnet`/16 behind `gateway`.
pub open spec fn single_range_ipam(subnet: Ipv4Addr, gateway: Ipv4Addr) -> IpamView {
    IpamView {
        type_field: IPAM_PLUGIN_NAME@,
        name: None,
        routes: None,
        resolv_conf: None,
        data_dir: None,
        ranges: seq![
            seq![
                IpRange {
                    subnet: IpNetwork::V4(Ipv4Network { addr: subnet, prefix: SUBNET_PREFIX }),
                    range_start: None,
                    range_end: None,
                    gateway: Some(IpAddr::V4(gateway)),
                },
            ],
        ],
        ip_args: Seq::empty(),
    }
}

/// The bridge configuration for a network: gateway mode, an MTU of 1500, addresses out of one
/// subnet, and everything else left to the plugin.
pub open spec fn bridge_config(
    name: Seq<char>,
    bridge: Seq<char>,
    subnet: Ipv4Addr,
    gateway: Ipv4Addr,
) -> CliNetworkConfigView {
    CliNetworkConfigView {
        cni_version: CNI_VERSION@,
        plugin: BRIDGE_PLUGIN_NAME@,
        name,
        bridge,
        is_default_gateway: None,
        is_gateway: Some(true),
        mtu: Some(1500),
        mac_spoof_check: None,
        ipam: Some(single_range_ipam(subnet, gateway)),
        hairpin_mode: None,
        vlan: None,
        vlan_trunk: None,
    }
}

fn single_range(subnet: Ipv4Addr, gateway: Ipv4Addr) -> (r: IPAMConfig)
    ensures
        r.deep_view() == single_range_ipam(subnet, gateway),
{
    let range = IpRange {
        subnet: IpNetwork::V4(ipv4_network(subnet, SUBNET_PREFIX).unwrap()),
        range_start: None,
        range_end: None,
        gateway: Some(IpAddr::V4(gateway)),
    };
    let mut set: RangeSet = Vec::new();
    set.push(range);
    let mut ranges: Vec<RangeSet> = Vec::new();
    ranges.push(set);
    let r = IPAMConfig {
        type_field: IPAM_PLUGIN_NAME.to_string(),
        name: None,
        routes: None,
        resolv_conf: None,
        data_dir: None,
        ranges,
        ip_args: Vec::new(),
    };
    proof {
        let want = single_range_ipam(subnet, gateway);
        assert(r.ranges.deep_view()[0] =~= want.ranges[0]);
        assert(r.ranges.deep_view() =~= want.ranges);
        assert(r.ip_args.deep_view() =~= want.ip_args);
    }
    r
}

impl CliNetworkConfig {
    /// The default configuration for the network `network_name` on the interface `bridge`.
    pub fn from_name_bridge(network_name: &str, bridge: &str) -> (r: Self)
        ensures
            r.deep_view() == bridge_config(
                network_name@,
                bridge@,
                default_subnet(),
                default_gateway(),
            ),
    {
        let base = CliNetworkConfig::default();
        CliNetworkConfig { bridge: bridge.to_string(), name: network_name.to_string(), ..base }
    }

    /// The configuration for a network with a subnet and a gateway of its own; the prefix of
    /// the subnet is 16 bits long.
    pub fn from_subnet_gateway(
        network_name: &str,
        bridge: &str,
        subnet_addr: Ipv4Addr,
        gateway_addr: Ipv4Addr,
    ) -> (r: Self)
        ensures
            r.deep_view() == bridge_config(network_name@, bridge@, subnet_addr, gateway_addr),
    {
        let base = CliNetworkConfig::default();
        CliNetworkConfig {
            bridge: bridge.to_string(),
            name: network_name.to_string(),
            ipam: Some(single_range(subnet_addr, gateway_addr)),
            ..base
        }
    }
}

impl Default for CliNetworkConfig {
    fn default() -> (r: Self)
        ensures
            r.deep_view() == bridge_config(
                Seq::empty(),
                DEFAULT_BRIDGE@,
                default_subnet(),
                default_gateway(),
            ),
    {
        let subnet_addr = Ipv4Addr(172, 17, 0, 0);
        let gateway_addr = Ipv4Addr(172, 17, 0, 1);
        CliNetworkConfig {
            cni_version: CNI_VERSION.to_string(),
            plugin: BRIDGE_PLUGIN_NAME.to_string(),
            name: String::new(),
            bridge: DEFAULT_BRIDGE.to_string(),
            is_default_gateway: None,
            is_gateway: Some(true),
            mtu: Some(1500),
            mac_spoof_check: None,
            hairpin_mode: None,
            vlan: None,
            vlan_trunk: None,
            ipam: Some(single_range(subnet_addr, gateway_addr)),
        }
    }
}

/// Whatever the network, its bridge, its subnet and its gateway: the configuration is of CNI
/// version 1.0.0, for the plugin `libbridge`, in gateway mode, with an MTU of 1500; it keeps the
/// name and the bridge that were given and sets nothing else but the addresses. Those are
/// managed by `libipam`, out of one range: the subnet with a prefix of 16 bits, behind the
/// gateway, without a first or last address.
pub proof fn every_configuration_is_a_gateway(
    name: Seq<char>,
    bridge: Seq<char>,
    subnet: Ipv4Addr,
    gateway: Ipv4Addr,
)
    ensures
        ({
            let c = bridge_config(name, bridge, subnet, gateway);
            &&& c.name == name && c.bridge == bridge
            &&& c.cni_version == "1.0.0"@ && c.plugin == "libbridge"@
            &&& c.is_gateway == Some(true) && c.mtu == Some(1500u32)
            &&& c.is_default_gateway == None::<bool> && c.mac_spoof_check == None::<bool>
            &&& c.hairpin_mode == None::<bool> && c.vlan == None::<u16>
            &&& c.vlan_trunk == None::<Seq<u16>>
            &&& c.ipam is Some
        }),
        ({
            let ipam = bridge_config(name, bridge, subnet, gateway).ipam->0;
            let range = ipam.ranges[0][0];
            &&& ipam.type_field == "libipam"@
            &&& ipam.name == None::<Seq<char>> && ipam.routes == None::<Seq<Route>>
            &&& ipam.resolv_conf == None::<Seq<char>> && ipam.data_dir == None::<Seq<char>>
            &&& ipam.ip_args.len() == 0
            &&& ipam.ranges.len() == 1 && ipam.ranges[0].len() == 1
            &&& range.subnet == IpNetwork::V4(Ipv4Network { addr: subnet, prefix: 16 })
            &&& range.gateway == Some(IpAddr::V4(gateway))
            &&& range.range_start == None::<IpAddr> && range.range_end == None::<IpAddr>
        }),
{
}

/// The subnet and the gateway for container management are 172.17.0.0 and 172.17.0.1.
pub proof fn default_addresses()
    ensures
        default_subnet().0 == 172 && default_subnet().1 == 17 && default_subnet().2 == 0
            && default_subnet().3 == 0,
        default_gateway().0 == 172 && default_gateway().1 == 17 && default_gateway().2 == 0
            && default_gateway().3 == 1,
{
}

/// What a configuration stands for shows all of it.
pub proof fn configuration_is_shown_whole(c: CliNetworkConfig)
    ensures
        c.deep_view().cni_version == c.cni_version@ && c.deep_view().plugin == c.plugin@,
        c.deep_view().name == c.name@ && c.deep_view().bridge == c.bridge@,
        c.deep_view().is_default_gateway == c.is_default_gateway,
        c.deep_view().is_gateway == c.is_gateway && c.deep_view().mtu == c.mtu,
        c.deep_view().mac_spoof_check == c.mac_spoof_check,
        c.deep_view().hairpin_mode == c.hairpin_mode && c.deep_view().vlan == c.vlan,
        c.deep_view().vlan_trunk is Some <==> c.vlan_trunk is Some,
        c.vlan_trunk is Some ==> c.deep_view().vlan_trunk->0 == (c.vlan_trunk->0)@,
        c.deep_view().ipam is Some <==> c.ipam is Some,
        c.ipam is Some ==> ({
            let shown = c.deep_view().ipam->0;
            let ipam = c.ipam->0;
            &&& shown.type_field == ipam.type_field@
            &&& shown.name is Some <==> ipam.name is Some
            &&& ipam.name is Some ==> shown.name->0 == (ipam.name->0)@
            &&& shown.resolv_conf is Some <==> ipam.resolv_conf is Some
            &&& ipam.resolv_conf is Some ==> shown.resolv_conf->0 == (ipam.resolv_conf->0)@
            &&& shown.data_dir is Some <==> ipam.data_dir is Some
            &&& ipam.data_dir is Some ==> shown.data_dir->0 == (ipam.data_dir->0)@
            &&& shown.routes is Some <==> ipam.routes is Some
            &&& ipam.routes is Some ==> shown.routes->0 == (ipam.routes->0)@
            &&& shown.ip_args == ipam.ip_args@
            &&& shown.ranges.len() == ipam.ranges@.len()
            &&& forall|i: int|
                0 <= i < ipam.ranges@.len() ==> #[trigger] shown.ranges[i] == ipam.ranges@[i]@
        }),
{
    if c.vlan_trunk is Some {
        assert((c.vlan_trunk->0).deep_view() =~= (c.vlan_trunk->0)@);
    }
    if c.ipam is Some {
        let ipam = c.ipam->0;
        if ipam.routes is Some {
            assert((ipam.routes->0).deep_view() =~= (ipam.routes->0)@);
        }
        assert(ipam.ip_args.deep_view() =~= ipam.ip_args@);
        assert forall|i: int| 0 <= i < ipam.ranges@.len() implies #[trigger] ipam.ranges.deep_view()[i]
            == ipam.ranges@[i]@ by {
            assert(ipam.ranges@[i].deep_view() =~= ipam.ranges@[i]@);
        }
    }
}

} // verus!
