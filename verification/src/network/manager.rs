//! Which networks a compose project has, and which service is in which of them.
use vstd::prelude::*;
use vstd::string::*;

use crate::keymap::{order_lists_the_keys, Duplicate, KeyMap, NameMap};
use crate::network::compose::{ComposeSpec, NetworkDriver, NetworkSpec, ServiceSpec};
use crate::network::error::NetworkError;
use crate::network::model::{
    accepted, all_accepted, allocated, default_network, drivable, entered, entered_nothing,
    entered_push, first_refused, interface_name, is_bridged, joins, joins_of, joins_prefix, opened,
    validated, well_ordered, with_attachment, with_bridge, with_member, Networks,
};
use crate::network::addr::{IpAddr, Ipv4Addr};
use crate::network::config::{
    bridge_config, default_gateway, default_subnet, CliNetworkConfig, BRIDGE_CONF, STD_CONF_PATH,
};
use crate::network::setup::{
    describe_member, describe_network, in_network, network_info as info_of, options_for,
    per_network_options, runs_service, Network, NetworkOptions, PerNetworkOptions,
    StartedContainer,
};
use crate::paths::{join, joined};
use crate::text::decimal_text;

verus! {

pub struct NetworkManager {
    map: NameMap<NetworkSpec>,
    /// The bridge interface of a network.
    network_interface: NameMap<String>,
    /// The networks that a service names.
    service_mapping: NameMap<Vec<String>>,
    /// The services in a network.
    network_service: NameMap<Vec<(String, ServiceSpec)>>,
    /// Set where a compose file defines no networks, so that the default one is made.
    is_default: bool,
    project_name: String,
}

impl View for NetworkManager {
    type V = Networks;

    closed spec fn view(&self) -> Networks {
        Networks {
            project: self.project_name@,
            defined: self.map@,
            order: self.map.order(),
            interfaces: self.network_interface@,
            attachments: self.service_mapping@,
            members: self.network_service@,
            is_default: self.is_default,
        }
    }
}

impl ComposeSpec {
    /// The networks that the file defines, by name and in order.
    pub open spec fn defined(&self) -> Option<(Map<Seq<char>, NetworkSpec>, Seq<Seq<char>>)> {
        match self.networks {
            Some(n) => Some((n@, n.order())),
            None => None,
        }
    }
}

impl NetworkManager {
    /// A manager for the project `project_name`, without any network.
    pub fn new(project_name: String) -> (r: Self)
        ensures
            r@ == (Networks {
                project: project_name@,
                defined: Map::empty(),
                order: Seq::empty(),
                interfaces: Map::empty(),
                attachments: Map::empty(),
                members: Map::empty(),
                is_default: false,
            }),
            well_ordered(r@),
    {
        NetworkManager {
            map: KeyMap::new(),
            service_mapping: KeyMap::new(),
            is_default: false,
            network_service: KeyMap::new(),
            project_name,
            network_interface: KeyMap::new(),
        }
    }

    /// The services in each network.
    pub fn network_service_mapping(&self) -> (r: NameMap<Vec<(String, ServiceSpec)>>)
        ensures
            r@ == self@.members,
    {
        self.network_service.duplicate()
    }

    /// Takes in a compose file: its networks, then its services, then an interface for each
    /// bridged network. Where a service names a network that is not defined, the joins before
    /// it have been entered and nothing else has happened.
    pub fn handle(&mut self, spec: &ComposeSpec) -> (r: Result<(), NetworkError>)
        requires
            ({
                let s = opened(old(self)@, spec.defined());
                all_accepted(s, joins(spec.services.listed(), default_network(s.project)))
                    ==> drivable(validated(s, spec.services.listed()))
            }),
        ensures
            ({
                let s = opened(old(self)@, spec.defined());
                let js = joins(spec.services.listed(), default_network(s.project));
                match r {
                    Ok(_) => {
                        &&& all_accepted(s, js)
                        &&& final(self)@ == allocated(validated(s, spec.services.listed()))
                    },
                    Err(error) => {
                        exists|k: int| #[trigger]
                            first_refused(s, js, k) && final(self)@ == entered(s, js.take(k))
                                && error.reports_undefined(js[k].network)
                    },
                }
            }),
            well_ordered(final(self)@),
    {
        self.open(spec);
        let r = match self.validate(spec) {
            Ok(_) => {
                self.allocate_interface();
                Ok(())
            },
            Err(error) => Err(error),
        };
        proof {
            use_type_invariant(&self.map);
            order_lists_the_keys(self.map);
        }
        r
    }

    fn open(&mut self, spec: &ComposeSpec)
        ensures
            final(self)@ == opened(old(self)@, spec.defined()),
    {
        match &spec.networks {
            Some(networks) => {
                self.map = networks.duplicate();
            },
            None => {
                self.is_default = true;
            },
        }
    }

    fn default_name(&self) -> (r: String)
        ensures
            r@ == default_network(self@.project),
    {
        self.project_name.clone().concat("_default")
    }

    fn define_bridge(&mut self, network: String)
        ensures
            final(self)@ == with_bridge(old(self)@, network@),
    {
        self.map.insert(
            network,
            NetworkSpec { external: None, driver: Some(NetworkDriver::Bridge) },
        );
    }

    fn add_member(&mut self, network: &String, srv: &String, srv_spec: &ServiceSpec)
        ensures
            final(self)@ == with_member(old(self)@, network@, (srv@, srv_spec.deep_view())),
    {
        self.network_service.push_to(network.clone(), (srv.clone(), srv_spec.duplicate()));
    }

    fn add_attachment(&mut self, srv: &String, network: &String)
        ensures
            final(self)@ == with_attachment(old(self)@, srv@, network@),
    {
        self.service_mapping.push_to(srv.clone(), network.clone());
    }

    /// Enters every service into the networks that it joins.
    fn validate(&mut self, spec: &ComposeSpec) -> (r: Result<(), NetworkError>)
        ensures
            ({
                let s = old(self)@;
                let js = joins(spec.services.listed(), default_network(s.project));
                match r {
                    Ok(_) => {
                        &&& all_accepted(s, js)
                        &&& final(self)@ == validated(s, spec.services.listed())
                        &&& final(self).map.wf()
                    },
                    Err(error) => {
                        exists|k: int| #[trigger]
                            first_refused(s, js, k) && final(self)@ == entered(s, js.take(k))
                                && error.reports_undefined(js[k].network)
                    },
                }
            }),
    {
        let ghost s = self@;
        let ghost services = spec.services.listed();
        let ghost default = default_network(s.project);
        let ghost js = joins(services, default);
        let n: usize = spec.services.len();
        let mut i: usize = 0;
        proof {
            entered_nothing(s);
            assert(services.take(0) =~= Seq::empty());
            assert(js.take(0) =~= Seq::empty());
        }
        while i < n
            invariant
                i <= n,
                s == old(self)@,
                n == spec.services.order().len(),
                services == spec.services.listed(),
                default == default_network(s.project),
                js == joins(services, default),
                self@ == entered(s, joins(services.take(i as int), default)),
                forall|k: int|
                    0 <= k < joins(services.take(i as int), default).len() ==> #[trigger] accepted(
                        s,
                        js,
                        k,
                    ),
            decreases n - i,
        {
            let srv: &String = spec.services.key_at(i);
            let srv_spec: &ServiceSpec = spec.services.value_at(i);
            let ghost service = services[i as int];
            let ghost done = joins(services.take(i as int), default);
            let ghost own = joins_of(service, default);
            proof {
                assert(service == (srv@, srv_spec.deep_view()));
                joins_prefix(services, default, i as int);
                joins_prefix(services, default, i + 1);
                assert(done + own.take(0) =~= done);
            }
            if srv_spec.networks.len() == 0 {
                let network = self.default_name();
                self.add_member(&network, srv, srv_spec);
                self.define_bridge(network);
                proof {
                    entered_push(s, done, own[0]);
                    assert(done.push(own[0]) =~= done + own);
                    assert(js[done.len() as int] == (done + own)[done.len() as int]);
                    assert(accepted(s, js, done.len() as int));
                }
            } else {
                let m: usize = srv_spec.networks.len();
                let mut j: usize = 0;
                while j < m
                    invariant
                        j <= m,
                        s == old(self)@,
                        m == srv_spec.networks.len(),
                        m > 0,
                        n == spec.services.order().len(),
                        i < n,
                        services == spec.services.listed(),
                        default == default_network(s.project),
                        js == joins(services, default),
                        service == (srv@, srv_spec.deep_view()),
                        done == joins(services.take(i as int), default),
                        own == joins_of(service, default),
                        (done + own).is_prefix_of(js),
                        self@ == entered(s, done + own.take(j as int)),
                        forall|k: int|
                            0 <= k < done.len() + j ==> #[trigger] accepted(s, js, k),
                    decreases m - j,
                {
                    let network: &String = &srv_spec.networks[j];
                    let ghost at = done.len() + j;
                    proof {
                        assert(own.len() == m);
                        assert(own[j as int].network == srv_spec.networks.deep_view()[j as int]);
                        assert(js[at as int] == (done + own)[at as int]);
                        assert(js.take(at as int) =~= (done + own).take(at as int));
                        assert((done + own).take(at as int) =~= done + own.take(j as int));
                    }
                    if !self.map.contains_key(network) {
                        proof {
                            assert(network@ == js[at as int].network);
                            assert(!accepted(s, js, at as int));
                            assert(first_refused(s, js, at as int));
                        }
                        return Err(NetworkError::NotDefined { network: network.clone() });
                    }
                    assert(accepted(s, js, at as int));
                    self.add_attachment(srv, network);
                    self.add_member(network, srv, srv_spec);
                    proof {
                        entered_push(s, js.take(at as int), own[j as int]);
                        assert(js.take(at as int).push(own[j as int]) =~= done + own.take(j + 1));
                    }
                    j = j + 1;
                }
                proof {
                    assert(own.take(m as int) =~= own);
                }
            }
            i = i + 1;
        }
        assert(services.take(n as int) =~= services);
        if self.is_default {
            let network = self.default_name();
            let all = list_services(&spec.services);
            self.network_service.insert(network.clone(), all);
            self.define_bridge(network);
        }
        proof {
            use_type_invariant(&self.map);
        }
        Ok(())
    }

    /// Gives each bridged network an interface.
    fn allocate_interface(&mut self)
        requires
            drivable(old(self)@),
        ensures
            final(self)@ == allocated(old(self)@),
    {
        let ghost s = self@;
        let n: usize = self.map.len();
        let mut i: usize = 0;
        proof {
            order_lists_the_keys(self.map);
        }
        while i < n
            invariant
                i <= n,
                n == s.order.len(),
                drivable(s),
                s.order.no_duplicates(),
                forall|x: Seq<char>| s.order.contains(x) <==> #[trigger] s.defined.contains_key(x),
                self@ == (Networks { interfaces: self@.interfaces, ..s }),
                forall|x: Seq<char>| #[trigger]
                    self@.interfaces.contains_key(x) <==> s.interfaces.contains_key(x)
                        || is_bridged(s, x) && s.order.index_of(x) < i,
                forall|x: Seq<char>| #[trigger]
                    self@.interfaces.contains_key(x) ==> self@.interfaces[x] == (if is_bridged(s, x)
                        && s.order.index_of(x) < i {
                        interface_name(s.order.index_of(x))
                    } else {
                        s.interfaces[x]
                    }),
            decreases n - i,
        {
            let name: String = self.map.key_at(i).clone();
            let driver: Option<NetworkDriver> = self.map.value_at(i).driver;
            assert(s.order[i as int] == name@);
            assert(s.order.index_of(name@) == i);
            assert(s.defined[name@].driver == driver);
            assert forall|x: Seq<char>| is_bridged(s, x) && s.order.index_of(x) == i implies x
                == name@ by {
                assert(s.order.contains(x));
            }
            if let Some(NetworkDriver::Bridge) = driver {
                let number: u64 = i as u64 + 1;
                let interface: String = "rCompose".to_string().concat(
                    decimal_text(number).as_str(),
                );
                self.network_interface.insert(name, interface);
            }
            i = i + 1;
        }
        proof {
            assert forall|x: Seq<char>| is_bridged(s, x) implies s.order.index_of(x) < n by {
                assert(s.order.contains(x));
            }
            assert(self@.interfaces =~= allocated(s).interfaces);
        }
    }

    /// Whether each network that would be left to allocate an interface for has a driver for
    /// which that can be done.
    pub fn supports(&self, spec: &ComposeSpec) -> (r: bool)
        ensures
            r == ({
                let s = opened(self@, spec.defined());
                all_accepted(s, joins(spec.services.listed(), default_network(s.project)))
                    ==> drivable(validated(s, spec.services.listed()))
            }),
    {
        let mut trial = NetworkManager {
            map: self.map.duplicate(),
            network_interface: self.network_interface.duplicate(),
            service_mapping: self.service_mapping.duplicate(),
            network_service: self.network_service.duplicate(),
            is_default: self.is_default,
            project_name: self.project_name.clone(),
        };
        trial.open(spec);
        match trial.validate(spec) {
            Ok(_) => trial.is_drivable(),
            Err(_) => true,
        }
    }

    fn is_drivable(&self) -> (r: bool)
        ensures
            r == drivable(self@),
    {
        let n: usize = self.map.len();
        let mut i: usize = 0;
        proof {
            order_lists_the_keys(self.map);
        }
        while i < n
            invariant
                i <= n,
                n == self.map.order().len(),
                forall|j: int|
                    0 <= j < i ==> self@.defined[#[trigger] self.map.order()[j]].driver != Some(
                        NetworkDriver::Overlay,
                    ) && self@.defined[self.map.order()[j]].driver != Some(NetworkDriver::Host),
            decreases n - i,
        {
            let driver: Option<NetworkDriver> = self.map.value_at(i).driver;
            let name: &String = self.map.key_at(i);
            match driver {
                Some(NetworkDriver::Overlay) | Some(NetworkDriver::Host) => {
                    assert(self@.defined.contains_key(name@));
                    return false;
                },
                _ => {},
            }
            i = i + 1;
        }
        proof {
            order_lists_the_keys(self.map);
            assert forall|x: Seq<char>| #[trigger] self@.defined.contains_key(x) implies {
                &&& self@.defined[x].driver != Some(NetworkDriver::Overlay)
                &&& self@.defined[x].driver != Some(NetworkDriver::Host)
            } by {
                let j = self.map.order().index_of(x);
                assert(self.map.order().contains(x));
                assert(self.map.order()[j] == x);
            }
        }
        true
    }

    /// The configuration file for the network `network_name`, which must have an interface.
    pub fn setup_network_conf(&self, network_name: &String) -> (r: Result<
        NetworkConfFile,
        NetworkError,
    >)
        ensures
            if self@.interfaces.contains_key(network_name@) {
                &&& r matches Ok(file)
                &&& file.path@ == joined(STD_CONF_PATH@, BRIDGE_CONF@)
                &&& file.conf.deep_view() == bridge_config(
                    network_name@,
                    self@.interfaces[network_name@],
                    default_subnet(),
                    default_gateway(),
                )
            } else {
                r matches Err(NetworkError::NoInterface { network }) && network@ == network_name@
            },
    {
        match self.network_interface.get(network_name) {
            Some(interface) => {
                let conf = CliNetworkConfig::from_subnet_gateway(
                    network_name.as_str(),
                    interface.as_str(),
                    Ipv4Addr(172, 17, 0, 0),
                    Ipv4Addr(172, 17, 0, 1),
                );
                Ok(NetworkConfFile { path: join(STD_CONF_PATH, BRIDGE_CONF), conf })
            },
            None => Err(NetworkError::NoInterface { network: network_name.clone() }),
        }
    }

    /// What netavark is to be told about a container of the service `srv_name` that has
    /// started: the container must have an IPv4 address, and is put into every network that
    /// lists its service.
    pub fn after_container_started(&self, srv_name: &str, runner: &StartedContainer) -> (r: Result<
        NetworkOptions,
        NetworkError,
    >)
        ensures
            match runner.ip {
                Some(IpAddr::V4(ip)) => {
                    r matches Ok(options) && options.deep_view() == options_for(
                        self@,
                        runner.id@,
                        ip,
                    )
                },
                Some(IpAddr::V6(_)) => r matches Err(NetworkError::UnsupportedIpv6),
                None => {
                    r matches Err(NetworkError::EmptyAddress { container }) && container@
                        == runner.id@
                },
            },
    {
        match runner.ip {
            Some(IpAddr::V4(ip)) => Ok(self.options(&runner.id, ip)),
            Some(IpAddr::V6(_)) => Err(NetworkError::UnsupportedIpv6),
            None => Err(NetworkError::EmptyAddress { container: runner.id.clone() }),
        }
    }

    /// Whether the container `id` belongs to a service in `network`.
    fn lists_container(&self, network: &String, id: &String) -> (r: bool)
        requires
            self@.defined.contains_key(network@),
        ensures
            r == in_network(self@, network@, id@),
    {
        match self.network_service.get(network) {
            Some(services) => {
                let n: usize = services.len();
                let mut i: usize = 0;
                while i < n
                    invariant
                        i <= n,
                        n == services.len(),
                        self@.defined.contains_key(network@),
                        self@.members.contains_key(network@),
                        services.deep_view() == self@.members[network@],
                        forall|j: int| 0 <= j < i ==> !runs_service(self@, network@, id@, j),
                    decreases n - i,
                {
                    assert(services.deep_view()[i as int] == services@[i as int].deep_view());
                    if let Some(container_name) = &services[i].1.container_name {
                        if *container_name == *id {
                            assert(runs_service(self@, network@, id@, i as int));
                            return true;
                        }
                    }
                    i = i + 1;
                }
                false
            },
            None => false,
        }
    }

    fn options(&self, id: &String, ip: Ipv4Addr) -> (r: NetworkOptions)
        ensures
            r.deep_view() == options_for(self@, id@, ip),
    {
        let ghost s = self@;
        let mut networks: NameMap<PerNetworkOptions> = KeyMap::new();
        let mut network_info: NameMap<Network> = KeyMap::new();
        let n: usize = self.map.len();
        let mut i: usize = 0;
        proof {
            order_lists_the_keys(self.map);
        }
        while i < n
            invariant
                i <= n,
                s == self@,
                n == s.order.len(),
                s.order.no_duplicates(),
                forall|x: Seq<char>| s.order.contains(x) <==> #[trigger] s.defined.contains_key(x),
                forall|x: Seq<char>| #[trigger]
                    networks@.contains_key(x) <==> in_network(s, x, id@) && s.order.index_of(x) < i,
                forall|x: Seq<char>| #[trigger]
                    networks@.contains_key(x) ==> networks@[x] == per_network_options(
                        s,
                        x,
                        id@,
                        ip,
                    ),
                forall|x: Seq<char>| #[trigger]
                    network_info@.contains_key(x) <==> in_network(s, x, id@) && s.order.index_of(x)
                        < i,
                forall|x: Seq<char>| #[trigger]
                    network_info@.contains_key(x) ==> network_info@[x] == info_of(x),
            decreases n - i,
        {
            let name: &String = self.map.key_at(i);
            assert(s.order[i as int] == name@);
            assert(s.order.index_of(name@) == i);
            assert forall|x: Seq<char>| in_network(s, x, id@) && s.order.index_of(x) == i implies x
                == name@ by {
                assert(s.order.contains(x));
            }
            if self.lists_container(name, id) {
                let interface: String = match self.network_interface.get(name) {
                    Some(interface) => interface.clone(),
                    None => "vethcni0".to_string(),
                };
                networks.insert(name.clone(), describe_member(id, interface, IpAddr::V4(ip)));
                network_info.insert(name.clone(), describe_network(name));
            }
            i = i + 1;
        }
        proof {
            assert forall|x: Seq<char>| in_network(s, x, id@) implies s.order.index_of(x) < n by {
                assert(s.order.contains(x));
            }
            assert(networks@ =~= options_for(s, id@, ip).networks);
            assert(network_info@ =~= options_for(s, id@, ip).network_info);
        }
        NetworkOptions {
            container_id: id.clone(),
            container_name: id.clone(),
            container_hostname: None,
            networks,
            network_info,
            port_mappings: None,
            dns_servers: None,
        }
    }
}

/// A configuration and the file that it belongs in.
pub struct NetworkConfFile {
    pub path: String,
    pub conf: CliNetworkConfig,
}

/// The services in order, each with its name.
fn list_services(services: &NameMap<ServiceSpec>) -> (r: Vec<(String, ServiceSpec)>)
    ensures
        r.deep_view() == services.listed(),
{
    let n: usize = services.len();
    let mut out: Vec<(String, ServiceSpec)> = Vec::new();
    let mut i: usize = 0;
    while i < n
        invariant
            i <= n,
            n == services.order().len(),
            out.len() == i,
            forall|j: int|
                0 <= j < i ==> #[trigger] out@[j].deep_view() == services.listed()[j],
        decreases n - i,
    {
        out.push((services.key_at(i).clone(), services.value_at(i).duplicate()));
        assert(out@[i as int].deep_view() == services.listed()[i as int]);
        i = i + 1;
    }
    assert(out.deep_view() =~= services.listed());
    out
}

} // verus!
