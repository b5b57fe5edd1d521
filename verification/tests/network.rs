use rkl::keymap::{KeyMap, NameMap};
use rkl::network::addr::{IpAddr, IpNetwork, Ipv4Addr, Ipv4Network};
use rkl::network::compose::{ComposeSpec, NetworkDriver, NetworkSpec, ServiceSpec};
use rkl::network::config::{
    CliNetworkConfig, BRIDGE_CONF, BRIDGE_PLUGIN_NAME, CNI_VERSION, STD_CONF_PATH,
};
use rkl::network::dns_client::{
    check_reply, connect_dns_socket_with_retry, frame_message, ConnectStep,
};
use rkl::network::error::NetworkError;
use rkl::network::host::{default_aardvark_bin, default_netavark_config_dir, Located, PidFile};
use rkl::network::manager::NetworkManager;
use rkl::network::setup::{netavark_input_file, netns_path, require_netns, StartedContainer};

const BRIDGE: NetworkSpec = NetworkSpec { external: None, driver: Some(NetworkDriver::Bridge) };

fn networks(list: &[(&str, NetworkSpec)]) -> NameMap<NetworkSpec> {
    let mut map: NameMap<NetworkSpec> = KeyMap::new();
    for (name, spec) in list {
        map.insert(name.to_string(), *spec);
    }
    map
}

fn services(list: &[(&str, &str, &[&str])]) -> NameMap<ServiceSpec> {
    let mut map: NameMap<ServiceSpec> = KeyMap::new();
    for (name, container, joined) in list {
        map.insert(
            name.to_string(),
            ServiceSpec {
                container_name: if container.is_empty() { None } else { Some(container.to_string()) },
                networks: joined.iter().map(|n| n.to_string()).collect(),
            },
        );
    }
    map
}

fn members(manager: &NetworkManager, network: &str) -> Vec<String> {
    match manager.network_service_mapping().get(&network.to_string()) {
        Some(list) => list.iter().map(|s| s.0.clone()).collect(),
        None => Vec::new(),
    }
}

fn bridge_of(manager: &NetworkManager, network: &str) -> Option<String> {
    match manager.setup_network_conf(&network.to_string()) {
        Ok(file) => Some(file.conf.bridge),
        Err(_) => None,
    }
}

fn started(id: &str, ip: Option<IpAddr>) -> StartedContainer {
    StartedContainer { id: id.to_string(), ip }
}

#[test]
fn a_new_manager_has_no_networks() {
    let manager = NetworkManager::new("p".to_string());
    assert_eq!(manager.network_service_mapping().len(), 0);
    assert!(bridge_of(&manager, "p_default").is_none());
}

#[test]
fn without_networks_every_service_is_in_the_default_one() {
    let spec = ComposeSpec {
        networks: None,
        services: services(&[("web", "", &[]), ("db", "", &[])]),
    };
    let mut manager = NetworkManager::new("shop".to_string());
    assert!(manager.supports(&spec));
    assert!(manager.handle(&spec).is_ok());
    assert_eq!(manager.network_service_mapping().len(), 1);
    assert_eq!(members(&manager, "shop_default"), vec!["web", "db"]);
    assert_eq!(bridge_of(&manager, "shop_default"), Some("rCompose1".to_string()));
}

#[test]
fn without_networks_the_default_one_is_made_even_for_no_service() {
    let spec = ComposeSpec { networks: None, services: services(&[]) };
    let mut manager = NetworkManager::new("shop".to_string());
    assert!(manager.supports(&spec));
    assert!(manager.handle(&spec).is_ok());
    assert_eq!(manager.network_service_mapping().len(), 1);
    assert!(members(&manager, "shop_default").is_empty());
    assert_eq!(bridge_of(&manager, "shop_default"), Some("rCompose1".to_string()));
}

#[test]
fn services_are_members_of_the_networks_they_name() {
    let spec = ComposeSpec {
        networks: Some(networks(&[("front", BRIDGE), ("back", BRIDGE)])),
        services: services(&[
            ("web", "", &["front", "back"]),
            ("db", "", &["back"]),
            ("cron", "", &[]),
        ]),
    };
    let mut manager = NetworkManager::new("shop".to_string());
    assert!(manager.supports(&spec));
    assert!(manager.handle(&spec).is_ok());
    assert_eq!(members(&manager, "front"), vec!["web"]);
    assert_eq!(members(&manager, "back"), vec!["web", "db"]);
    assert_eq!(members(&manager, "shop_default"), vec!["cron"]);
    assert_eq!(bridge_of(&manager, "front"), Some("rCompose1".to_string()));
    assert_eq!(bridge_of(&manager, "back"), Some("rCompose2".to_string()));
    assert_eq!(bridge_of(&manager, "shop_default"), Some("rCompose3".to_string()));
}

#[test]
fn a_network_named_twice_lists_the_service_twice() {
    let spec = ComposeSpec {
        networks: Some(networks(&[("front", BRIDGE)])),
        services: services(&[("web", "", &["front", "front"])]),
    };
    let mut manager = NetworkManager::new("shop".to_string());
    assert!(manager.handle(&spec).is_ok());
    assert_eq!(members(&manager, "front"), vec!["web", "web"]);
}

#[test]
fn networks_that_are_not_defined_are_refused() {
    let spec = ComposeSpec {
        networks: Some(networks(&[("front", BRIDGE)])),
        services: services(&[("web", "", &["front", "back"]), ("db", "", &["front"])]),
    };
    let mut manager = NetworkManager::new("shop".to_string());
    assert!(manager.supports(&spec));
    let error = manager.handle(&spec).unwrap_err();
    assert!(matches!(error, NetworkError::NotDefined { .. }));
    assert_eq!(
        error.message(),
        "bad network's definition network back is not defined"
    );
    assert_eq!(members(&manager, "front"), vec!["web"]);
    assert!(bridge_of(&manager, "front").is_none());
}

#[test]
fn without_networks_a_service_cannot_name_one() {
    let spec = ComposeSpec { networks: None, services: services(&[("web", "", &["front"])]) };
    let mut manager = NetworkManager::new("shop".to_string());
    assert!(matches!(manager.handle(&spec), Err(NetworkError::NotDefined { .. })));
}

#[test]
fn the_default_network_can_be_named_once_a_service_has_joined_it() {
    let early = ComposeSpec {
        networks: Some(networks(&[])),
        services: services(&[("cron", "", &[]), ("web", "", &["shop_default"])]),
    };
    let mut manager = NetworkManager::new("shop".to_string());
    assert!(manager.handle(&early).is_ok());
    assert_eq!(members(&manager, "shop_default"), vec!["cron", "web"]);
    let late = ComposeSpec {
        networks: Some(networks(&[])),
        services: services(&[("web", "", &["shop_default"]), ("cron", "", &[])]),
    };
    let mut manager = NetworkManager::new("shop".to_string());
    assert!(manager.handle(&late).is_err());
}

#[test]
fn projects_have_default_networks_of_their_own() {
    let spec = ComposeSpec { networks: None, services: services(&[("web", "", &[])]) };
    let mut a = NetworkManager::new("a".to_string());
    let mut b = NetworkManager::new("b".to_string());
    assert!(a.handle(&spec).is_ok());
    assert!(b.handle(&spec).is_ok());
    assert_eq!(members(&a, "a_default"), vec!["web"]);
    assert!(members(&a, "b_default").is_empty());
    assert_eq!(members(&b, "b_default"), vec!["web"]);
}

#[test]
fn only_bridges_and_networks_without_driver_are_supported() {
    let undriven = NetworkSpec { external: Some(true), driver: None };
    let overlay = NetworkSpec { external: None, driver: Some(NetworkDriver::Overlay) };
    let host = NetworkSpec { external: None, driver: Some(NetworkDriver::Host) };
    let manager = NetworkManager::new("shop".to_string());
    for (driver, expected) in [(undriven, true), (overlay, false), (host, false), (BRIDGE, true)] {
        let spec = ComposeSpec {
            networks: Some(networks(&[("front", BRIDGE), ("x", driver)])),
            services: services(&[("web", "", &["front"])]),
        };
        assert_eq!(manager.supports(&spec), expected);
    }
    let refused = ComposeSpec {
        networks: Some(networks(&[("x", overlay)])),
        services: services(&[("web", "", &["back"])]),
    };
    assert!(manager.supports(&refused));
}

#[test]
fn networks_without_driver_get_no_interface_but_keep_their_place() {
    let undriven = NetworkSpec { external: Some(true), driver: None };
    let spec = ComposeSpec {
        networks: Some(networks(&[("ext", undriven), ("front", BRIDGE)])),
        services: services(&[]),
    };
    let mut manager = NetworkManager::new("shop".to_string());
    assert!(manager.handle(&spec).is_ok());
    assert!(bridge_of(&manager, "ext").is_none());
    assert_eq!(bridge_of(&manager, "front"), Some("rCompose2".to_string()));
}

#[test]
fn interfaces_are_numbered_past_nine() {
    let many: Vec<String> = (1..=12).map(|i| format!("n{}", i)).collect();
    let list: Vec<(&str, NetworkSpec)> = many.iter().map(|n| (n.as_str(), BRIDGE)).collect();
    let spec = ComposeSpec { networks: Some(networks(&list)), services: services(&[]) };
    let mut manager = NetworkManager::new("shop".to_string());
    assert!(manager.handle(&spec).is_ok());
    assert_eq!(bridge_of(&manager, "n10"), Some("rCompose10".to_string()));
    assert_eq!(bridge_of(&manager, "n12"), Some("rCompose12".to_string()));
}

#[test]
fn the_default_configuration_is_a_bridge() {
    let conf = CliNetworkConfig::default();
    assert_eq!(conf.cni_version, CNI_VERSION);
    assert_eq!(conf.cni_version, "1.0.0");
    assert_eq!(conf.plugin, BRIDGE_PLUGIN_NAME);
    assert_eq!(conf.plugin, "libbridge");
    assert_eq!(conf.name, "");
    assert_eq!(conf.bridge, "cni0");
    assert_eq!(conf.is_default_gateway, None);
    assert_eq!(conf.is_gateway, Some(true));
    assert_eq!(conf.mtu, Some(1500));
    assert_eq!(conf.mac_spoof_check, None);
    assert_eq!(conf.hairpin_mode, None);
    assert_eq!(conf.vlan, None);
    assert_eq!(conf.vlan_trunk, None);
    let ipam = conf.ipam.unwrap();
    assert_eq!(ipam.type_field, "libipam");
    assert_eq!(ipam.name, None);
    assert!(ipam.routes.is_none());
    assert_eq!(ipam.resolv_conf, None);
    assert_eq!(ipam.data_dir, None);
    assert!(ipam.ip_args.is_empty());
    assert_eq!(ipam.ranges.len(), 1);
    assert_eq!(ipam.ranges[0].len(), 1);
    let range = ipam.ranges[0][0];
    assert_eq!(
        range.subnet,
        IpNetwork::V4(Ipv4Network { addr: Ipv4Addr(172, 17, 0, 0), prefix: 16 })
    );
    assert_eq!(range.range_start, None);
    assert_eq!(range.range_end, None);
    assert_eq!(range.gateway, Some(IpAddr::V4(Ipv4Addr(172, 17, 0, 1))));
}

#[test]
fn configurations_take_a_name_and_a_bridge() {
    let conf = CliNetworkConfig::from_name_bridge("front", "br0");
    assert_eq!(conf.name, "front");
    assert_eq!(conf.bridge, "br0");
    assert_eq!(conf.mtu, Some(1500));
    assert_eq!(conf.ipam.unwrap().ranges.len(), 1);
}

#[test]
fn configurations_take_a_subnet_and_a_gateway() {
    let conf = CliNetworkConfig::from_subnet_gateway(
        "front",
        "br0",
        Ipv4Addr(10, 1, 2, 3),
        Ipv4Addr(10, 1, 0, 1),
    );
    assert_eq!(conf.name, "front");
    assert_eq!(conf.bridge, "br0");
    assert_eq!(conf.plugin, "libbridge");
    let range = conf.ipam.unwrap().ranges[0][0];
    assert_eq!(
        range.subnet,
        IpNetwork::V4(Ipv4Network { addr: Ipv4Addr(10, 1, 2, 3), prefix: 16 })
    );
    assert_eq!(range.gateway, Some(IpAddr::V4(Ipv4Addr(10, 1, 0, 1))));
}

#[test]
fn configurations_go_to_the_standard_file() {
    let spec = ComposeSpec { networks: None, services: services(&[]) };
    let mut manager = NetworkManager::new("shop".to_string());
    assert!(manager.handle(&spec).is_ok());
    let file = match manager.setup_network_conf(&"shop_default".to_string()) {
        Ok(file) => file,
        Err(_) => unreachable!(),
    };
    assert_eq!(file.path, format!("{}/{}", STD_CONF_PATH, BRIDGE_CONF));
    assert_eq!(file.path, "/etc/cni/net.d/rkl-standalone-bridge.conf");
    assert_eq!(file.conf.name, "shop_default");
    assert_eq!(file.conf.bridge, "rCompose1");
    let error = match manager.setup_network_conf(&"other".to_string()) {
        Ok(_) => unreachable!(),
        Err(error) => error,
    };
    assert_eq!(error.message(), "Failed to find bridge interface for network other");
}

#[test]
fn a_started_container_joins_the_networks_of_its_service() {
    let undriven = NetworkSpec { external: None, driver: None };
    let spec = ComposeSpec {
        networks: Some(networks(&[("front", BRIDGE), ("back", undriven), ("other", BRIDGE)])),
        services: services(&[
            ("web", "web-1", &["front", "back"]),
            ("db", "db-1", &["back", "other"]),
            ("anon", "", &["other"]),
        ]),
    };
    let mut manager = NetworkManager::new("shop".to_string());
    assert!(manager.handle(&spec).is_ok());
    let ip = IpAddr::V4(Ipv4Addr(172, 17, 0, 9));
    let options = match manager.after_container_started("web", &started("web-1", Some(ip))) {
        Ok(options) => options,
        Err(_) => unreachable!(),
    };
    assert_eq!(options.container_id, "web-1");
    assert_eq!(options.container_name, "web-1");
    assert_eq!(options.container_hostname, None);
    assert!(options.port_mappings.is_none());
    assert!(options.dns_servers.is_none());
    assert_eq!(options.networks.len(), 2);
    assert_eq!(options.network_info.len(), 2);
    assert!(!options.networks.contains_key(&"other".to_string()));
    let front = options.networks.get(&"front".to_string()).unwrap();
    assert_eq!(front.aliases, Some(vec!["web-1".to_string()]));
    assert_eq!(front.interface_name, "rCompose1");
    assert_eq!(front.static_ips, Some(vec![ip]));
    assert_eq!(front.static_mac, None);
    assert!(front.options.is_none());
    let back = options.networks.get(&"back".to_string()).unwrap();
    assert_eq!(back.interface_name, "vethcni0");
    let info = options.network_info.get(&"back".to_string()).unwrap();
    assert_eq!(info.name, "back");
    assert_eq!(info.driver, "bridge");
    assert_eq!(info.id, "");
    assert!(info.dns_enabled);
    assert!(info.internal);
    assert!(!info.ipv6_enabled);
    assert_eq!(info.network_interface, None);
    assert!(info.options.is_none());
    assert!(info.ipam_options.is_none());
    assert!(info.routes.is_none());
    assert_eq!(info.network_dns_servers, Some(vec![]));
    let subnets = info.subnets.as_ref().unwrap();
    assert_eq!(subnets.len(), 1);
    assert_eq!(subnets[0].gateway, Some(IpAddr::V4(Ipv4Addr(172, 17, 0, 1))));
    assert!(subnets[0].lease_range.is_none());
    assert_eq!(
        subnets[0].subnet,
        IpNetwork::V4(Ipv4Network { addr: Ipv4Addr(172, 17, 0, 0), prefix: 16 })
    );
}

#[test]
fn a_container_needs_an_ipv4_address() {
    let manager = NetworkManager::new("shop".to_string());
    let none = match manager.after_container_started("web", &started("c", None)) {
        Ok(_) => unreachable!(),
        Err(error) => error,
    };
    assert_eq!(none.message(), "[container c]Empty IP address");
    let six = match manager.after_container_started("web", &started("c", Some(IpAddr::V6(1)))) {
        Ok(_) => unreachable!(),
        Err(error) => error,
    };
    assert_eq!(six.message(), "Unsupported ipv6 type");
}

#[test]
fn an_unlisted_container_joins_nothing() {
    let spec = ComposeSpec { networks: None, services: services(&[("web", "web-1", &[])]) };
    let mut manager = NetworkManager::new("shop".to_string());
    assert!(manager.handle(&spec).is_ok());
    let ip = Some(IpAddr::V4(Ipv4Addr(172, 17, 0, 9)));
    match manager.after_container_started("web", &started("web", ip)) {
        Ok(options) => assert_eq!(options.networks.len(), 0),
        Err(_) => unreachable!(),
    }
}

#[test]
fn namespaces_are_found_by_process() {
    assert_eq!(netns_path("c", Some(42)).unwrap(), "/proc/42/ns/net");
    assert_eq!(netns_path("c", Some(-1)).unwrap(), "/proc/-1/ns/net");
    assert_eq!(netns_path("c", None).unwrap_err().message(), "[container c] PID not found");
    assert_eq!(
        require_netns("c", "/proc/42/ns/net".to_string(), true).unwrap(),
        "/proc/42/ns/net"
    );
    assert_eq!(
        require_netns("c", "/proc/42/ns/net".to_string(), false).unwrap_err().message(),
        "[container c] netns path not found: /proc/42/ns/net"
    );
    assert_eq!(netavark_input_file("c"), "c.network.json");
    let failed = NetworkError::SetupFailed { container: "c".to_string(), reason: "no".to_string() };
    assert_eq!(failed.message(), "[container c] netavark setup failed: no");
}

fn standard(located: Located<u8>) -> String {
    match located {
        Located::Standard(path) => path,
        Located::Given(_) => unreachable!(),
    }
}

#[test]
fn configuration_directories_depend_on_the_user() {
    assert!(matches!(default_netavark_config_dir(Some(7u8), true, 1), Located::Given(7)));
    assert_eq!(
        standard(default_netavark_config_dir(None, true, 1000)),
        "/run/user/1000/containers/networks"
    );
    assert_eq!(standard(default_netavark_config_dir(None, false, 0)), "/run/containers/networks");
}

#[test]
fn aardvark_is_looked_for_in_order() {
    assert!(matches!(default_aardvark_bin(Some(1u8), Some(2u8), true, true), Located::Given(1)));
    assert!(matches!(default_aardvark_bin(None, Some(2u8), true, true), Located::Given(2)));
    let libexec = "/usr/libexec/podman/aardvark-dns";
    assert_eq!(standard(default_aardvark_bin(None, None, true, true)), libexec);
    assert_eq!(standard(default_aardvark_bin(None, None, true, false)), libexec);
    assert_eq!(standard(default_aardvark_bin(None, None, false, true)), "/usr/bin/aardvark-dns");
    assert_eq!(standard(default_aardvark_bin(None, None, false, false)), libexec);
}

#[test]
fn the_daemon_named_in_the_file_is_killed() {
    let absent = NetworkManager::clean_up(&PidFile::Absent);
    assert_eq!(absent.kill, None);
    assert!(!absent.remove_file);
    let unreadable = NetworkManager::clean_up(&PidFile::Unreadable);
    assert_eq!(unreadable.kill, None);
    assert!(unreadable.remove_file);
    let running = NetworkManager::clean_up(&PidFile::Text(" 1234\n".to_string()));
    assert_eq!(running.kill, Some(1234));
    assert!(running.remove_file);
    let garbage = NetworkManager::clean_up(&PidFile::Text("12a".to_string()));
    assert_eq!(garbage.kill, None);
    assert!(garbage.remove_file);
}

#[test]
fn connecting_is_given_up_after_the_last_attempt() {
    let mut attempts = connect_dns_socket_with_retry(3, 200);
    let first = attempts.failed();
    assert!(matches!(first, ConnectStep::Wait { attempt: 1, retries: 3, delay_ms: 200 }));
    assert_eq!(
        first.notice("refused".to_string()).unwrap(),
        "Attempt 1/3 failed to connect DNS socket: refused. Retrying in 200 ms..."
    );
    assert!(matches!(attempts.failed(), ConnectStep::Wait { attempt: 2, .. }));
    let last = attempts.failed();
    assert!(matches!(last, ConnectStep::GiveUp { retries: 3 }));
    assert_eq!(
        last.notice("refused".to_string()).unwrap_err().message(),
        "Fatal error: failed to connect local DNS SOCKET after 3 attempts: refused"
    );
}

#[test]
fn one_attempt_is_the_last() {
    let mut attempts = connect_dns_socket_with_retry(1, 5);
    assert!(matches!(attempts.failed(), ConnectStep::GiveUp { retries: 1 }));
}

#[test]
fn messages_are_lines() {
    assert_eq!(frame_message(b"{}".to_vec()), b"{}\n".to_vec());
}

#[test]
fn only_ok_is_a_good_reply() {
    assert!(check_reply("web", "ok\n").is_ok());
    assert!(check_reply("web", " ok ").is_ok());
    assert_eq!(
        check_reply("web", "full\n").unwrap_err().message(),
        "fail to add web's dns record, got DNS Server response: full"
    );
    assert!(matches!(check_reply("web", "OK"), Err(NetworkError::RecordRefused { .. })));
    assert!(check_reply("web", "").is_err());
}
