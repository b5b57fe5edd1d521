use hickory_proto::rr::rdata::A;
use hickory_proto::rr::RData;
use rkl::dns::authority::{
    LocalAuthority, Lookup, MemStore, RecordError, RecordStore, ZoneType,
};
use rkl::dns::name::LowerName;
use rkl::dns::update::{listen_address, UpdateAction, CONNECT_DELAY_MS, CONNECT_RETRIES};
use rkl::keymap::{Duplicate, Key};
use rkl::network::addr::{IpAddr, Ipv4Addr};
use rkl::network::manager::NetworkManager;
use rkl::network::setup::StartedContainer;

fn name(text: &str) -> LowerName {
    LowerName::parse(text).unwrap()
}

fn address(d: u8) -> RData {
    RData::A(A::new(10, 0, 0, d))
}

#[test]
fn names_are_read_in_lower_case() {
    let n = name("Web.Default.svc.");
    assert_eq!(*n.labels(), vec![b"web".to_vec(), b"default".to_vec(), b"svc".to_vec()]);
    assert!(n.is_fqdn());
    assert!(!name("web.local").is_fqdn());
    assert!(n.same(&name("wEB.default.SVC.")));
    assert!(!n.same(&name("web.default.svc")));
    assert!(!n.same(&name("web.default.")));
    assert!(n.same(&n.duplicate()));
}

#[test]
fn the_root_is_a_dot() {
    let root = name(".");
    assert!(root.labels().is_empty());
    assert!(root.is_fqdn());
}

#[test]
fn not_every_text_is_a_name() {
    assert!(LowerName::parse("a..b").is_none());
    assert!(LowerName::parse("white space").is_none());
    assert!(LowerName::parse("x".repeat(64).as_str()).is_none());
    assert!(LocalAuthority::try_from_mem("a..b").is_none());
    assert!(LocalAuthority::try_start("a..b", MemStore::new()).is_none());
    let manager = NetworkManager::new("p".to_string());
    assert!(manager.try_add_dns_record("a..b", Ipv4Addr(10, 0, 0, 1)).is_none());
}

#[test]
fn added_records_are_found() {
    let mut store = MemStore::new();
    assert!(matches!(store.get(name("a.")), Err(RecordError::NotFound)));
    assert!(store.add(name("a."), address(1)).is_ok());
    assert!(store.add(name("b."), address(2)).is_ok());
    assert_eq!(*store.get(name("A.")).unwrap(), address(1));
    assert_eq!(*store.get(name("b.")).unwrap(), address(2));
    assert!(store.add(name("a."), address(3)).is_ok());
    assert_eq!(*store.get(name("a.")).unwrap(), address(3));
    assert_eq!(*store.get(name("b.")).unwrap(), address(2));
}

#[test]
fn deletion_undoes_addition() {
    let mut store = MemStore::new();
    assert!(store.add(name("a."), address(1)).is_ok());
    assert!(store.add(name("b."), address(2)).is_ok());
    assert!(store.del(name("b.")).is_ok());
    assert!(matches!(store.get(name("b.")), Err(RecordError::NotFound)));
    assert_eq!(*store.get(name("a.")).unwrap(), address(1));
    assert!(store.del(name("c.")).is_ok());
}

#[test]
fn record_errors_have_messages() {
    assert_eq!(RecordError::NotFound.message(), "record not found");
    assert_eq!(RecordError::Failed { reason: "gone".to_string() }.message(), "gone");
}

#[test]
fn the_authority_answers_with_nothing() {
    let authority = LocalAuthority::from_mem("Local.");
    assert_eq!(authority.zone_type(), ZoneType::Primary);
    assert_eq!(*authority.origin().labels(), vec![b"local".to_vec()]);
    assert!(!authority.is_axfr_allowed());
    assert!(!authority.update());
    assert!(matches!(authority.search(&name("a."), 1), Lookup::Empty));
    assert!(matches!(authority.lookup(&name("a."), 28), Lookup::Empty));
    match authority.get_nsec_records(name("a.")) {
        Lookup::EmptySet { name: n } => assert!(n.same(&name("a."))),
        Lookup::Empty => unreachable!(),
    }
}

#[test]
fn the_authority_starts_with_the_records_of_its_store() {
    let mut store = MemStore::new();
    assert!(store.add(name("a."), address(1)).is_ok());
    let authority = LocalAuthority::start(".", store);
    assert!(authority.origin().labels().is_empty());
    assert_eq!(*authority.store.get(name("a.")).unwrap(), address(1));
    let empty = LocalAuthority::try_from_mem(".").unwrap();
    assert!(empty.store.get(name("a.")).is_err());
}

#[test]
fn records_are_added_by_message() {
    let manager = NetworkManager::new("p".to_string());
    let msg = manager.add_dns_record("Web.local.", Ipv4Addr(172, 17, 0, 5));
    assert_eq!(msg.action, UpdateAction::Add);
    assert!(msg.name.same(&name("web.local.")));
    assert_eq!(msg.ip, Ipv4Addr(172, 17, 0, 5));
    let again = manager.try_add_dns_record("Web.local.", Ipv4Addr(172, 17, 0, 5)).unwrap();
    assert!(again.name.same(&msg.name));
    assert_eq!(CONNECT_RETRIES, 5);
    assert_eq!(CONNECT_DELAY_MS, 200);
}

#[test]
fn the_daemon_listens_on_every_address() {
    assert_eq!(listen_address(5300), "0.0.0.0:5300");
    assert_eq!(listen_address(0), "0.0.0.0:0");
}

#[test]
fn names_are_made_of_labels_in_lower_case() {
    let made = LowerName::from_labels(vec![b"web".to_vec(), b"a-1_z".to_vec()], true).unwrap();
    assert_eq!(*made.labels(), vec![b"web".to_vec(), b"a-1_z".to_vec()]);
    assert!(made.is_fqdn());
    assert!(made.same(&name("Web.a-1_z.")));
    assert!(LowerName::from_labels(vec![b"web".to_vec(), b"locaL".to_vec()], true).is_none());
    assert!(LowerName::from_labels(vec![b"A".to_vec()], false).is_none());
    assert!(LowerName::from_labels(vec![b"Z".to_vec()], false).is_none());
    assert!(LowerName::from_labels(vec![b"@[".to_vec()], false).is_some());
    assert!(LowerName::from_labels(vec![], true).unwrap().same(&name(".")));
}

#[test]
fn a_started_container_is_put_under_the_domain_of_its_service() {
    let manager = NetworkManager::new("p".to_string());
    let ip = Ipv4Addr(172, 17, 0, 5);
    let runner = StartedContainer { id: "c".to_string(), ip: Some(IpAddr::V4(ip)) };
    let msg = manager.record_of_started("Web.local.", &runner).unwrap();
    assert_eq!(msg.action, UpdateAction::Add);
    assert!(msg.name.same(&name("web.local.")));
    assert_eq!(msg.ip, ip);
    let tried = manager.try_record_of_started("Web.local.", &runner).unwrap().unwrap();
    assert!(tried.name.same(&msg.name));
    assert_eq!(tried.ip, ip);
    assert!(manager.try_record_of_started("a..b", &runner).is_none());
}

#[test]
fn a_container_without_an_ipv4_address_gets_no_record() {
    let manager = NetworkManager::new("p".to_string());
    let none = StartedContainer { id: "c".to_string(), ip: None };
    let error = manager.record_of_started("web.", &none).unwrap_err();
    assert_eq!(error.message(), "[container c]Empty IP address");
    let six = StartedContainer { id: "c".to_string(), ip: Some(IpAddr::V6(1)) };
    let error = manager.try_record_of_started("web.", &six).unwrap().unwrap_err();
    assert_eq!(error.message(), "Unsupported ipv6 type");
}
