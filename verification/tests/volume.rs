use rkl::keymap::{Duplicate, KeyMap, NameMap};
use rkl::removal::{removal_notice, Pruning, Removal};
use rkl::state::{all_texts, bundle_config, texts, Json};
use rkl::volume::{
    volume_execute, VolumeCommand, VolumeError, VolumeManager, VolumeMetadata, VolumeRequest,
};

fn names(list: &[&str]) -> Vec<String> {
    list.iter().map(|n| n.to_string()).collect()
}

fn manager(list: &[&str]) -> VolumeManager {
    let mut m = VolumeManager::new(None);
    for name in list {
        let made = m.create_at(name.to_string(), None, KeyMap::new(), "now".to_string());
        assert!(made.is_ok());
    }
    m
}

fn listed(m: &VolumeManager) -> Vec<String> {
    m.list().iter().map(|v| v.name.clone()).collect()
}

#[test]
fn volumes_are_kept_in_the_standard_place() {
    assert_eq!(VolumeManager::metadata_file(), "/var/lib/rkl/volumes/metadata.json");
    let m = VolumeManager::new(None);
    assert_eq!(m.metadata_path(), "/var/lib/rkl/volumes/metadata.json");
    assert_eq!(m.volumes().len(), 0);
}

#[test]
fn stored_volumes_are_taken_over() {
    let before = manager(&["a", "b"]);
    let after = VolumeManager::new(Some(before.volumes().duplicate()));
    assert_eq!(listed(&after), names(&["a", "b"]));
}

#[test]
fn a_created_volume_is_found() {
    let mut m = VolumeManager::new(None);
    let mut opts: NameMap<String> = KeyMap::new();
    opts.insert("size".to_string(), "1g".to_string());
    assert_eq!(
        m.prepare_create(&"data".to_string()).unwrap(),
        "/var/lib/rkl/volumes/data/_data"
    );
    let made = m
        .create_at("data".to_string(), Some("nfs".to_string()), opts, "t0".to_string())
        .unwrap_or_else(|_| unreachable!());
    assert_eq!(made.name, "data");
    let found = m.inspect("data").unwrap_or_else(|_| unreachable!());
    assert_eq!(found.name, "data");
    assert_eq!(found.driver, "nfs");
    assert_eq!(found.mountpoint, "/var/lib/rkl/volumes/data/_data");
    assert_eq!(found.created_at, "t0");
    assert_eq!(found.labels.len(), 0);
    assert_eq!(found.options.len(), 1);
    assert_eq!(found.options.get(&"size".to_string()), Some(&"1g".to_string()));
    assert_eq!(found.scope, "local");
    assert_eq!(found.status.len(), 0);
}

#[test]
fn the_driver_is_local_by_default() {
    let m = manager(&["data"]);
    assert_eq!(m.inspect("data").unwrap_or_else(|_| unreachable!()).driver, "local");
}

#[test]
fn the_clock_gives_the_time_of_creation() {
    let mut m = VolumeManager::new(None);
    let before = chrono::Utc::now();
    let made = m
        .create("data".to_string(), None, KeyMap::new())
        .unwrap_or_else(|_| unreachable!());
    let after = chrono::Utc::now();
    let at = chrono::DateTime::parse_from_rfc3339(made.created_at.as_str()).unwrap();
    assert!(before <= at && at <= after);
    assert!(made.created_at.ends_with("+00:00"));
    assert!(made.created_at.len() >= 25);
    assert_eq!(
        m.inspect("data").unwrap_or_else(|_| unreachable!()).created_at,
        made.created_at
    );
}

#[test]
fn a_name_is_given_once() {
    let mut m = manager(&["data"]);
    let refused = m.prepare_create(&"data".to_string()).unwrap_err();
    assert!(matches!(refused, VolumeError::AlreadyExists { .. }));
    assert_eq!(refused.message(), "volume data already exists");
    let refused = m.create("data".to_string(), Some("nfs".to_string()), KeyMap::new());
    assert!(matches!(refused, Err(VolumeError::AlreadyExists { .. })));
    assert_eq!(m.inspect("data").unwrap_or_else(|_| unreachable!()).driver, "local");
    assert_eq!(m.list().len(), 1);
}

#[test]
fn removal_undoes_creation() {
    let mut m = manager(&["a", "b"]);
    assert!(m.create("c".to_string(), None, KeyMap::new()).is_ok());
    let c = "c".to_string();
    let none: Vec<String> = Vec::new();
    assert_eq!(m.prepare_remove(&c, false, &none).unwrap(), "/var/lib/rkl/volumes/c");
    assert!(m.remove(&c, false, &none).is_ok());
    assert_eq!(listed(&m), names(&["a", "b"]));
    assert!(matches!(m.inspect("c"), Err(VolumeError::NotFound { .. })));
}

#[test]
fn removal_keeps_the_order_of_the_others() {
    let mut m = manager(&["a", "b", "c"]);
    assert!(m.remove(&"b".to_string(), true, &Vec::new()).is_ok());
    assert_eq!(listed(&m), names(&["a", "c"]));
}

#[test]
fn what_is_not_there_is_not_found() {
    let mut m = manager(&["a"]);
    let b = "b".to_string();
    let refused = m.prepare_remove(&b, true, &Vec::new()).unwrap_err();
    assert!(matches!(refused, VolumeError::NotFound { .. }));
    assert_eq!(refused.message(), "volume b not found");
    assert!(matches!(m.remove(&b, true, &Vec::new()), Err(VolumeError::NotFound { .. })));
    assert_eq!(listed(&m), names(&["a"]));
}

#[test]
fn a_volume_in_use_is_removed_only_by_force() {
    let mut m = manager(&["a"]);
    let a = "a".to_string();
    let mounted = names(&["x", "a"]);
    assert!(m.is_volume_in_use(&a, &mounted));
    assert!(!m.is_volume_in_use(&"b".to_string(), &mounted));
    assert!(!m.is_volume_in_use(&a, &Vec::new()));
    let refused = m.prepare_remove(&a, false, &mounted).unwrap_err();
    assert!(matches!(refused, VolumeError::InUse { .. }));
    assert_eq!(refused.message(), "volume a is in use");
    assert!(matches!(m.remove(&a, false, &mounted), Err(VolumeError::InUse { .. })));
    assert_eq!(m.list().len(), 1);
    assert_eq!(m.prepare_remove(&a, true, &mounted).unwrap(), "/var/lib/rkl/volumes/a");
    assert!(m.remove(&a, true, &mounted).is_ok());
    assert_eq!(m.list().len(), 0);
}

#[test]
fn names_are_joined_as_paths() {
    let m = VolumeManager::new(None);
    assert_eq!(
        m.prepare_create(&"a/b".to_string()).unwrap(),
        "/var/lib/rkl/volumes/a/b/_data"
    );
    assert_eq!(m.prepare_create(&"/srv".to_string()).unwrap(), "/srv/_data");
    assert_eq!(m.prepare_create(&"".to_string()).unwrap(), "/var/lib/rkl/volumes/_data");
}

#[test]
fn volumes_have_directories_of_their_own() {
    let m = VolumeManager::new(None);
    assert_ne!(
        m.prepare_create(&"a".to_string()).unwrap(),
        m.prepare_create(&"b".to_string()).unwrap()
    );
}

#[test]
fn pruning_leaves_the_volumes_in_use() {
    let mut m = manager(&["a", "b", "c", "d"]);
    let mounted = names(&["b", "d"]);
    let mut pass: Pruning<VolumeError> = m.prune();
    while let Some(name) = pass.next(&m, &mounted) {
        assert!(m.remove(&name, true, &mounted).is_ok());
        pass.record(name);
    }
    assert_eq!(pass.next(&m, &mounted), None);
    assert_eq!(pass.finish().unwrap(), names(&["a", "c"]));
    assert_eq!(listed(&m), names(&["b", "d"]));
}

#[test]
fn pruning_without_use_removes_everything() {
    let mut m = manager(&["a", "b"]);
    let mut pass: Pruning<VolumeError> = m.prune();
    while let Some(name) = pass.next(&m, &Vec::new()) {
        assert!(m.remove(&name, true, &Vec::new()).is_ok());
        pass.record(name);
    }
    assert_eq!(pass.finish().unwrap(), names(&["a", "b"]));
    assert_eq!(m.list().len(), 0);
}

#[test]
fn inspection_stops_at_the_first_unknown_name() {
    let m = manager(&["a", "b"]);
    let (shown, failure) = m.inspect_(&names(&["b", "x", "a"]));
    assert_eq!(shown.len(), 1);
    assert_eq!(shown[0].name, "b");
    assert_eq!(failure.map(|e| e.message()), Some("volume x not found".to_string()));
    let (shown, failure) = m.inspect_(&names(&["b", "a"]));
    assert_eq!(shown.len(), 2);
    assert!(failure.is_none());
}

fn mixed() -> VolumeManager {
    let mut m = manager(&["a"]);
    assert!(m.create("longer".to_string(), Some("distributed".to_string()), KeyMap::new()).is_ok());
    m
}

#[test]
fn tables_have_tabs_between_columns() {
    assert_eq!(
        mixed().table(false),
        "DRIVER\tVOLUME NAME\nlocal\ta\ndistributed\tlonger\n"
    );
    assert_eq!(mixed().table(true), "VOLUME NAME\na\nlonger\n");
}

#[test]
fn listings_have_aligned_columns() {
    assert_eq!(
        mixed().ls(false),
        "DRIVER       VOLUME NAME\nlocal        a\ndistributed  longer\n"
    );
}

#[test]
fn quiet_listings_show_one_name_to_a_line() {
    assert_eq!(mixed().ls(true), "VOLUME NAME\na\nlonger\n");
    assert_eq!(VolumeManager::new(None).ls(true), "VOLUME NAME\n");
}

#[test]
fn commands_come_down_to_requests() {
    let create = VolumeCommand::Create {
        name: "a".to_string(),
        driver: Some("nfs".to_string()),
        opt: Some(vec![("size".to_string(), "1g".to_string())]),
    };
    match volume_execute(create) {
        VolumeRequest::Create { name, driver, opts } => {
            assert_eq!(name, "a");
            assert_eq!(driver, Some("nfs".to_string()));
            assert_eq!(opts.len(), 0);
        }
        _ => unreachable!(),
    }
    match volume_execute(VolumeCommand::Rm { volumes: names(&["a", "b"]), force: true }) {
        VolumeRequest::Remove { names: list, force } => {
            assert_eq!(list, names(&["a", "b"]));
            assert!(force);
        }
        _ => unreachable!(),
    }
    assert!(matches!(
        volume_execute(VolumeCommand::Ls { quiet: true }),
        VolumeRequest::List { quiet: true }
    ));
    match volume_execute(VolumeCommand::Inspect { name: names(&["a"]) }) {
        VolumeRequest::Inspect { names: list } => assert_eq!(list, names(&["a"])),
        _ => unreachable!(),
    }
    assert!(matches!(
        volume_execute(VolumeCommand::Prune { force: true }),
        VolumeRequest::Prune { force: true }
    ));
}

#[test]
fn metadata_is_duplicated_whole() {
    let m = manager(&["a"]);
    let original: &VolumeMetadata = m.inspect("a").unwrap_or_else(|_| unreachable!());
    let copy = original.duplicate();
    assert_eq!(copy.name, "a");
    assert_eq!(copy.mountpoint, original.mountpoint);
    assert_eq!(copy.created_at, "now");
}

#[test]
fn containers_refer_to_volumes_by_path() {
    let m = manager(&["a", "ab", "c", "d"]);
    let state = object(vec![
        ("id", text("c")),
        ("/var/lib/rkl/volumes/c/_data", Json::Other),
        ("rootfs", text("/var/lib/rkl/volumes/d")),
    ]);
    let config = object(vec![(
        "mounts",
        Json::List(vec![
            object(vec![("source", text("/var/lib/rkl/volumes/ab/_data"))]),
            object(vec![("source", text("/var/lib/rkl/volumes/a/_data/logs"))]),
            object(vec![("source", text("/var/lib/rkl/volumes/c/_database"))]),
        ]),
    )]);
    assert_eq!(m.volumes_in_use(&vec![state, config]), names(&["a", "ab"]));
    assert!(m.volumes_in_use(&Vec::new()).is_empty());
}

#[test]
fn pruning_leaves_what_containers_refer_to() {
    let mut m = manager(&["a", "b", "c"]);
    let documents = vec![text("/var/lib/rkl/volumes/b/_data")];
    let mut pass: Pruning<VolumeError> = m.prune();
    while let Some(name) = pass.next(&m, &m.volumes_in_use(&documents)) {
        assert!(m.remove(&name, true, &Vec::new()).is_ok());
        pass.record(name);
    }
    assert_eq!(pass.finish().unwrap(), names(&["a", "c"]));
    assert_eq!(listed(&m), names(&["b"]));
}

#[test]
fn removals_add_up() {
    let mut m = manager(&["a", "b", "c"]);
    let mut removal: Removal<VolumeError> = VolumeManager::remove_(names(&["c", "a"]));
    while let Some(name) = removal.next() {
        match m.remove(&name, false, &Vec::new()) {
            Ok(()) => removal.record(name),
            Err(error) => removal.failed(error),
        }
    }
    assert_eq!(removal.next(), None);
    assert_eq!(removal.finish().unwrap(), names(&["c", "a"]));
    assert_eq!(listed(&m), names(&["b"]));
}

#[test]
fn removal_stops_at_the_first_failure() {
    for list in [["c", "x", "a"], ["c", "c", "a"]] {
        let mut m = manager(&["a", "b", "c"]);
        let mut removal: Removal<VolumeError> = VolumeManager::remove_(names(&list));
        let mut gone = Vec::new();
        while let Some(name) = removal.next() {
            match m.remove(&name, false, &Vec::new()) {
                Ok(()) => {
                    gone.push(removal_notice(name.as_str()));
                    removal.record(name);
                }
                Err(error) => removal.failed(error),
            }
        }
        assert_eq!(gone, names(&["c removed"]));
        assert_eq!(
            removal.finish().unwrap_err().message(),
            format!("volume {} not found", list[1])
        );
        assert_eq!(listed(&m), names(&["a", "b"]));
    }
}

#[test]
fn pruning_stops_at_the_first_failure() {
    let mut m = manager(&["a", "b", "c", "d"]);
    let mounted = names(&["b"]);
    let mut pass: Pruning<String> = m.prune();
    while let Some(name) = pass.next(&m, &mounted) {
        if name == "c" {
            pass.failed("disk".to_string());
        } else {
            assert!(m.remove(&name, true, &mounted).is_ok());
            pass.record(name);
        }
    }
    assert_eq!(pass.next(&m, &Vec::new()), None);
    assert_eq!(pass.finish(), Err("disk".to_string()));
    assert_eq!(listed(&m), names(&["b", "c", "d"]));
}

fn text(value: &str) -> Json {
    Json::Text(value.to_string())
}

fn object(members: Vec<(&str, Json)>) -> Json {
    Json::Object(members.into_iter().map(|(name, value)| (name.to_string(), value)).collect())
}

#[test]
fn texts_come_in_order() {
    let value = object(vec![
        ("a", text("1")),
        ("b", Json::List(vec![text("2"), Json::Other, Json::List(vec![text("3")])])),
        ("c", object(vec![("d", text("4"))])),
    ]);
    assert_eq!(texts(&value), names(&["1", "2", "3", "4"]));
    assert_eq!(texts(&text("x")), names(&["x"]));
    assert!(texts(&Json::Other).is_empty());
    assert_eq!(all_texts(&vec![text("x"), Json::Other, text("y")]), names(&["x", "y"]));
}

#[test]
fn states_name_their_bundles() {
    let state = object(vec![("id", text("c")), ("bundle", text("/var/lib/rkl/c"))]);
    assert_eq!(bundle_config(&state), Some("/var/lib/rkl/c/config.json".to_string()));
    assert_eq!(bundle_config(&object(vec![("id", text("c"))])), None);
    assert_eq!(bundle_config(&object(vec![("bundle", Json::Other)])), None);
    assert_eq!(bundle_config(&text("bundle")), None);
}

#[test]
fn the_time_of_creation_has_a_date_and_a_time() {
    let mut m = VolumeManager::new(None);
    let made = m
        .create("data".to_string(), None, KeyMap::new())
        .unwrap_or_else(|_| unreachable!());
    let chars: Vec<char> = made.created_at.chars().collect();
    assert_eq!(
        (chars[4], chars[7], chars[10], chars[13], chars[16]),
        ('-', '-', 'T', ':', ':')
    );
    let at: usize = chars.len() - 6;
    assert!(at == 19 || chars[19] == '.');
    assert!(at == 19 || at == 23 || at == 26 || at == 29);
}
