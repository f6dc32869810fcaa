use dispenser::file::{NetworkDeclarationEntry, NetworkDriver};
use dispenser::network::{EnsureStep, NetworkInstance, NetworkStatus};
use dispenser::signals::cleanup_networks;

fn entry(name: &str, external: bool) -> NetworkDeclarationEntry {
    NetworkDeclarationEntry {
        name: name.to_string(),
        driver: NetworkDriver::Bridge,
        external,
        internal: false,
        attachable: true,
        labels: vec![],
    }
}

fn words(list: &[&str]) -> Vec<String> {
    list.iter().map(|s| s.to_string()).collect()
}

#[test]
fn instance_from_declaration() {
    let mut e = entry("app", true);
    e.driver = NetworkDriver::Overlay;
    e.internal = true;
    e.attachable = false;
    e.labels = vec![("k".to_string(), "v".to_string())];
    let n = NetworkInstance::from(e.clone());
    assert_eq!(n.name, "app");
    assert_eq!(n.driver, NetworkDriver::Overlay);
    assert!(n.external && n.internal && !n.attachable);
    assert_eq!(n.labels, e.labels);
}

#[test]
fn check_follows_the_inspection() {
    assert_eq!(NetworkInstance::check_network(true), NetworkStatus::Exists);
    assert_eq!(NetworkInstance::check_network(false), NetworkStatus::NotFound);
}

#[test]
fn ensure_exists_steps() {
    let own = NetworkInstance::from(entry("app", false));
    let external = NetworkInstance::from(entry("shared", true));
    assert_eq!(own.ensure_exists(NetworkStatus::Exists), EnsureStep::Nothing);
    assert_eq!(own.ensure_exists(NetworkStatus::NotFound), EnsureStep::Create);
    assert_eq!(external.ensure_exists(NetworkStatus::Exists), EnsureStep::Nothing);
    assert_eq!(external.ensure_exists(NetworkStatus::NotFound), EnsureStep::FailMissingExternal);
}

#[test]
fn external_networks_are_neither_created_nor_removed() {
    let own = NetworkInstance::from(entry("app", false));
    let external = NetworkInstance::from(entry("shared", true));
    assert!(own.create_network(NetworkStatus::NotFound));
    assert!(!own.create_network(NetworkStatus::Exists));
    assert!(!external.create_network(NetworkStatus::NotFound));
    assert!(own.remove_network());
    assert!(!external.remove_network());
}

#[test]
fn create_args_of_a_declared_network() {
    let mut e = entry("app", false);
    e.driver = NetworkDriver::Macvlan;
    e.internal = true;
    e.labels = vec![("a".to_string(), "1".to_string()), ("b".to_string(), "2".to_string())];
    assert_eq!(
        NetworkInstance::from(e).create_network_args(),
        words(&[
            "network", "create", "--driver", "macvlan", "--internal", "--attachable", "--label",
            "a=1", "--label", "b=2", "app",
        ])
    );
    let mut plain = entry("plain", false);
    plain.attachable = false;
    plain.driver = NetworkDriver::Null;
    assert_eq!(
        NetworkInstance::from(plain).create_network_args(),
        words(&["network", "create", "--driver", "none", "plain"])
    );
}

#[test]
fn create_args_of_the_dispenser_network() {
    assert_eq!(
        NetworkInstance::dispenser().create_network_args(),
        words(&[
            "network", "create", "--driver", "bridge", "--attachable", "--subnet",
            "172.28.0.0/16", "--gateway", "172.28.0.1", "dispenser",
        ])
    );
}

#[test]
fn driver_names() {
    for (driver, name) in [
        (NetworkDriver::Bridge, "bridge"),
        (NetworkDriver::Host, "host"),
        (NetworkDriver::Overlay, "overlay"),
        (NetworkDriver::Macvlan, "macvlan"),
        (NetworkDriver::Null, "none"),
    ] {
        assert_eq!(driver.as_str(), name);
    }
    assert_eq!(NetworkDriver::default(), NetworkDriver::Bridge);
}

#[test]
fn shutdown_removes_own_networks_then_the_dispenser_network() {
    let networks = vec![
        NetworkInstance::from(entry("a", false)),
        NetworkInstance::from(entry("shared", true)),
        NetworkInstance::from(entry("b", false)),
    ];
    assert_eq!(cleanup_networks(&networks), words(&["a", "b", "dispenser"]));
    assert_eq!(cleanup_networks(&vec![]), words(&["dispenser"]));
}
