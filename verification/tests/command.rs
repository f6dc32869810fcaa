use dispenser::atomic_socket::Ipv4Addr;
use dispenser::command::{connect_network_args, create_container_args, dotted_chars};
use dispenser::file::{
    DependsOnCondition, DispenserConfig, Initialize, Network, PortEntry, PullPolicy, Restart,
    ServiceEntry, ServiceFile, VolumeEntry,
};
use dispenser::limits::{memory_bytes_of, parse_memory_to_bytes};

fn minimal(name: &str, image: &str) -> ServiceFile {
    ServiceFile {
        service: ServiceEntry {
            name: name.to_string(),
            image: image.to_string(),
            command: None,
            entrypoint: None,
            working_dir: None,
            user: None,
            hostname: None,
            memory: None,
            cpus: None,
        },
        ports: vec![],
        volume: vec![],
        env: vec![],
        restart: Restart::No,
        network: vec![],
        dispenser: DispenserConfig {
            watch: false,
            initialize: Initialize::Immediately,
            cron: None,
            pull: PullPolicy::OnStartup,
        },
        depends_on: vec![],
        proxy: None,
    }
}

fn words(list: &[&str]) -> Vec<String> {
    list.iter().map(|s| s.to_string()).collect()
}

#[test]
fn dotted_notation() {
    let text: String = dotted_chars(Ipv4Addr::new(172, 28, 0, 2)).into_iter().collect();
    assert_eq!(text, "172.28.0.2");
    let text: String = dotted_chars(Ipv4Addr::new(255, 0, 10, 100)).into_iter().collect();
    assert_eq!(text, "255.0.10.100");
}

#[test]
fn create_args_of_a_minimal_service() {
    let got = create_container_args(&minimal("web", "nginx:1.25"), Ipv4Addr::new(172, 28, 0, 2));
    assert_eq!(
        got,
        words(&[
            "create", "--name", "web", "--restart", "no", "--network", "dispenser", "--ip",
            "172.28.0.2", "nginx:1.25",
        ])
    );
}

#[test]
fn create_args_of_a_full_service() {
    let mut decl = minimal("api", "ghcr.io/o/api:v2");
    decl.restart = Restart::UnlessStopped;
    decl.ports = vec![
        PortEntry { host: 8080, container: 80 },
        PortEntry { host: 65535, container: 0 },
    ];
    decl.volume = vec![
        VolumeEntry { source: "data".into(), target: "/data".into(), readonly: false },
        VolumeEntry { source: "./conf".into(), target: "/etc/app".into(), readonly: true },
    ];
    decl.env = vec![("A".into(), "1".into()), ("B".into(), "x=y".into())];
    decl.network = vec![Network { name: "extra".into() }];
    decl.depends_on = vec![("db".into(), DependsOnCondition::ServiceHealthy)];
    decl.service.memory = Some("512m".into());
    decl.service.cpus = Some("1.5".into());
    decl.service.working_dir = Some("/srv".into());
    decl.service.user = Some("1000:1000".into());
    decl.service.hostname = Some("api-host".into());
    decl.service.entrypoint = Some(words(&["/bin/sh", "-c"]));
    decl.service.command = Some(words(&["serve", "--port", "80"]));

    let got = create_container_args(&decl, Ipv4Addr::new(172, 28, 1, 7));
    assert_eq!(
        got,
        words(&[
            "create", "--name", "api", "--restart", "unless-stopped", "-p", "8080:80", "-p",
            "65535:0", "-v", "data:/data", "-v", "./conf:/etc/app:ro", "-e", "A=1", "-e",
            "B=x=y", "--network", "dispenser", "--ip", "172.28.1.7", "--memory", "512m",
            "--cpus", "1.5", "--workdir", "/srv", "--user", "1000:1000", "--hostname",
            "api-host", "--entrypoint", "/bin/sh -c", "ghcr.io/o/api:v2", "serve", "--port",
            "80",
        ])
    );
}

#[test]
fn create_args_restart_policies() {
    for (policy, name) in [
        (Restart::Always, "always"),
        (Restart::No, "no"),
        (Restart::OnFailure, "on-failure"),
        (Restart::UnlessStopped, "unless-stopped"),
    ] {
        let mut decl = minimal("s", "i");
        decl.restart = policy;
        let got = create_container_args(&decl, Ipv4Addr::new(172, 28, 0, 2));
        assert_eq!(got[4], name);
        assert_eq!(policy.as_str(), name);
    }
}

#[test]
fn create_args_empty_entrypoint_and_command() {
    let mut decl = minimal("s", "i");
    decl.service.entrypoint = Some(vec![]);
    decl.service.command = Some(vec![]);
    let got = create_container_args(&decl, Ipv4Addr::new(172, 28, 0, 2));
    assert_eq!(
        got,
        words(&[
            "create", "--name", "s", "--restart", "no", "--network", "dispenser", "--ip",
            "172.28.0.2", "--entrypoint", "", "i",
        ])
    );
}

#[test]
fn connect_args() {
    assert_eq!(
        connect_network_args("extra", "web"),
        words(&["network", "connect", "extra", "web"])
    );
}

fn chars(s: &str) -> Vec<char> {
    s.chars().collect()
}

#[test]
fn memory_units() {
    assert_eq!(parse_memory_to_bytes("512m"), Some(512 * 1024 * 1024));
    assert_eq!(parse_memory_to_bytes("2g"), Some(2 * 1024 * 1024 * 1024));
    assert_eq!(parse_memory_to_bytes("64k"), Some(64 * 1024));
    assert_eq!(parse_memory_to_bytes("64kb"), Some(64 * 1024));
    assert_eq!(parse_memory_to_bytes("1mb"), Some(1024 * 1024));
    assert_eq!(parse_memory_to_bytes("3gb"), Some(3 * 1024 * 1024 * 1024));
    assert_eq!(parse_memory_to_bytes("100b"), Some(100));
    assert_eq!(parse_memory_to_bytes("100"), Some(100));
}

#[test]
fn memory_case_and_white_space() {
    assert_eq!(parse_memory_to_bytes("  512M \n"), Some(512 * 1024 * 1024));
    assert_eq!(parse_memory_to_bytes("1GB"), Some(1024 * 1024 * 1024));
    assert_eq!(parse_memory_to_bytes("1Kb"), Some(1024));
}

#[test]
fn memory_unreadable_number_counts_as_zero() {
    assert_eq!(parse_memory_to_bytes(""), Some(0));
    assert_eq!(parse_memory_to_bytes("m"), Some(0));
    assert_eq!(parse_memory_to_bytes("abc"), Some(0));
    assert_eq!(parse_memory_to_bytes("1.5g"), Some(0));
    assert_eq!(parse_memory_to_bytes("5 m"), Some(0));
}

#[test]
fn memory_repeated_units_are_all_taken_off() {
    assert_eq!(memory_bytes_of(&chars("5kk")), Some(5 * 1024));
    assert_eq!(memory_bytes_of(&chars("5kbkb")), Some(5 * 1024));
    assert_eq!(memory_bytes_of(&chars("5kbk")), Some(0));
    assert_eq!(memory_bytes_of(&chars("7bb")), Some(7));
    assert_eq!(memory_bytes_of(&chars("-2m")), Some(-2 * 1024 * 1024));
}

#[test]
fn memory_too_large_is_nothing() {
    assert_eq!(parse_memory_to_bytes("9223372036854775807g"), None);
    assert_eq!(parse_memory_to_bytes("8589934592g"), None);
    assert_eq!(parse_memory_to_bytes("8589934591g"), Some(8589934591 * 1024 * 1024 * 1024));
    assert_eq!(parse_memory_to_bytes("9223372036854775807"), Some(i64::MAX));
}
