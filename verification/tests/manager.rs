use dispenser::atomic_socket::{Ipv4Addr, SocketAddrV4};
use dispenser::file::{
    DependsOnCondition, DispenserConfig, Initialize, ProxySettings, ProxyStrategy, PullPolicy,
    Restart, ServiceEntry, ServiceFile,
};
use dispenser::cron_watcher::CronWatcher;
use dispenser::instance::{ContainerStatus, PollStep, ServiceInstance};
use dispenser::ip_alloc::{addresses_sound, allocate_ips};
use dispenser::manager::{
    contains_name, first_unknown_dependency, host_speakers, plan_services, position_of,
    prune_depends_on,
    removed_services, service_names_of, validate_containers_not_present, PollClock,
    ServicesManager,
};
use dispenser::telemetry::types::HealthStatus;
use std::str::FromStr;
use std::sync::atomic::Ordering;

fn decl(name: &str) -> ServiceFile {
    ServiceFile {
        service: ServiceEntry {
            name: name.to_string(),
            image: format!("{}:latest", name),
            command: None,
            entrypoint: None,
            working_dir: None,
            user: None,
            hostname: None,
            memory: None,
            cpus: None,
        },
        ports: vec![],
        volume: vec![],
        env: vec![],
        restart: Restart::No,
        network: vec![],
        dispenser: DispenserConfig {
            watch: false,
            initialize: Initialize::Immediately,
            cron: None,
            pull: PullPolicy::OnStartup,
        },
        depends_on: vec![],
        proxy: None,
    }
}

fn proxy(host: &str, path: &str, port: u16) -> Option<ProxySettings> {
    Some(ProxySettings {
        host: host.to_string(),
        path: Some(path.to_string()),
        service_port: port,
        cert_file: None,
        key_file: None,
    })
}

fn instance(file: ServiceFile, ip: Ipv4Addr) -> ServiceInstance {
    ServiceInstance {
        dir: ".".to_string(),
        config: file,
        assigned_ip: ip,
        cron_watcher: None,
        image_watcher: None,
    }
}

fn names(list: &[&str]) -> Vec<String> {
    list.iter().map(|s| s.to_string()).collect()
}

/// Three services behind example.com: "/api/v1" at .11, "/api" at .12, "/" at .10.
fn example_manager() -> ServicesManager {
    let mut s1 = decl("s1");
    s1.proxy = proxy("example.com", "/api/v1", 8001);
    let mut s2 = decl("s2");
    s2.proxy = proxy("example.com", "/api", 8002);
    let mut s3 = decl("s3");
    s3.proxy = proxy("example.com", "/", 8003);
    let worker = decl("worker");
    ServicesManager::new(
        vec![
            instance(s1, Ipv4Addr::new(172, 28, 0, 11)),
            instance(worker, Ipv4Addr::new(172, 28, 0, 13)),
            instance(s2, Ipv4Addr::new(172, 28, 0, 12)),
            instance(s3, Ipv4Addr::new(172, 28, 0, 10)),
        ],
        vec![],
        60,
        true,
        ProxyStrategy::Both,
        None,
    )
}

fn upstream(last: u8, port: u16) -> Option<SocketAddrV4> {
    Some(SocketAddrV4::new(Ipv4Addr::new(172, 28, 0, last), port))
}

#[test]
fn upstream_of_api() {
    assert_eq!(example_manager().resolve_route("example.com", "/api"), upstream(12, 8002));
}

#[test]
fn upstream_of_api_v1_users() {
    assert_eq!(
        example_manager().resolve_route("example.com", "/api/v1/users"),
        upstream(11, 8001)
    );
}

#[test]
fn upstream_of_dashboard() {
    assert_eq!(example_manager().resolve_route("example.com", "/dashboard"), upstream(10, 8003));
}

#[test]
fn upstream_of_api_v2() {
    assert_eq!(example_manager().resolve_route("example.com", "/api-v2"), upstream(10, 8003));
}

#[test]
fn upstream_of_api_with_slash() {
    assert_eq!(example_manager().resolve_route("example.com", "/api/"), upstream(12, 8002));
}

#[test]
fn upstream_of_the_empty_path() {
    assert_eq!(example_manager().resolve_route("example.com", ""), upstream(10, 8003));
}

#[test]
fn unknown_host_has_no_upstream() {
    assert_eq!(example_manager().resolve_route("nowhere.org", "/"), None);
}

#[test]
fn manager_lists_names_and_addresses() {
    let m = example_manager();
    assert_eq!(m.service_names(), names(&["s1", "worker", "s2", "s3"]));
    assert_eq!(
        m.ip_map(),
        vec![
            ("s1".to_string(), Ipv4Addr::new(172, 28, 0, 11)),
            ("worker".to_string(), Ipv4Addr::new(172, 28, 0, 13)),
            ("s2".to_string(), Ipv4Addr::new(172, 28, 0, 12)),
            ("s3".to_string(), Ipv4Addr::new(172, 28, 0, 10)),
        ]
    );
    assert_eq!(m.get_proxy_strategy(), ProxyStrategy::Both);
    assert_eq!(m.delay, 60);
}

#[test]
fn addresses_survive_a_reload_through_the_ip_map() {
    let old = example_manager();
    let declared = names(&["s3", "fresh", "s1"]);
    let got = allocate_ips(&declared, &old.ip_map()).unwrap();
    assert_eq!(
        got,
        vec![
            Ipv4Addr::new(172, 28, 0, 10),
            Ipv4Addr::new(172, 28, 0, 2),
            Ipv4Addr::new(172, 28, 0, 11),
        ]
    );
}

#[test]
fn unknown_dependencies_are_pruned() {
    let mut web = decl("web");
    web.depends_on = vec![
        ("db".to_string(), DependsOnCondition::ServiceHealthy),
        ("ghost".to_string(), DependsOnCondition::ServiceStarted),
        ("migrator".to_string(), DependsOnCondition::ServiceCompleted),
    ];
    web.env = vec![("K".to_string(), "V".to_string())];
    let mut db = decl("db");
    db.depends_on = vec![("nobody".to_string(), DependsOnCondition::ServiceStarted)];
    let migrator = decl("migrator");
    let mut files = vec![web.clone(), db.clone(), migrator.clone()];

    prune_depends_on(&mut files);

    assert_eq!(
        files[0].depends_on,
        vec![
            ("db".to_string(), DependsOnCondition::ServiceHealthy),
            ("migrator".to_string(), DependsOnCondition::ServiceCompleted),
        ]
    );
    assert!(files[1].depends_on.is_empty());
    assert!(files[2].depends_on.is_empty());
    // Nothing else changed.
    web.depends_on = files[0].depends_on.clone();
    db.depends_on = vec![];
    assert_eq!(files, vec![web, db, migrator]);
    assert_eq!(service_names_of(&files), names(&["web", "db", "migrator"]));
}

#[test]
fn composed_dependencies() {
    let mut web = decl("web");
    web.depends_on = vec![
        ("db".to_string(), DependsOnCondition::ServiceHealthy),
        ("migrator".to_string(), DependsOnCondition::ServiceCompleted),
    ];
    let web = instance(web, Ipv4Addr::new(172, 28, 0, 2));
    let running_healthy = Some((ContainerStatus::Running, HealthStatus::Healthy));
    let running_unchecked = Some((ContainerStatus::Running, HealthStatus::Unchecked));
    let running_starting = Some((ContainerStatus::Running, HealthStatus::Starting));
    let exited_ok = Some((ContainerStatus::Exited(0), HealthStatus::Unchecked));
    let exited_bad = Some((ContainerStatus::Exited(1), HealthStatus::Unchecked));

    assert!(web.dependencies_met(&vec![running_healthy, exited_ok]));
    assert!(web.dependencies_met(&vec![running_unchecked, exited_ok]));
    assert!(!web.dependencies_met(&vec![running_starting, exited_ok]));
    assert!(!web.dependencies_met(&vec![running_healthy, exited_bad]));
    assert!(!web.dependencies_met(&vec![running_healthy, running_healthy]));
    assert!(!web.dependencies_met(&vec![None, exited_ok]));
    assert!(!web.dependencies_met(&vec![running_healthy, None]));
}

#[test]
fn no_dependencies_are_always_met() {
    let lone = instance(decl("lone"), Ipv4Addr::new(172, 28, 0, 2));
    assert!(lone.dependencies_met(&vec![]));
}

#[test]
fn equal_declarations_need_no_recreate() {
    let a = instance(decl("a"), Ipv4Addr::new(172, 28, 0, 2));
    let same = instance(decl("a"), Ipv4Addr::new(172, 28, 0, 9));
    assert!(!a.requires_recreate(&same, false));
    assert!(a.requires_recreate(&same, true));
}

#[test]
fn changed_declarations_need_a_recreate() {
    let a = instance(decl("a"), Ipv4Addr::new(172, 28, 0, 2));
    let mut other = decl("a");
    other.env = vec![("NEW".to_string(), "1".to_string())];
    assert!(a.requires_recreate(&instance(other, Ipv4Addr::new(172, 28, 0, 2)), false));
    let mut other = decl("a");
    other.service.image = "a:2".to_string();
    assert!(a.requires_recreate(&instance(other, Ipv4Addr::new(172, 28, 0, 2)), false));
    let mut other = decl("a");
    other.dispenser.cron = Some("* * * * * *".to_string());
    assert!(a.requires_recreate(&instance(other, Ipv4Addr::new(172, 28, 0, 2)), false));
    let mut other = decl("a");
    other.proxy = proxy("h", "/", 1);
    assert!(a.requires_recreate(&instance(other, Ipv4Addr::new(172, 28, 0, 2)), false));
}

#[test]
fn recreate_before_run() {
    let mut d = decl("a");
    let on_startup = instance(d.clone(), Ipv4Addr::new(172, 28, 0, 2));
    assert!(!on_startup.recreate_before_run(false));
    assert!(on_startup.recreate_before_run(true));
    d.dispenser.pull = PullPolicy::Always;
    let always = instance(d, Ipv4Addr::new(172, 28, 0, 2));
    assert!(always.recreate_before_run(false));
    assert!(always.recreate_before_run(true));
}

#[test]
fn poll_of_an_instance_without_schedule() {
    let mut d = decl("a");
    d.dispenser.initialize = Initialize::OnTrigger;
    d.dispenser.watch = true;
    let mut inst = instance(d, Ipv4Addr::new(172, 28, 0, 2));
    assert_eq!(inst.poll(true, true), PollStep::Idle);
    inst.image_watcher = Some(dispenser::manifest::ImageWatcher::initialize(
        "a:latest",
        Err(dispenser::manifest::ImageWatcherError::IoError("x".into())),
    ));
    assert_eq!(inst.poll(true, true), PollStep::CheckImage);
    assert_eq!(inst.poll(false, true), PollStep::Idle);
    inst.config.dispenser.initialize = Initialize::Immediately;
    assert_eq!(inst.poll(true, true), PollStep::RunOnStartup);
    assert_eq!(inst.poll(true, false), PollStep::CheckImage);
}

#[test]
fn poll_of_an_instance_with_a_due_schedule() {
    let mut d = decl("a");
    d.dispenser.initialize = Initialize::OnTrigger;
    d.dispenser.cron = Some("0 0 0 1 1 * 2099".to_string());
    let mut inst = instance(d, Ipv4Addr::new(172, 28, 0, 2));
    let watcher = CronWatcher::new(&cron::Schedule::from_str("0 0 0 1 1 * 2099").unwrap());
    watcher.next.store(1, Ordering::SeqCst);
    inst.cron_watcher = Some(watcher);
    // First tick, on trigger: no startup run, but the schedule is due.
    assert_eq!(inst.poll(false, true), PollStep::RunOnSchedule);
    // The occurrence is used up; the next one is far away.
    assert_eq!(inst.poll(false, false), PollStep::Idle);
}

#[test]
fn removed_services_are_those_no_longer_declared() {
    assert_eq!(
        removed_services(&names(&["a", "b", "c"]), &names(&["a", "c", "d"])),
        names(&["b"])
    );
    assert_eq!(removed_services(&names(&["a", "b"]), &names(&[])), names(&["a", "b"]));
    assert!(removed_services(&names(&["a"]), &names(&["a", "b"])).is_empty());
    assert!(removed_services(&names(&[]), &names(&["a"])).is_empty());
}

#[test]
fn names_are_found() {
    let list = names(&["a", "b", "a"]);
    assert!(contains_name(&list, &"b".to_string()));
    assert!(!contains_name(&list, &"c".to_string()));
    assert_eq!(position_of(&list, &"a".to_string()), Some(0));
    assert_eq!(position_of(&list, &"b".to_string()), Some(1));
    assert_eq!(position_of(&list, &"c".to_string()), None);
}

#[test]
fn startup_fails_for_the_first_existing_container() {
    let list = names(&["a", "b", "c"]);
    assert_eq!(validate_containers_not_present(&list, &vec![true, true, true]), Ok(()));
    assert_eq!(
        validate_containers_not_present(&list, &vec![true, false, false]),
        Err("Container b already exists".to_string())
    );
    assert_eq!(validate_containers_not_present(&vec![], &vec![]), Ok(()));
}

fn block(host: &str, manual: bool) -> Option<ProxySettings> {
    Some(ProxySettings {
        host: host.to_string(),
        path: None,
        service_port: 80,
        cert_file: if manual { Some("c.crt".to_string()) } else { None },
        key_file: if manual { Some("c.key".to_string()) } else { None },
    })
}

#[test]
fn one_block_speaks_for_each_host() {
    let proxies = vec![
        block("a.com", false),
        None,
        block("b.com", false),
        block("a.com", true),
        block("a.com", true),
        block("c.com", true),
        block("b.com", false),
    ];
    // a.com: the first manual one; b.com: the first one; c.com: the only one.
    assert_eq!(host_speakers(&proxies), vec![2, 3, 5]);
    assert!(host_speakers(&vec![None, None]).is_empty());
}

#[test]
fn a_block_with_only_one_file_is_not_manual() {
    let half = Some(ProxySettings {
        host: "a.com".to_string(),
        path: None,
        service_port: 80,
        cert_file: Some("c.crt".to_string()),
        key_file: None,
    });
    assert_eq!(host_speakers(&vec![block("a.com", false), half]), vec![0]);
}

#[test]
fn poll_clock_polls_images_after_the_delay() {
    let mut clock = PollClock::start(1_000);
    assert_eq!(clock.tick(1_000, 60), (false, true));
    assert_eq!(clock.tick(1_059, 60), (false, false));
    assert_eq!(clock.tick(1_060, 60), (true, false));
    assert_eq!(clock.last_image_poll, 1_060);
    assert_eq!(clock.tick(1_061, 60), (false, false));
    assert_eq!(clock.tick(1_120, 60), (true, false));
    // A clock that ran backwards counts as no time passed.
    assert_eq!(clock.tick(5, 60), (false, false));
    assert_eq!(clock.last_image_poll, 1_120);
}

#[test]
fn poll_clock_with_no_delay_polls_on_every_tick() {
    let mut clock = PollClock::start(7);
    assert_eq!(clock.tick(7, 0), (true, true));
    assert_eq!(clock.tick(7, 0), (true, false));
}

#[test]
fn a_generation_is_planned_and_put_together() {
    let mut web = decl("web");
    web.depends_on = vec![
        ("db".to_string(), DependsOnCondition::ServiceStarted),
        ("ghost".to_string(), DependsOnCondition::ServiceStarted),
    ];
    web.proxy = proxy("example.com", "/", 80);
    let mut files = vec![web, decl("db"), decl("new")];
    let previous = vec![
        ("db".to_string(), Ipv4Addr::new(172, 28, 0, 2)),
        ("gone".to_string(), Ipv4Addr::new(172, 28, 0, 3)),
    ];

    let ips = dispenser::manager::plan_services(&mut files, &previous).unwrap();
    assert_eq!(
        ips,
        vec![
            Ipv4Addr::new(172, 28, 0, 3),
            Ipv4Addr::new(172, 28, 0, 2),
            Ipv4Addr::new(172, 28, 0, 4),
        ]
    );
    assert_eq!(files[0].depends_on, vec![("db".to_string(), DependsOnCondition::ServiceStarted)]);

    let manager = ServicesManager::from_config(
        names(&["./web", "./db", "./new"]),
        files,
        ips,
        vec![None, None, None],
        vec![None, None, None],
        vec![],
        30,
        true,
        ProxyStrategy::HttpsOnly,
        Some("ops@example.com".to_string()),
    );
    assert_eq!(manager.service_names(), names(&["web", "db", "new"]));
    assert_eq!(manager.instances[1].dir, "./db");
    assert_eq!(manager.instances[2].assigned_ip, Ipv4Addr::new(172, 28, 0, 4));
    assert_eq!(manager.delay, 30);
    assert_eq!(manager.get_certbot_settings(), Some(&"ops@example.com".to_string()));
    assert_eq!(
        manager.resolve_route("example.com", "/anything"),
        Some(SocketAddrV4::new(Ipv4Addr::new(172, 28, 0, 3), 80))
    );
}

#[test]
fn proxy_blocks_by_host() {
    let mut a = decl("a");
    a.proxy = block("shared.com", false);
    let mut b = decl("b");
    b.proxy = block("shared.com", true);
    let mut c = decl("c");
    c.proxy = block("own.com", false);
    let manager = ServicesManager::new(
        vec![
            instance(a, Ipv4Addr::new(172, 28, 0, 2)),
            instance(decl("plain"), Ipv4Addr::new(172, 28, 0, 3)),
            instance(b, Ipv4Addr::new(172, 28, 0, 4)),
            instance(c, Ipv4Addr::new(172, 28, 0, 5)),
        ],
        vec![],
        60,
        true,
        ProxyStrategy::Both,
        None,
    );
    let configs = manager.get_proxy_configs();
    assert_eq!(configs, vec![block("shared.com", true).unwrap(), block("own.com", false).unwrap()]);
    assert_eq!(manager.get_certbot_settings(), None);
    assert!(dispenser::manager::is_speaker(&dispenser::manager::proxies_in(&manager.instances), 2));
    assert!(!dispenser::manager::is_speaker(&dispenser::manager::proxies_in(&manager.instances), 0));
    assert_eq!(
        dispenser::manager::speakers_of(&vec![block("x", false), block("x", false)]),
        vec![block("x", false).unwrap()]
    );
}

#[test]
fn sound_addresses_are_host_addresses_that_no_two_names_share() {
    let three = names(&["a", "b", "c"]);
    let ip = |last: u8| Ipv4Addr::new(172, 28, 0, last);
    assert!(addresses_sound(&three, &vec![ip(2), ip(3), ip(4)]));
    assert!(addresses_sound(&names(&[]), &vec![]));
    // The same name has one address.
    assert!(addresses_sound(&names(&["a", "b", "a"]), &vec![ip(2), ip(3), ip(2)]));
    assert!(!addresses_sound(&names(&["a", "b", "a"]), &vec![ip(2), ip(3), ip(4)]));
    // Two names never share one.
    assert!(!addresses_sound(&three, &vec![ip(2), ip(3), ip(2)]));
    // The gateway and the network's own address are no host addresses.
    assert!(!addresses_sound(&three, &vec![ip(1), ip(3), ip(4)]));
    assert!(!addresses_sound(&three, &vec![ip(2), ip(0), ip(4)]));
    assert!(!addresses_sound(&three, &vec![ip(2), ip(3), Ipv4Addr::new(172, 28, 255, 255)]));
    assert!(addresses_sound(&three, &vec![ip(2), ip(3), Ipv4Addr::new(172, 28, 255, 254)]));
    assert!(!addresses_sound(&three, &vec![ip(2), ip(3), Ipv4Addr::new(10, 0, 0, 2)]));
    // One address for every service.
    assert!(!addresses_sound(&three, &vec![ip(2), ip(3)]));
}

#[test]
fn planned_addresses_are_sound() {
    let mut files = vec![decl("a"), decl("b"), decl("c")];
    let ips = plan_services(&mut files, &vec![("c".to_string(), Ipv4Addr::new(172, 28, 0, 2))])
        .unwrap();
    assert!(addresses_sound(&service_names_of(&files), &ips));
    let m = ServicesManager::from_config(
        names(&[".", ".", "."]),
        files,
        ips,
        vec![None, None, None],
        vec![None, None, None],
        vec![],
        60,
        false,
        ProxyStrategy::HttpsOnly,
        None,
    );
    assert!(addresses_sound(&m.service_names(), &m.ip_map().into_iter().map(|e| e.1).collect()));
}

#[test]
fn pruning_keeps_the_dependencies_in_the_order_of_their_keys() {
    let mut web = decl("web");
    web.env = vec![("A".to_string(), "1".to_string()), ("B".to_string(), "2".to_string())];
    web.depends_on = vec![
        ("cache".to_string(), DependsOnCondition::ServiceStarted),
        ("db".to_string(), DependsOnCondition::ServiceHealthy),
        ("ghost".to_string(), DependsOnCondition::ServiceStarted),
        ("migrator".to_string(), DependsOnCondition::ServiceCompleted),
    ];
    assert!(web.has_keyed_lists());
    let mut files = vec![web, decl("db"), decl("migrator")];
    prune_depends_on(&mut files);
    assert!(files[0].has_keyed_lists());
    assert_eq!(
        files[0].depends_on,
        vec![
            ("db".to_string(), DependsOnCondition::ServiceHealthy),
            ("migrator".to_string(), DependsOnCondition::ServiceCompleted),
        ]
    );
}

#[test]
fn a_list_with_a_key_twice_or_out_of_order_stands_for_no_map() {
    let mut twice = decl("web");
    twice.env = vec![("A".to_string(), "1".to_string()), ("A".to_string(), "2".to_string())];
    assert!(!twice.has_keyed_lists());
    let mut unordered = decl("web");
    unordered.depends_on = vec![
        ("db".to_string(), DependsOnCondition::ServiceHealthy),
        ("cache".to_string(), DependsOnCondition::ServiceStarted),
    ];
    assert!(!unordered.has_keyed_lists());
    assert!(decl("web").has_keyed_lists());
}

#[test]
fn a_dependency_on_an_undeclared_service_is_found() {
    let mut web = decl("web");
    web.depends_on = vec![
        ("db".to_string(), DependsOnCondition::ServiceHealthy),
        ("ghost".to_string(), DependsOnCondition::ServiceStarted),
    ];
    let mut db = decl("db");
    db.depends_on = vec![("nobody".to_string(), DependsOnCondition::ServiceStarted)];
    assert_eq!(first_unknown_dependency(&vec![web.clone(), db.clone()]), Some((0, 1)));
    assert_eq!(first_unknown_dependency(&vec![db.clone(), web.clone()]), Some((0, 0)));
    assert_eq!(first_unknown_dependency(&vec![decl("db"), decl("ghost"), web.clone()]), None);
    assert_eq!(first_unknown_dependency(&vec![]), None);
    // After pruning every peer is declared.
    let mut files = vec![web, db];
    prune_depends_on(&mut files);
    assert_eq!(first_unknown_dependency(&files), None);
}
