use dispenser::cli::{Args, Mode};
use dispenser::signals::{
    coordinate, counterpart, parse_pid, remove_unused_services, Event, Signal, Step, SIGHUP,
    SIGINT,
};

#[test]
fn signal_numbers() {
    assert_eq!(Signal::Reload.number(), SIGHUP);
    assert_eq!(Signal::Stop.number(), SIGINT);
    assert_eq!((SIGHUP, SIGINT), (1, 2));
}

#[test]
fn pid_files() {
    assert_eq!(parse_pid("1234"), Some(1234));
    assert_eq!(parse_pid(" 1234\n"), Some(1234));
    assert_eq!(parse_pid("+7"), Some(7));
    assert_eq!(parse_pid("-1"), Some(-1));
    assert_eq!(parse_pid("2147483647"), Some(i32::MAX));
    assert_eq!(parse_pid("2147483648"), None);
    assert_eq!(parse_pid(""), None);
    assert_eq!(parse_pid("12 34"), None);
    assert_eq!(parse_pid("pid"), None);
}

#[test]
fn changed_certificates_restart_the_proxy_only() {
    assert_eq!(coordinate(Event::CertificatesChanged, true), vec![Step::RestartProxy]);
    assert!(coordinate(Event::CertificatesChanged, false).is_empty());
}

#[test]
fn a_reload_swaps_the_generation() {
    for proxy in [false, true] {
        assert_eq!(
            coordinate(Event::ReloadReady, proxy),
            vec![
                Step::AbortPolling,
                Step::AbortCertificates,
                Step::SwapManager,
                Step::RemoveGoneServices,
                Step::StartGeneration,
            ]
        );
    }
}

#[test]
fn a_failed_reload_touches_nothing() {
    assert_eq!(coordinate(Event::ReloadFailed, true), vec![Step::ReportReloadFailure]);
    assert_eq!(coordinate(Event::ReloadFailed, false), vec![Step::ReportReloadFailure]);
}

#[test]
fn a_shutdown_takes_everything_down_in_order() {
    assert_eq!(
        coordinate(Event::Shutdown, true),
        vec![
            Step::AbortPolling,
            Step::AbortCertificates,
            Step::RemoveContainers,
            Step::RemoveNetworks,
            Step::TerminateProxy,
            Step::Exit(0),
        ]
    );
    assert_eq!(
        coordinate(Event::Shutdown, false),
        vec![
            Step::AbortPolling,
            Step::AbortCertificates,
            Step::RemoveContainers,
            Step::RemoveNetworks,
            Step::Exit(0),
        ]
    );
}

fn names(list: &[&str]) -> Vec<String> {
    list.iter().map(|s| s.to_string()).collect()
}

#[test]
fn a_reload_removes_the_services_that_are_gone() {
    assert_eq!(
        remove_unused_services(&names(&["a", "b", "c"]), &names(&["a", "c", "d"])),
        names(&["b"])
    );
}

#[test]
fn a_service_takes_over_from_its_namesake() {
    let old = names(&["a", "b", "c"]);
    assert_eq!(counterpart(&old, &"c".to_string()), Some(2));
    assert_eq!(counterpart(&old, &"d".to_string()), None);
}

#[test]
fn command_line_defaults_and_modes() {
    let args = Args::default();
    assert_eq!(args.config, "dispenser.toml");
    assert_eq!(args.pid_file, "dispenser.pid");
    assert!(!args.test);
    assert_eq!(args.signal, None);
    assert_eq!(args.mode(), Mode::Run);
    let test = Args { test: true, ..Args::default() };
    assert_eq!(test.mode(), Mode::TestConfig);
    let signal = Args { test: true, signal: Some(Signal::Reload), ..Args::default() };
    assert_eq!(signal.mode(), Mode::SendSignal(Signal::Reload));
}
