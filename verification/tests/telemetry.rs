use dispenser::file::{
    default_delay, default_false, default_network_driver, default_true, Initialize,
    NetworkDriver, ProxySettings, ProxyStrategy, PullPolicy, Restart,
};
use dispenser::telemetry::events::{
    date_days, duration_ms, micros_of_nanos_text, service_name_of, should_flush, span_kind,
    Status, MICROS_PER_DAY,
};
use dispenser::telemetry::types::{ContainerState, HealthStatus, TriggerType};

#[test]
fn trigger_names() {
    assert_eq!(TriggerType::Startup.as_ref(), "startup");
    assert_eq!(TriggerType::Cron.as_ref(), "cron");
    assert_eq!(TriggerType::ImageUpdate.as_ref(), "image_update");
    assert_eq!(TriggerType::ManualReload.as_ref(), "manual_reload");
    assert_eq!(TriggerType::Cron.as_str(), "cron");
}

#[test]
fn state_names() {
    for (state, name) in [
        (ContainerState::Empty, "empty"),
        (ContainerState::Created, "created"),
        (ContainerState::Running, "running"),
        (ContainerState::Paused, "paused"),
        (ContainerState::Restarting, "restarting"),
        (ContainerState::Removing, "removing"),
        (ContainerState::Exited, "exited"),
        (ContainerState::Dead, "dead"),
        (ContainerState::NotFound, "not_found"),
        (ContainerState::Unknown, "unknown"),
    ] {
        assert_eq!(state.as_ref(), name);
        assert_eq!(state.as_str(), name);
    }
}

#[test]
fn health_names() {
    assert_eq!(HealthStatus::Healthy.as_ref(), "healthy");
    assert_eq!(HealthStatus::Unhealthy.as_ref(), "unhealthy");
    assert_eq!(HealthStatus::Starting.as_ref(), "starting");
    assert_eq!(HealthStatus::Unchecked.as_ref(), "none");
}

#[test]
fn day_of_a_timestamp() {
    assert_eq!(MICROS_PER_DAY, 86_400 * 1_000_000);
    assert_eq!(date_days(1_700_000_000_000_000), 19_675);
    assert_eq!(date_days(0), 0);
    assert_eq!(date_days(MICROS_PER_DAY - 1), 0);
    assert_eq!(date_days(MICROS_PER_DAY), 1);
    assert_eq!(date_days(-1), 0);
    assert_eq!(date_days(-MICROS_PER_DAY), -1);
    assert_eq!(date_days(i64::MAX), (i64::MAX / MICROS_PER_DAY) as i32);
    assert_eq!(date_days(i64::MIN), (i64::MIN / MICROS_PER_DAY) as i32);
}

#[test]
fn span_kinds_and_status_codes() {
    let kinds = ["UNSPECIFIED", "INTERNAL", "SERVER", "CLIENT", "PRODUCER", "CONSUMER", "UNSPECIFIED"];
    for (kind, name) in kinds.iter().enumerate() {
        assert_eq!(span_kind(kind as i32), *name);
    }
    assert_eq!(span_kind(-1), "UNSPECIFIED");
    let code = |code: i32| Status { message: None, code }.code_name();
    assert_eq!(code(0), "UNSET");
    assert_eq!(code(1), "OK");
    assert_eq!(code(2), "ERROR");
    assert_eq!(code(3), "UNKNOWN");
    assert_eq!(code(-1), "UNKNOWN");
}

#[test]
fn buffers_are_flushed_at_their_limits() {
    assert!(!should_flush(1000, 999, 999, 9_999, 9_999, 9_999));
    assert!(should_flush(1000, 1000, 0, 0, 0, 0));
    assert!(should_flush(1000, 0, 1000, 0, 0, 0));
    assert!(should_flush(1000, 0, 0, 10_000, 0, 0));
    assert!(should_flush(1000, 0, 0, 0, 10_000, 0));
    assert!(should_flush(1000, 0, 0, 0, 0, 10_000));
    assert!(should_flush(0, 0, 0, 0, 0, 0));
}

#[test]
fn defaults_of_the_declarations() {
    assert_eq!(default_delay(), 60);
    assert_eq!(default_network_driver(), NetworkDriver::Bridge);
    assert!(!default_false());
    assert!(default_true());
    assert_eq!(Initialize::default(), Initialize::Immediately);
    assert_eq!(Restart::default(), Restart::No);
    assert_eq!(PullPolicy::default(), PullPolicy::OnStartup);
    assert_eq!(ProxyStrategy::default(), ProxyStrategy::HttpsOnly);
}

#[test]
fn proxy_blocks_are_compared_field_by_field() {
    let a = ProxySettings {
        host: "a".to_string(),
        path: Some("/x".to_string()),
        service_port: 1,
        cert_file: None,
        key_file: None,
    };
    let mut b = a.clone();
    assert!(a.same_as(&b));
    assert!(!a.has_manual_cert());
    b.service_port = 2;
    assert!(!a.same_as(&b));
    b = a.clone();
    b.path = None;
    assert!(!a.same_as(&b));
    b = a.clone();
    b.cert_file = Some("c".to_string());
    b.key_file = Some("k".to_string());
    assert!(!a.same_as(&b));
    assert!(b.has_manual_cert());
}

#[test]
fn names_are_read_back() {
    for h in [
        HealthStatus::Healthy,
        HealthStatus::Unhealthy,
        HealthStatus::Starting,
        HealthStatus::Unchecked,
    ] {
        assert_eq!(HealthStatus::from_name(h.as_str()), h);
    }
    assert_eq!(HealthStatus::from_name(""), HealthStatus::Unchecked);
    assert_eq!(HealthStatus::from_name("HEALTHY"), HealthStatus::Unchecked);
    for s in [
        ContainerState::Empty,
        ContainerState::Created,
        ContainerState::Running,
        ContainerState::Paused,
        ContainerState::Restarting,
        ContainerState::Removing,
        ContainerState::Exited,
        ContainerState::Dead,
        ContainerState::NotFound,
        ContainerState::Unknown,
    ] {
        assert_eq!(ContainerState::from_name(s.as_str()), s);
    }
    assert_eq!(ContainerState::from_name(""), ContainerState::Empty);
    assert_eq!(ContainerState::from_name("frozen"), ContainerState::Unknown);
}

#[test]
fn times_of_logs_and_spans() {
    use_times();
}

fn use_times() {
    assert_eq!(micros_of_nanos_text("1700000000123456789"), 1_700_000_000_123_456);
    assert_eq!(micros_of_nanos_text("999"), 0);
    assert_eq!(micros_of_nanos_text("-1999"), -1);
    assert_eq!(micros_of_nanos_text(""), 0);
    assert_eq!(micros_of_nanos_text("12x"), 0);
    assert_eq!(micros_of_nanos_text("99999999999999999999"), 0);
    assert_eq!(duration_ms(1_000_000, 3_500_000), 2);
    assert_eq!(duration_ms(3_500_000, 1_000_000), -2);
    assert_eq!(duration_ms(0, 999_999), 0);
    assert_eq!(duration_ms(i64::MIN, i64::MAX), 18_446_744_073_709);
    let attrs = vec![
        ("host".to_string(), Some("h".to_string())),
        ("service.name".to_string(), Some("first".to_string())),
        ("service.name".to_string(), None),
        ("service.name".to_string(), Some("web".to_string())),
        ("zone".to_string(), Some("z".to_string())),
    ];
    assert_eq!(service_name_of(&attrs), "web");
    assert_eq!(service_name_of(&vec![("service.name".to_string(), None)]), "unknown");
    assert_eq!(service_name_of(&vec![]), "unknown");
}
