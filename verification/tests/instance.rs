use dispenser::file::{DependsOnCondition, Initialize};
use dispenser::instance::{
    after_image_check, classify, container_does_not_exist, dependency_met,
    parse_container_status, poll_step, ContainerStatus, ImageAction, Outcome, PollStep, Response,
    Verb, NOT_FOUND, NOT_MODIFIED,
};
use dispenser::text::trim;
use dispenser::manifest::ImageWatcherStatus;
use dispenser::telemetry::types::HealthStatus;

#[test]
fn status_report_running() {
    assert_eq!(parse_container_status(true, "running,0\n"), ContainerStatus::Running);
    assert_eq!(parse_container_status(true, "  running,137  "), ContainerStatus::Running);
}

#[test]
fn status_report_exited_with_code() {
    assert_eq!(parse_container_status(true, "exited,0\n"), ContainerStatus::Exited(0));
    assert_eq!(parse_container_status(true, "exited,137"), ContainerStatus::Exited(137));
    assert_eq!(parse_container_status(true, "created,-3"), ContainerStatus::Exited(-3));
}

#[test]
fn status_report_unreadable_code_is_minus_one() {
    assert_eq!(parse_container_status(true, "exited,abc"), ContainerStatus::Exited(-1));
    assert_eq!(parse_container_status(true, "exited,"), ContainerStatus::Exited(-1));
    assert_eq!(parse_container_status(true, "exited,99999999999"), ContainerStatus::Exited(-1));
    assert_eq!(parse_container_status(true, "exited, 1"), ContainerStatus::Exited(-1));
}

#[test]
fn status_report_not_found() {
    assert_eq!(parse_container_status(false, "running,0"), ContainerStatus::NotFound);
    assert_eq!(parse_container_status(true, ""), ContainerStatus::NotFound);
    assert_eq!(parse_container_status(true, "running"), ContainerStatus::NotFound);
    assert_eq!(parse_container_status(true, "a,b,c"), ContainerStatus::NotFound);
}

#[test]
fn trim_agrees_with_std() {
    for s in ["", " ", "  a b  ", "\t\nx\r\n", "\u{a0}x\u{3000}", "x", "\u{2003}\u{85}"] {
        let v: Vec<char> = s.chars().collect();
        let got: String = trim(&v).into_iter().collect();
        assert_eq!(got, s.trim(), "input {:?}", s);
    }
}

#[test]
fn white_space_is_what_std_says() {
    for code in 0u32..0x3100 {
        if let Some(c) = char::from_u32(code) {
            let got = trim(&vec![c]).is_empty();
            assert_eq!(got, c.is_whitespace(), "U+{:04X}", code);
        }
    }
}

#[test]
fn depends_on_started() {
    let c = DependsOnCondition::ServiceStarted;
    assert!(dependency_met(c, ContainerStatus::Running, HealthStatus::Unhealthy));
    assert!(!dependency_met(c, ContainerStatus::Exited(0), HealthStatus::Unchecked));
    assert!(!dependency_met(c, ContainerStatus::NotFound, HealthStatus::Unchecked));
}

#[test]
fn depends_on_completed() {
    let c = DependsOnCondition::ServiceCompleted;
    assert!(dependency_met(c, ContainerStatus::Exited(0), HealthStatus::Unchecked));
    assert!(!dependency_met(c, ContainerStatus::Exited(1), HealthStatus::Unchecked));
    assert!(!dependency_met(c, ContainerStatus::Running, HealthStatus::Healthy));
}

#[test]
fn depends_on_healthy() {
    let c = DependsOnCondition::ServiceHealthy;
    assert!(dependency_met(c, ContainerStatus::Running, HealthStatus::Healthy));
    assert!(dependency_met(c, ContainerStatus::Running, HealthStatus::Unchecked));
    assert!(!dependency_met(c, ContainerStatus::Running, HealthStatus::Starting));
    assert!(!dependency_met(c, ContainerStatus::Running, HealthStatus::Unhealthy));
    assert!(!dependency_met(c, ContainerStatus::Exited(0), HealthStatus::Healthy));
}

#[test]
fn first_tick_of_an_immediate_service_runs_it() {
    assert_eq!(
        poll_step(true, Initialize::Immediately, true, true, true, true),
        PollStep::RunOnStartup
    );
}

#[test]
fn first_tick_on_trigger_with_cron_and_watch() {
    // No startup run; a due schedule runs the service; else nothing.
    assert_eq!(
        poll_step(true, Initialize::OnTrigger, true, true, false, true),
        PollStep::RunOnSchedule
    );
    assert_eq!(poll_step(true, Initialize::OnTrigger, false, true, false, true), PollStep::Idle);
    // On a later tick after the delay the image decides.
    assert_eq!(
        poll_step(false, Initialize::OnTrigger, false, true, true, true),
        PollStep::CheckImage
    );
}

#[test]
fn schedule_comes_before_the_image() {
    assert_eq!(
        poll_step(false, Initialize::Immediately, true, true, true, true),
        PollStep::RunOnSchedule
    );
}

#[test]
fn image_is_checked_only_when_watched_and_polled() {
    assert_eq!(poll_step(false, Initialize::Immediately, false, false, true, true), PollStep::Idle);
    assert_eq!(poll_step(false, Initialize::Immediately, false, true, false, true), PollStep::Idle);
    assert_eq!(poll_step(false, Initialize::Immediately, false, true, true, false), PollStep::Idle);
}

#[test]
fn only_a_new_image_is_acted_on() {
    assert_eq!(after_image_check(ImageWatcherStatus::Updated), ImageAction::RecreateThenRun);
    assert_eq!(after_image_check(ImageWatcherStatus::NotUpdated), ImageAction::Nothing);
    assert_eq!(after_image_check(ImageWatcherStatus::Deleted), ImageAction::Nothing);
}

#[test]
fn stop_already_stopped_is_success() {
    assert_eq!(classify(Verb::Stop, Response::Status(NOT_MODIFIED)), Outcome::Success);
    assert_eq!(classify(Verb::Stop, Response::Status(NOT_FOUND)), Outcome::Success);
}

#[test]
fn remove_already_removed_is_success() {
    assert_eq!(classify(Verb::Remove, Response::Status(NOT_FOUND)), Outcome::Success);
    assert_eq!(classify(Verb::Remove, Response::Status(NOT_MODIFIED)), Outcome::Failure);
}

#[test]
fn start_already_running_is_success_but_missing_is_not() {
    assert_eq!(classify(Verb::Start, Response::Status(NOT_MODIFIED)), Outcome::Success);
    assert_eq!(classify(Verb::Start, Response::Status(NOT_FOUND)), Outcome::Failure);
}

#[test]
fn other_answers() {
    for verb in [Verb::Pull, Verb::Create, Verb::Start, Verb::Stop, Verb::Remove, Verb::Inspect] {
        assert_eq!(classify(verb, Response::Done), Outcome::Success);
        assert_eq!(classify(verb, Response::Failed), Outcome::Failure);
        assert_eq!(classify(verb, Response::Status(500)), Outcome::Failure);
    }
    assert_eq!(classify(Verb::Inspect, Response::Status(404)), Outcome::Absent);
    assert_eq!(classify(Verb::Pull, Response::Status(404)), Outcome::Failure);
    assert_eq!(classify(Verb::Create, Response::Status(304)), Outcome::Failure);
}

#[test]
fn a_container_is_missing_unless_the_inspection_succeeded() {
    assert!(!container_does_not_exist(Response::Done));
    assert!(container_does_not_exist(Response::Status(404)));
    assert!(container_does_not_exist(Response::Status(500)));
    assert!(container_does_not_exist(Response::Failed));
}
