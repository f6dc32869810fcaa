//! One service and its container: what is observed of it, and what is done
//! about it on each tick.
//!
//! The runtime is asked and told things elsewhere. Here is what follows from
//! its answers: whether the peers a service waits for are ready, which
//! trigger fires on a tick, whether the container has to be made anew, and
//! how the runtime's answers to each request count.

use crate::atomic_socket::Ipv4Addr;
use crate::cron_watcher::CronWatcher;
use crate::file::{DependsOnCondition, Initialize, PullPolicy, ServiceFile, ServiceFileView};
use crate::manifest::{ImageWatcher, ImageWatcherStatus};
use crate::telemetry::types::HealthStatus;
use crate::text::{chars_eq, chars_of, find_char, parse_i64, slice_of, trim, trimmed};
use vstd::prelude::*;

verus! {

/// What the runtime says of a container.
#[derive(Debug, Clone, Copy, PartialEq, Eq, Structural)]
pub enum ContainerStatus {
    Running,
    /// Not running; the code it exited with.
    Exited(i32),
    NotFound,
}

/// The exit code that a text writes: a signed decimal number of 32 bits, and
/// -1 for any other text.
pub open spec fn exit_code_of(text: Seq<char>) -> int {
    match crate::text::signed_decimal(text, i32::MIN as int, i32::MAX as int) {
        Some(code) => code,
        None => -1,
    }
}

/// What a status report says. The report is the container's state and its
/// exit code with a comma between them, white space around it ignored:
/// - the state `running`: the container runs;
/// - another state: it has exited with the code;
/// - no comma, or more than one: the container is not there.
pub open spec fn status_of_report(report: Seq<char>) -> ContainerStatus {
    let line = trimmed(report);
    match line.index_of_first(',') {
        Some(comma) => {
            let state = line.subrange(0, comma);
            let code = line.subrange(comma + 1, line.len() as int);
            if code.contains(',') {
                ContainerStatus::NotFound
            } else if state == "running"@ {
                ContainerStatus::Running
            } else {
                ContainerStatus::Exited(exit_code_of(code) as i32)
            }
        },
        None => ContainerStatus::NotFound,
    }
}

/// The status of a container, from the runtime's answer to an inspection.
/// Where the inspection failed the container is not there.
pub fn parse_container_status(success: bool, report: &str) -> (r: ContainerStatus)
    ensures
        r == if success {
            status_of_report(report@)
        } else {
            ContainerStatus::NotFound
        },
{
    if !success {
        return ContainerStatus::NotFound;
    }
    let all = chars_of(report);
    let line = trim(&all);
    match find_char(&line, ',') {
        Some(comma) => {
            proof {
                line@.index_of_first_ensures(',');
            }
            let state = slice_of(&line, 0, comma);
            let code = slice_of(&line, comma + 1, line.len());
            if find_char(&code, ',').is_some() {
                proof {
                    code@.index_of_first_ensures(',');
                }
                return ContainerStatus::NotFound;
            }
            proof {
                code@.index_of_first_ensures(',');
            }
            let running = chars_of("running");
            if chars_eq(&state, &running) {
                ContainerStatus::Running
            } else {
                let exit: i32 = match parse_i64(&code) {
                    Some(n) => if -0x8000_0000 <= n && n <= 0x7FFF_FFFF {
                        n as i32
                    } else {
                        -1
                    },
                    None => -1,
                };
                ContainerStatus::Exited(exit)
            }
        },
        None => {
            proof {
                line@.index_of_first_ensures(',');
            }
            ContainerStatus::NotFound
        },
    }
}

/// Whether a peer in this state meets the condition that a service waits for:
/// - started: the peer runs;
/// - completed: the peer has exited with code 0;
/// - healthy: the peer runs and is healthy or has no health check.
pub open spec fn condition_met(
    condition: DependsOnCondition,
    status: ContainerStatus,
    health: HealthStatus,
) -> bool {
    match condition {
        DependsOnCondition::ServiceStarted => status == ContainerStatus::Running,
        DependsOnCondition::ServiceCompleted => status == ContainerStatus::Exited(0),
        DependsOnCondition::ServiceHealthy => status == ContainerStatus::Running && (health
            == HealthStatus::Healthy || health == HealthStatus::Unchecked),
    }
}

/// Whether a peer in this state meets the condition.
pub fn dependency_met(condition: DependsOnCondition, status: ContainerStatus, health: HealthStatus) -> (r:
    bool)
    ensures
        r == condition_met(condition, status, health),
{
    match condition {
        DependsOnCondition::ServiceStarted => match status {
            ContainerStatus::Running => true,
            _ => false,
        },
        DependsOnCondition::ServiceCompleted => match status {
            ContainerStatus::Exited(code) => code == 0,
            _ => false,
        },
        DependsOnCondition::ServiceHealthy => match status {
            ContainerStatus::Running => match health {
                HealthStatus::Healthy => true,
                HealthStatus::Unchecked => true,
                _ => false,
            },
            _ => false,
        },
    }
}

/// What was observed of one peer: its status and health, or nothing where
/// the runtime could not be asked.
pub type Observation = Option<(ContainerStatus, HealthStatus)>;

/// Whether every peer meets its condition. A peer that could not be observed
/// meets none.
pub open spec fn all_conditions_met(
    depends_on: Seq<(String, DependsOnCondition)>,
    observed: Seq<Observation>,
) -> bool {
    forall|i: int|
        0 <= i < depends_on.len() ==> match #[trigger] observed[i] {
            Some((status, health)) => condition_met(depends_on[i].1, status, health),
            None => false,
        }
}

/// What makes a service run on a tick.
#[derive(Debug, Clone, Copy, PartialEq, Eq, Structural)]
pub enum PollStep {
    /// Start the service: this is the first tick of a service that is
    /// started immediately.
    RunOnStartup,
    /// Run the service: its schedule is due.
    RunOnSchedule,
    /// Look for a new image, and make the container anew if there is one.
    CheckImage,
    /// Nothing to do.
    Idle,
}

/// Which trigger fires on a tick, the first that applies:
/// 1. the first tick of a service that is started immediately;
/// 2. a schedule that is due;
/// 3. an image that is watched, on a tick on which images are polled.
/// `cron_due` says whether the service has a schedule and it is due.
pub open spec fn poll_step_of(
    init: bool,
    initialize: Initialize,
    cron_due: bool,
    watch: bool,
    poll_images: bool,
    has_image_watcher: bool,
) -> PollStep {
    if init && initialize == Initialize::Immediately {
        PollStep::RunOnStartup
    } else if cron_due {
        PollStep::RunOnSchedule
    } else if watch && poll_images && has_image_watcher {
        PollStep::CheckImage
    } else {
        PollStep::Idle
    }
}

/// Which trigger fires on a tick.
pub fn poll_step(
    init: bool,
    initialize: Initialize,
    cron_due: bool,
    watch: bool,
    poll_images: bool,
    has_image_watcher: bool,
) -> (r: PollStep)
    ensures
        r == poll_step_of(init, initialize, cron_due, watch, poll_images, has_image_watcher),
{
    if init && initialize == Initialize::Immediately {
        PollStep::RunOnStartup
    } else if cron_due {
        PollStep::RunOnSchedule
    } else if watch && poll_images && has_image_watcher {
        PollStep::CheckImage
    } else {
        PollStep::Idle
    }
}

/// What is done about an image that was looked at.
#[derive(Debug, Clone, Copy, PartialEq, Eq, Structural)]
pub enum ImageAction {
    /// Make the container anew from the new image, then run it.
    RecreateThenRun,
    /// Nothing: the image is the same, or could not be had.
    Nothing,
}

/// What is done after a look at the image: only a new image is acted on.
pub fn after_image_check(status: ImageWatcherStatus) -> (r: ImageAction)
    ensures
        r == if status == ImageWatcherStatus::Updated {
            ImageAction::RecreateThenRun
        } else {
            ImageAction::Nothing
        },
{
    match status {
        ImageWatcherStatus::Updated => ImageAction::RecreateThenRun,
        ImageWatcherStatus::Deleted => ImageAction::Nothing,
        ImageWatcherStatus::NotUpdated => ImageAction::Nothing,
    }
}

/// A request to the runtime about a container or its image.
#[derive(Debug, Clone, Copy, PartialEq, Eq, Structural)]
pub enum Verb {
    Pull,
    Create,
    Start,
    Stop,
    Remove,
    Inspect,
}

/// How the runtime answered a request.
#[derive(Debug, Clone, Copy, PartialEq, Eq, Structural)]
pub enum Response {
    /// It did as asked.
    Done,
    /// It refused, with this status code.
    Status(u16),
    /// It could not be reached, or answered with no status.
    Failed,
}

/// What an answer amounts to.
#[derive(Debug, Clone, Copy, PartialEq, Eq, Structural)]
pub enum Outcome {
    /// The request is met: what was asked for holds now.
    Success,
    /// The container asked about is not there. Only an inspection says so.
    Absent,
    /// The request failed.
    Failure,
}

/// The status code by which the runtime says that nothing was there to act on.
pub const NOT_FOUND: u16 = 404;

/// The status code by which the runtime says that nothing had to change.
pub const NOT_MODIFIED: u16 = 304;

/// What an answer of the runtime amounts to, for each request:
/// - an answer without error is a success;
/// - "not modified" is a success for start and stop: the container runs, or
///   has stopped, already;
/// - "not found" is a success for stop and remove: there is nothing left to
///   stop or remove. For an inspection it says that the container is absent.
///   For start it is a failure;
/// - every other answer is a failure.
pub open spec fn outcome_of(verb: Verb, response: Response) -> Outcome {
    match response {
        Response::Done => Outcome::Success,
        Response::Failed => Outcome::Failure,
        Response::Status(code) => if code == NOT_MODIFIED && (verb == Verb::Start || verb
            == Verb::Stop) {
            Outcome::Success
        } else if code == NOT_FOUND && (verb == Verb::Stop || verb == Verb::Remove) {
            Outcome::Success
        } else if code == NOT_FOUND && verb == Verb::Inspect {
            Outcome::Absent
        } else {
            Outcome::Failure
        },
    }
}

/// What an answer of the runtime amounts to.
pub fn classify(verb: Verb, response: Response) -> (r: Outcome)
    ensures
        r == outcome_of(verb, response),
{
    match response {
        Response::Done => Outcome::Success,
        Response::Failed => Outcome::Failure,
        Response::Status(code) => {
            let modifies = match verb {
                Verb::Start => true,
                Verb::Stop => true,
                _ => false,
            };
            let clears = match verb {
                Verb::Stop => true,
                Verb::Remove => true,
                _ => false,
            };
            let asks = match verb {
                Verb::Inspect => true,
                _ => false,
            };
            if code == NOT_MODIFIED && modifies {
                Outcome::Success
            } else if code == NOT_FOUND && clears {
                Outcome::Success
            } else if code == NOT_FOUND && asks {
                Outcome::Absent
            } else {
                Outcome::Failure
            }
        },
    }
}

/// Stopping a container that has stopped already, and removing one that is
/// gone already, are successes that change nothing.
pub proof fn lemma_stop_and_remove_are_idempotent()
    ensures
        outcome_of(Verb::Stop, Response::Status(NOT_MODIFIED)) == Outcome::Success,
        outcome_of(Verb::Stop, Response::Status(NOT_FOUND)) == Outcome::Success,
        outcome_of(Verb::Remove, Response::Status(NOT_FOUND)) == Outcome::Success,
{
}

/// A container that is not there cannot be started: for start, "not found"
/// is no success.
pub proof fn lemma_start_needs_the_container()
    ensures
        outcome_of(Verb::Start, Response::Status(NOT_FOUND)) == Outcome::Failure,
        outcome_of(Verb::Start, Response::Status(NOT_MODIFIED)) == Outcome::Success,
{
}

/// Whether the container of a service is missing, from the answer to an
/// inspection: it is unless the inspection succeeded.
pub fn container_does_not_exist(response: Response) -> (r: bool)
    ensures
        r == (outcome_of(Verb::Inspect, response) != Outcome::Success),
{
    match classify(Verb::Inspect, response) {
        Outcome::Success => false,
        _ => true,
    }
}

/// Whether the container of a service has to be made anew on a reload: it
/// has if it is missing, or if the new declaration differs from the old one
/// in anything.
pub open spec fn recreate_required(new: ServiceFileView, old: ServiceFileView, container_missing: bool) -> bool {
    container_missing || new != old
}

/// A service whose declaration did not change needs no new container on a
/// reload, as long as its container is there.
pub proof fn lemma_equal_declarations_need_no_recreate(new: ServiceFileView, old: ServiceFileView)
    requires
        new == old,
    ensures
        !recreate_required(new, old, false),
{
}

/// A service with its place on the network and its watchers.
pub struct ServiceInstance {
    /// The directory of the declaration; relative paths start from it.
    pub dir: String,
    /// The declaration. It never changes.
    pub config: ServiceFile,
    /// The address on the dispenser network. It never changes.
    pub assigned_ip: Ipv4Addr,
    pub cron_watcher: Option<CronWatcher>,
    pub image_watcher: Option<ImageWatcher>,
}

impl ServiceInstance {
    /// Whether the container has to be made anew when this service replaces
    /// `other` on a reload: it has if the container is missing or if the two
    /// declarations differ in anything.
    pub fn requires_recreate(&self, other: &ServiceInstance, container_missing: bool) -> (r: bool)
        ensures
            r == recreate_required(
                self.config.deep_view(),
                other.config.deep_view(),
                container_missing,
            ),
    {
        if container_missing {
            return true;
        }
        !self.config.same_as(&other.config)
    }

    /// Whether the container has to be made anew before a run: it has if the
    /// image is pulled on every run or if the container is missing.
    pub fn recreate_before_run(&self, container_missing: bool) -> (r: bool)
        ensures
            r == (self.config.dispenser.pull == PullPolicy::Always || container_missing),
    {
        match self.config.dispenser.pull {
            PullPolicy::Always => true,
            PullPolicy::OnStartup => container_missing,
        }
    }

    /// Whether every peer that this service waits for meets its condition.
    /// `observed[i]` is what was observed of the peer `depends_on[i]`.
    pub fn dependencies_met(&self, observed: &Vec<Observation>) -> (r: bool)
        requires
            observed@.len() == self.config.depends_on@.len(),
        ensures
            r == all_conditions_met(self.config.depends_on@, observed@),
    {
        let deps = &self.config.depends_on;
        let mut i: usize = 0;
        while i < deps.len()
            invariant
                i <= deps.len(),
                deps == &self.config.depends_on,
                observed@.len() == deps@.len(),
                forall|j: int|
                    0 <= j < i ==> match #[trigger] observed@[j] {
                        Some((status, health)) => condition_met(deps@[j].1, status, health),
                        None => false,
                    },
            decreases deps.len() - i,
        {
            let met = match observed[i] {
                Some((status, health)) => dependency_met(deps[i].1, status, health),
                None => false,
            };
            if !met {
                return false;
            }
            i += 1;
        }
        true
    }

    /// Which trigger fires on this tick. The schedule is asked only where
    /// the startup trigger does not fire, and asking it uses up the instant
    /// that is due, so whether it is due cannot be known beforehand: the result
    /// is `poll_step_of` for what the schedule said.
    pub fn poll(&self, poll_images: bool, init: bool) -> (r: PollStep)
        ensures
            init && self.config.dispenser.initialize == Initialize::Immediately ==> r
                == PollStep::RunOnStartup,
            self.cron_watcher is None ==> r == poll_step_of(
                init,
                self.config.dispenser.initialize,
                false,
                self.config.dispenser.watch,
                poll_images,
                self.image_watcher is Some,
            ),
            r == poll_step_of(
                init,
                self.config.dispenser.initialize,
                true,
                self.config.dispenser.watch,
                poll_images,
                self.image_watcher is Some,
            ) || r == poll_step_of(
                init,
                self.config.dispenser.initialize,
                false,
                self.config.dispenser.watch,
                poll_images,
                self.image_watcher is Some,
            ),
    {
        let initialize = self.config.dispenser.initialize;
        let watch = self.config.dispenser.watch;
        let watched = self.image_watcher.is_some();
        if init && initialize == Initialize::Immediately {
            let r = poll_step(init, initialize, false, watch, poll_images, watched);
            assert(r == poll_step_of(init, initialize, false, watch, poll_images, watched));
            return r;
        }
        let cron_due = match &self.cron_watcher {
            Some(watcher) => watcher.is_ready(),
            None => false,
        };
        let r = poll_step(init, initialize, cron_due, watch, poll_images, watched);
        assert(r == poll_step_of(init, initialize, cron_due, watch, poll_images, watched));
        r
    }
}

} // verus!
