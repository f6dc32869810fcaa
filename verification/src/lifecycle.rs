//! Running a service, one step at a time.
//!
//! To run a service its peers are waited for, its container is made anew
//! where that is called for, and the container is started. Each step asks the
//! runtime for one thing; what it answers decides the next step. The steps
//! are taken elsewhere. Here is which step follows which.

use crate::file::PullPolicy;
use crate::instance::{
    after_image_check, classify, outcome_of, ImageAction, Outcome, PollStep, Response,
    ServiceInstance, Verb,
};
use crate::manifest::ImageWatcherStatus;
use vstd::prelude::*;

verus! {

/// Seconds between two looks at the peers that a service waits for.
pub const PEER_WAIT_SECS: u64 = 1;

/// What a run is for.
#[derive(Debug, Clone, Copy, PartialEq, Eq, Structural)]
pub enum Goal {
    /// Wait for the peers, make the container anew if need be, start it.
    Run,
    /// Make the container anew and leave it at that.
    Recreate,
}

/// What a tick does about the trigger that fired, in order:
/// - on the first tick of a service that is started immediately, the
///   service is run;
/// - on a due schedule the container is made anew, whatever became of the
///   old one, and then run;
/// - a look at the image asks for nothing by itself: what it finds decides;
/// - else nothing is done.
pub open spec fn step_goals(step: PollStep) -> Seq<Goal> {
    match step {
        PollStep::RunOnStartup => seq![Goal::Run],
        PollStep::RunOnSchedule => seq![Goal::Recreate, Goal::Run],
        PollStep::CheckImage => Seq::<Goal>::empty(),
        PollStep::Idle => Seq::<Goal>::empty(),
    }
}

/// What a tick does about the trigger that fired, in order.
pub fn goals_of(step: PollStep) -> (r: Vec<Goal>)
    ensures
        r@ == step_goals(step),
{
    let mut out: Vec<Goal> = Vec::new();
    match step {
        PollStep::RunOnStartup => {
            out.push(Goal::Run);
        },
        PollStep::RunOnSchedule => {
            out.push(Goal::Recreate);
            out.push(Goal::Run);
        },
        PollStep::CheckImage => {},
        PollStep::Idle => {},
    }
    assert(out@ =~= step_goals(step));
    out
}

/// What is done about an image that was looked at, in order: a new image
/// has the container made anew and run; else nothing is done.
pub open spec fn image_goals(status: ImageWatcherStatus) -> Seq<Goal> {
    if status == ImageWatcherStatus::Updated {
        seq![Goal::Recreate, Goal::Run]
    } else {
        Seq::<Goal>::empty()
    }
}

/// What is done about an image that was looked at, in order.
pub fn goals_after_image(status: ImageWatcherStatus) -> (r: Vec<Goal>)
    ensures
        r@ == image_goals(status),
{
    let mut out: Vec<Goal> = Vec::new();
    match after_image_check(status) {
        ImageAction::RecreateThenRun => {
            out.push(Goal::Recreate);
            out.push(Goal::Run);
        },
        ImageAction::Nothing => {},
    }
    assert(out@ =~= image_goals(status));
    out
}

/// Where a run stands: what was asked for last.
#[derive(Debug, Clone, Copy, PartialEq, Eq, Structural)]
pub enum Phase {
    /// Nothing was asked for yet.
    Idle,
    /// The peers are being looked at.
    Gate,
    /// A second passes before the peers are looked at again.
    Waiting,
    /// The container is being looked for.
    Probe,
    Pulling,
    Stopping,
    Removing,
    Creating,
    /// The container is being attached to the additional network at this
    /// position of the declaration.
    Connecting(usize),
    Starting,
    /// The run is over.
    Finished,
}

/// How a run ended.
#[derive(Debug, Clone, Copy, PartialEq, Eq, Structural)]
pub enum RunResult {
    /// The container is started.
    Started,
    /// The container is made anew; it was not to be started.
    Recreated,
    /// The container could not be made.
    CreateFailed,
    /// The container could not be started.
    StartFailed,
}

/// What to do next.
#[derive(Debug, Clone, Copy, PartialEq, Eq, Structural)]
pub enum Action {
    /// Look at every peer that the service waits for.
    InspectPeers,
    /// Let `PEER_WAIT_SECS` pass.
    Sleep,
    /// Look for the service's own container.
    InspectContainer,
    Pull,
    Stop,
    Remove,
    Create,
    /// Attach the container to the additional network at this position.
    Connect(usize),
    Start,
    /// Nothing more: the run is over.
    Finish(RunResult),
    /// Nothing: what happened is not what the run waits for.
    Ignore,
}

/// What happened since the last step.
#[derive(Debug, Clone, Copy, PartialEq, Eq, Structural)]
pub enum Event {
    /// The run begins.
    Begin,
    /// The peers were looked at; whether all of them meet their conditions.
    Peers(bool),
    /// The second has passed.
    Slept,
    /// The container was looked for; whether it is missing.
    Container(bool),
    /// The runtime answered the last request.
    Answer(Outcome),
}

/// The step after the container is made, or was attached to the additional
/// network before position `k`: attach it to the network at `k` if there is
/// one, else start it or, if it is not to be started, end the run.
pub open spec fn after_create(goal: Goal, networks: usize, k: usize) -> (Phase, Action) {
    if k < networks {
        (Phase::Connecting(k), Action::Connect(k))
    } else if goal == Goal::Run {
        (Phase::Starting, Action::Start)
    } else {
        (Phase::Finished, Action::Finish(RunResult::Recreated))
    }
}

/// The step that follows when `event` happens in `phase`.
///
/// - A run begins with the peers: they are looked at, again and again with
///   a second between, until all meet their conditions. There is no limit to
///   the waiting. A run that only makes the container anew does not wait for
///   peers and begins with the pull.
/// - Then the container is looked for. It is made anew if it is missing or
///   if the image is pulled on every run; else it is started as it is.
/// - To make it anew the image is pulled, the container stopped and removed,
///   then created and attached to the additional networks. What the runtime
///   answers to the pull, the stop, the removal and the attaching does not
///   matter; only a failed creation ends the run.
/// - At last the container is started.
/// - An event that the phase does not wait for changes nothing.
pub open spec fn transition(
    goal: Goal,
    pull: PullPolicy,
    networks: usize,
    phase: Phase,
    event: Event,
) -> (Phase, Action) {
    match (phase, event) {
        (Phase::Idle, Event::Begin) => if goal == Goal::Run {
            (Phase::Gate, Action::InspectPeers)
        } else {
            (Phase::Pulling, Action::Pull)
        },
        (Phase::Gate, Event::Peers(ready)) => if ready {
            (Phase::Probe, Action::InspectContainer)
        } else {
            (Phase::Waiting, Action::Sleep)
        },
        (Phase::Waiting, Event::Slept) => (Phase::Gate, Action::InspectPeers),
        (Phase::Probe, Event::Container(missing)) => if missing || pull == PullPolicy::Always {
            (Phase::Pulling, Action::Pull)
        } else {
            (Phase::Starting, Action::Start)
        },
        (Phase::Pulling, Event::Answer(_)) => (Phase::Stopping, Action::Stop),
        (Phase::Stopping, Event::Answer(_)) => (Phase::Removing, Action::Remove),
        (Phase::Removing, Event::Answer(_)) => (Phase::Creating, Action::Create),
        (Phase::Creating, Event::Answer(outcome)) => if outcome == Outcome::Success {
            after_create(goal, networks, 0)
        } else {
            (Phase::Finished, Action::Finish(RunResult::CreateFailed))
        },
        (Phase::Connecting(k), Event::Answer(_)) => if k < networks {
            after_create(goal, networks, (k + 1) as usize)
        } else {
            after_create(goal, networks, networks)
        },
        (Phase::Starting, Event::Answer(outcome)) => if outcome == Outcome::Success {
            (Phase::Finished, Action::Finish(RunResult::Started))
        } else {
            (Phase::Finished, Action::Finish(RunResult::StartFailed))
        },
        _ => (phase, Action::Ignore),
    }
}

fn step_after_create(goal: Goal, networks: usize, k: usize) -> (r: (Phase, Action))
    ensures
        r == after_create(goal, networks, k),
{
    if k < networks {
        (Phase::Connecting(k), Action::Connect(k))
    } else {
        match goal {
            Goal::Run => (Phase::Starting, Action::Start),
            Goal::Recreate => (Phase::Finished, Action::Finish(RunResult::Recreated)),
        }
    }
}

fn is_success(outcome: Outcome) -> (r: bool)
    ensures
        r == (outcome == Outcome::Success),
{
    match outcome {
        Outcome::Success => true,
        _ => false,
    }
}

/// The step that follows when `event` happens in `phase`, for a service with
/// the pull policy `pull` and `networks` additional networks.
pub fn next_step(goal: Goal, pull: PullPolicy, networks: usize, phase: Phase, event: Event) -> (r: (
    Phase,
    Action,
))
    ensures
        r == transition(goal, pull, networks, phase, event),
{
    match phase {
        Phase::Idle => match event {
            Event::Begin => match goal {
                Goal::Run => (Phase::Gate, Action::InspectPeers),
                Goal::Recreate => (Phase::Pulling, Action::Pull),
            },
            _ => (phase, Action::Ignore),
        },
        Phase::Gate => match event {
            Event::Peers(ready) => if ready {
                (Phase::Probe, Action::InspectContainer)
            } else {
                (Phase::Waiting, Action::Sleep)
            },
            _ => (phase, Action::Ignore),
        },
        Phase::Waiting => match event {
            Event::Slept => (Phase::Gate, Action::InspectPeers),
            _ => (phase, Action::Ignore),
        },
        Phase::Probe => match event {
            Event::Container(missing) => {
                let always = match pull {
                    PullPolicy::Always => true,
                    PullPolicy::OnStartup => false,
                };
                if missing || always {
                    (Phase::Pulling, Action::Pull)
                } else {
                    (Phase::Starting, Action::Start)
                }
            },
            _ => (phase, Action::Ignore),
        },
        Phase::Pulling => match event {
            Event::Answer(_) => (Phase::Stopping, Action::Stop),
            _ => (phase, Action::Ignore),
        },
        Phase::Stopping => match event {
            Event::Answer(_) => (Phase::Removing, Action::Remove),
            _ => (phase, Action::Ignore),
        },
        Phase::Removing => match event {
            Event::Answer(_) => (Phase::Creating, Action::Create),
            _ => (phase, Action::Ignore),
        },
        Phase::Creating => match event {
            Event::Answer(outcome) => if is_success(outcome) {
                step_after_create(goal, networks, 0)
            } else {
                (Phase::Finished, Action::Finish(RunResult::CreateFailed))
            },
            _ => (phase, Action::Ignore),
        },
        Phase::Connecting(k) => match event {
            Event::Answer(_) => if k < networks {
                step_after_create(goal, networks, k + 1)
            } else {
                step_after_create(goal, networks, networks)
            },
            _ => (phase, Action::Ignore),
        },
        Phase::Starting => match event {
            Event::Answer(outcome) => if is_success(outcome) {
                (Phase::Finished, Action::Finish(RunResult::Started))
            } else {
                (Phase::Finished, Action::Finish(RunResult::StartFailed))
            },
            _ => (phase, Action::Ignore),
        },
        Phase::Finished => (phase, Action::Ignore),
    }
}

/// A request to the runtime to make a container.
#[derive(Debug, Clone, PartialEq, Eq)]
pub struct CreateRequest {
    /// The words that the runtime is told.
    pub words: Vec<String>,
    /// The directory in which it is told them: relative paths among the
    /// words are resolved against it.
    pub directory: String,
}

impl ServiceInstance {
    /// The next step of running the service: its peers are waited for, its
    /// container is made anew if it is missing or the image is pulled on
    /// every run, and the container is started.
    pub fn run_container(&self, phase: Phase, event: Event) -> (r: (Phase, Action))
        ensures
            r == transition(
                Goal::Run,
                self.config.dispenser.pull,
                self.config.network@.len() as usize,
                phase,
                event,
            ),
    {
        next_step(Goal::Run, self.config.dispenser.pull, self.config.network.len(), phase, event)
    }

    /// The next step of making the container of the service anew: the image
    /// is pulled, the container stopped, removed, created and attached to
    /// its additional networks.
    pub fn recreate_container(&self, phase: Phase, event: Event) -> (r: (Phase, Action))
        ensures
            r == transition(
                Goal::Recreate,
                self.config.dispenser.pull,
                self.config.network@.len() as usize,
                phase,
                event,
            ),
    {
        next_step(
            Goal::Recreate,
            self.config.dispenser.pull,
            self.config.network.len(),
            phase,
            event,
        )
    }

    /// What is to be done when this service replaces `other` on a reload:
    /// the container is made anew if it is missing or the declarations
    /// differ; else nothing.
    pub fn recreate_if_required(&self, other: &ServiceInstance, container_missing: bool) -> (r:
        Option<Goal>)
        ensures
            r == if crate::instance::recreate_required(
                self.config.deep_view(),
                other.config.deep_view(),
                container_missing,
            ) {
                Some(Goal::Recreate)
            } else {
                None
            },
    {
        if self.requires_recreate(other, container_missing) {
            Some(Goal::Recreate)
        } else {
            None
        }
    }

    /// The request that makes the container of the service: the words that
    /// the runtime is told, with the service's address on the dispenser
    /// network, and the directory of the declaration, in which it is told
    /// them. A volume source that is a relative path is written as declared
    /// and so stands for a path below that directory.
    pub fn create_container(&self) -> (r: CreateRequest)
        ensures
            crate::text::strings_view(r.words@) == crate::command::create_args(
                self.config.deep_view(),
                self.assigned_ip.bits,
            ),
            r.directory@ == self.dir@,
    {
        CreateRequest {
            words: crate::command::create_container_args(&self.config, self.assigned_ip),
            directory: self.dir.clone(),
        }
    }

    /// The words that attach the container of the service to its additional
    /// network at position `k`.
    pub fn connect_network(&self, k: usize) -> (args: Vec<String>)
        requires
            k < self.config.network@.len(),
        ensures
            crate::text::strings_view(args@) == crate::command::connect_args(
                self.config.network@[k as int].name@,
                self.config.service.name@,
            ),
    {
        crate::command::connect_network_args(
            self.config.network[k].name.as_str(),
            self.config.service.name.as_str(),
        )
    }

    /// What the runtime's answer to a pull amounts to.
    pub fn pull_image(response: Response) -> (r: Outcome)
        ensures
            r == outcome_of(Verb::Pull, response),
    {
        classify(Verb::Pull, response)
    }

    /// What the runtime's answer to a stop amounts to. Stopping a container
    /// that has stopped, or is gone, is a success.
    pub fn stop_container(response: Response) -> (r: Outcome)
        ensures
            r == outcome_of(Verb::Stop, response),
    {
        classify(Verb::Stop, response)
    }

    /// What the runtime's answer to a removal amounts to. Removing a
    /// container that is gone is a success.
    pub fn remove_container(response: Response) -> (r: Outcome)
        ensures
            r == outcome_of(Verb::Remove, response),
    {
        classify(Verb::Remove, response)
    }

    /// What the runtime's answer to a start amounts to. Starting a container
    /// that runs is a success; starting one that is gone is not.
    pub fn start_container(response: Response) -> (r: Outcome)
        ensures
            r == outcome_of(Verb::Start, response),
    {
        classify(Verb::Start, response)
    }
}

/// A service is not looked for, let alone started, before all its peers meet
/// their conditions: the wait for them ends only on the news that they do.
pub proof fn lemma_gate_holds_until_peers_are_ready(
    goal: Goal,
    pull: PullPolicy,
    networks: usize,
    event: Event,
)
    ensures
        transition(goal, pull, networks, Phase::Gate, event).0 == Phase::Probe <==> event
            == Event::Peers(true),
        transition(goal, pull, networks, Phase::Gate, event).0 == Phase::Probe || transition(
            goal,
            pull,
            networks,
            Phase::Gate,
            event,
        ).0 == Phase::Gate || transition(goal, pull, networks, Phase::Gate, event).0
            == Phase::Waiting,
{
}

/// Where a run stands after the events `events`, one after the other, have
/// happened to it in `phase`.
pub open spec fn phase_after(
    goal: Goal,
    pull: PullPolicy,
    networks: usize,
    phase: Phase,
    events: Seq<Event>,
) -> Phase
    decreases events.len(),
{
    if events.len() == 0 {
        phase
    } else {
        phase_after(
            goal,
            pull,
            networks,
            transition(goal, pull, networks, phase, events[0]).0,
            events.drop_first(),
        )
    }
}

/// Whether a run in this phase still waits for the peers of its service.
pub open spec fn waits_for_peers(phase: Phase) -> bool {
    phase == Phase::Idle || phase == Phase::Gate || phase == Phase::Waiting
}

/// Whatever happens to a run, and in whatever order: it does not get beyond
/// waiting for the peers unless it is told that all of them meet their
/// conditions. So no container is looked for, made or started before.
pub proof fn lemma_no_run_without_ready_peers(
    pull: PullPolicy,
    networks: usize,
    phase: Phase,
    events: Seq<Event>,
)
    requires
        waits_for_peers(phase),
        !waits_for_peers(phase_after(Goal::Run, pull, networks, phase, events)),
    ensures
        events.contains(Event::Peers(true)),
    decreases events.len(),
{
    if events.len() > 0 {
        let next = transition(Goal::Run, pull, networks, phase, events[0]).0;
        if waits_for_peers(next) {
            lemma_no_run_without_ready_peers(pull, networks, next, events.drop_first());
            let rest = events.drop_first();
            let k = choose|k: int| 0 <= k < rest.len() && rest[k] == Event::Peers(true);
            assert(events[k + 1] == Event::Peers(true));
        } else {
            assert(events[0] == Event::Peers(true));
        }
    }
}

/// Once a run is over nothing that happens sets it going again.
pub proof fn lemma_a_finished_run_stays_finished(
    goal: Goal,
    pull: PullPolicy,
    networks: usize,
    events: Seq<Event>,
)
    ensures
        phase_after(goal, pull, networks, Phase::Finished, events) == Phase::Finished,
    decreases events.len(),
{
    if events.len() > 0 {
        lemma_a_finished_run_stays_finished(goal, pull, networks, events.drop_first());
    }
}

/// Only a failed creation ends the making of a container: after the pull,
/// the stop and the removal the run goes on whatever the runtime answered.
pub proof fn lemma_only_create_failure_aborts(
    goal: Goal,
    pull: PullPolicy,
    networks: usize,
    outcome: Outcome,
)
    ensures
        transition(goal, pull, networks, Phase::Pulling, Event::Answer(outcome)) == (
            Phase::Stopping,
            Action::Stop,
        ),
        transition(goal, pull, networks, Phase::Stopping, Event::Answer(outcome)) == (
            Phase::Removing,
            Action::Remove,
        ),
        transition(goal, pull, networks, Phase::Removing, Event::Answer(outcome)) == (
            Phase::Creating,
            Action::Create,
        ),
        outcome != Outcome::Success ==> transition(
            goal,
            pull,
            networks,
            Phase::Creating,
            Event::Answer(outcome),
        ) == (Phase::Finished, Action::Finish(RunResult::CreateFailed)),
{
}

/// A container that is there is started as it is unless the image is pulled
/// on every run; a missing one is always made first.
pub proof fn lemma_recreate_before_run(goal: Goal, pull: PullPolicy, networks: usize, missing: bool)
    ensures
        transition(goal, pull, networks, Phase::Probe, Event::Container(missing)).1 == (if missing
            || pull == PullPolicy::Always {
            Action::Pull
        } else {
            Action::Start
        }),
{
}

} // verus!
