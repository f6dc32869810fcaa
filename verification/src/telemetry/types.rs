//! The vocabularies of telemetry events, each with the name under which a
//! value is stored.

use crate::text::str_eq;
use vstd::prelude::*;

verus! {

/// What made the manager deploy a service.
#[derive(Debug, Clone, Copy, PartialEq, Eq, Structural)]
pub enum TriggerType {
    Startup,
    Cron,
    ImageUpdate,
    ManualReload,
}

pub open spec fn trigger_name(t: TriggerType) -> Seq<char> {
    match t {
        TriggerType::Startup => "startup"@,
        TriggerType::Cron => "cron"@,
        TriggerType::ImageUpdate => "image_update"@,
        TriggerType::ManualReload => "manual_reload"@,
    }
}

impl TriggerType {
    /// The name under which the trigger is stored.
    pub fn as_str(&self) -> (r: &'static str)
        ensures
            r@ == trigger_name(*self),
    {
        match self {
            TriggerType::Startup => "startup",
            TriggerType::Cron => "cron",
            TriggerType::ImageUpdate => "image_update",
            TriggerType::ManualReload => "manual_reload",
        }
    }
}

impl AsRef<str> for TriggerType {
    fn as_ref(&self) -> (r: &str)
        ensures
            r@ == trigger_name(*self),
    {
        self.as_str()
    }
}

/// The state of a container: the runtime's own states, and two for a
/// container that is not there or whose state is not understood.
#[derive(Debug, Clone, Copy, PartialEq, Eq, Structural)]
pub enum ContainerState {
    Empty,
    Created,
    Running,
    Paused,
    Restarting,
    Removing,
    Exited,
    Dead,
    NotFound,
    Unknown,
}

pub open spec fn state_name(s: ContainerState) -> Seq<char> {
    match s {
        ContainerState::Empty => "empty"@,
        ContainerState::Created => "created"@,
        ContainerState::Running => "running"@,
        ContainerState::Paused => "paused"@,
        ContainerState::Restarting => "restarting"@,
        ContainerState::Removing => "removing"@,
        ContainerState::Exited => "exited"@,
        ContainerState::Dead => "dead"@,
        ContainerState::NotFound => "not_found"@,
        ContainerState::Unknown => "unknown"@,
    }
}

impl ContainerState {
    /// The name under which the state is stored.
    pub fn as_str(&self) -> (r: &'static str)
        ensures
            r@ == state_name(*self),
    {
        match self {
            ContainerState::Empty => "empty",
            ContainerState::Created => "created",
            ContainerState::Running => "running",
            ContainerState::Paused => "paused",
            ContainerState::Restarting => "restarting",
            ContainerState::Removing => "removing",
            ContainerState::Exited => "exited",
            ContainerState::Dead => "dead",
            ContainerState::NotFound => "not_found",
            ContainerState::Unknown => "unknown",
        }
    }
}

impl AsRef<str> for ContainerState {
    fn as_ref(&self) -> (r: &str)
        ensures
            r@ == state_name(*self),
    {
        self.as_str()
    }
}

/// What the health check of a container says.
#[derive(Debug, Clone, Copy, PartialEq, Eq, Structural)]
pub enum HealthStatus {
    Healthy,
    Unhealthy,
    Starting,
    /// The container has no health check. Stored as "none".
    Unchecked,
}

pub open spec fn health_name(h: HealthStatus) -> Seq<char> {
    match h {
        HealthStatus::Healthy => "healthy"@,
        HealthStatus::Unhealthy => "unhealthy"@,
        HealthStatus::Starting => "starting"@,
        HealthStatus::Unchecked => "none"@,
    }
}

impl HealthStatus {
    /// The name under which the health is stored.
    pub fn as_str(&self) -> (r: &'static str)
        ensures
            r@ == health_name(*self),
    {
        match self {
            HealthStatus::Healthy => "healthy",
            HealthStatus::Unhealthy => "unhealthy",
            HealthStatus::Starting => "starting",
            HealthStatus::Unchecked => "none",
        }
    }
}

impl AsRef<str> for HealthStatus {
    fn as_ref(&self) -> (r: &str)
        ensures
            r@ == health_name(*self),
    {
        self.as_str()
    }
}

/// The health that a name of the runtime stands for. A name that the
/// runtime does not use for a health stands for no health check.
pub open spec fn health_of(name: Seq<char>) -> HealthStatus {
    if name == "healthy"@ {
        HealthStatus::Healthy
    } else if name == "unhealthy"@ {
        HealthStatus::Unhealthy
    } else if name == "starting"@ {
        HealthStatus::Starting
    } else {
        HealthStatus::Unchecked
    }
}

impl HealthStatus {
    /// The health that a name of the runtime stands for.
    pub fn from_name(name: &str) -> (r: HealthStatus)
        ensures
            r == health_of(name@),
    {
        if str_eq(name, "healthy") {
            HealthStatus::Healthy
        } else if str_eq(name, "unhealthy") {
            HealthStatus::Unhealthy
        } else if str_eq(name, "starting") {
            HealthStatus::Starting
        } else {
            HealthStatus::Unchecked
        }
    }
}

/// Every health is the one that its own name stands for.
pub proof fn lemma_health_name_round_trip(h: HealthStatus)
    ensures
        health_of(health_name(h)) == h,
{
    reveal_strlit("healthy");
    reveal_strlit("unhealthy");
    reveal_strlit("starting");
    reveal_strlit("none");
    assert("healthy"@.len() == 7);
    assert("unhealthy"@.len() == 9);
    assert("starting"@.len() == 8);
    assert("none"@.len() == 4);
}

/// The state that a name of the runtime stands for. The runtime writes the
/// empty state as the empty name; a name that it does not use for a state
/// stands for the unknown state.
pub open spec fn state_of(name: Seq<char>) -> ContainerState {
    if name.len() == 0 || name == "empty"@ {
        ContainerState::Empty
    } else if name == "created"@ {
        ContainerState::Created
    } else if name == "running"@ {
        ContainerState::Running
    } else if name == "paused"@ {
        ContainerState::Paused
    } else if name == "restarting"@ {
        ContainerState::Restarting
    } else if name == "removing"@ {
        ContainerState::Removing
    } else if name == "exited"@ {
        ContainerState::Exited
    } else if name == "dead"@ {
        ContainerState::Dead
    } else if name == "not_found"@ {
        ContainerState::NotFound
    } else {
        ContainerState::Unknown
    }
}

impl ContainerState {
    /// The state that a name of the runtime stands for.
    pub fn from_name(name: &str) -> (r: ContainerState)
        ensures
            r == state_of(name@),
    {
        if name.is_empty() {
            ContainerState::Empty
        } else if str_eq(name, "empty") {
            ContainerState::Empty
        } else if str_eq(name, "created") {
            ContainerState::Created
        } else if str_eq(name, "running") {
            ContainerState::Running
        } else if str_eq(name, "paused") {
            ContainerState::Paused
        } else if str_eq(name, "restarting") {
            ContainerState::Restarting
        } else if str_eq(name, "removing") {
            ContainerState::Removing
        } else if str_eq(name, "exited") {
            ContainerState::Exited
        } else if str_eq(name, "dead") {
            ContainerState::Dead
        } else if str_eq(name, "not_found") {
            ContainerState::NotFound
        } else {
            ContainerState::Unknown
        }
    }
}

/// Every state is the one that its own name stands for.
pub proof fn lemma_state_name_round_trip(s: ContainerState)
    ensures
        state_of(state_name(s)) == s,
{
    reveal_strlit("empty");
    reveal_strlit("created");
    reveal_strlit("running");
    reveal_strlit("paused");
    reveal_strlit("restarting");
    reveal_strlit("removing");
    reveal_strlit("exited");
    reveal_strlit("dead");
    reveal_strlit("not_found");
    reveal_strlit("unknown");
    assert("empty"@.len() == 5);
    assert("created"@.len() == 7 && "created"@[0] == 'c');
    assert("running"@.len() == 7 && "running"@[0] == 'r');
    assert("unknown"@.len() == 7 && "unknown"@[0] == 'u');
    assert("paused"@.len() == 6 && "paused"@[0] == 'p');
    assert("exited"@.len() == 6 && "exited"@[0] == 'e');
    assert("restarting"@.len() == 10);
    assert("removing"@.len() == 8);
    assert("dead"@.len() == 4);
    assert("not_found"@.len() == 9);
}

} // verus!
