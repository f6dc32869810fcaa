//! The master of a compose project: one thread that brings the project up
//! and takes it down as it is told.
//!
//! The master waits for messages. An update brings the project up, a stop
//! takes it down and ends the master, a detach ends the master and leaves
//! the project as it is.

use crate::file::Initialize;
use crate::text::{push_text, strings_view};
use std::sync::atomic::AtomicU32;
use std::sync::atomic::Ordering;
use vstd::prelude::*;

verus! {

/// What the master last did to its project.
#[derive(Debug, Clone, Copy, PartialEq, Eq, Structural)]
pub enum MasterStatus {
    Stopped,
    Reloading,
    Started,
}

/// The number that stands for a status.
pub open spec fn status_number(status: MasterStatus) -> u32 {
    match status {
        MasterStatus::Stopped => 0,
        MasterStatus::Reloading => 1,
        MasterStatus::Started => 2,
    }
}

impl MasterStatus {
    /// The status that the number `val` stands for. Only 0, 1 and 2 stand
    /// for one.
    pub fn from_u32(val: u32) -> (r: MasterStatus)
        requires
            val <= 2,
        ensures
            status_number(r) == val,
    {
        if val == 0 {
            MasterStatus::Stopped
        } else if val == 1 {
            MasterStatus::Reloading
        } else {
            MasterStatus::Started
        }
    }

    /// The status that the number `val` stands for, if it stands for one.
    pub fn try_from_u32(val: u32) -> (r: Option<MasterStatus>)
        ensures
            match r {
                Some(status) => status_number(status) == val,
                None => val > 2,
            },
    {
        if val <= 2 {
            Some(MasterStatus::from_u32(val))
        } else {
            None
        }
    }

    /// The number that stands for the status.
    pub fn into_u32(self) -> (r: u32)
        ensures
            r == status_number(self),
    {
        match self {
            MasterStatus::Stopped => 0,
            MasterStatus::Reloading => 1,
            MasterStatus::Started => 2,
        }
    }
}

/// Every status is what its own number stands for.
pub proof fn lemma_status_number_is_injective(a: MasterStatus, b: MasterStatus)
    requires
        status_number(a) == status_number(b),
    ensures
        a == b,
{
}

/// A status that can be read and written from several threads.
#[derive(Debug)]
pub struct AtomicMasterStatus(AtomicU32);

impl AtomicMasterStatus {
    /// A cell that holds `val`.
    pub fn new(val: MasterStatus) -> AtomicMasterStatus {
        AtomicMasterStatus(AtomicU32::new(val.into_u32()))
    }

    /// The status that the cell holds now. The cell is shared, so the
    /// contract cannot say which one that is; a cell that was only ever
    /// written through `store` holds one.
    pub fn load(&self, ordering: Ordering) -> Option<MasterStatus> {
        MasterStatus::try_from_u32(self.0.load(ordering))
    }

    /// Replaces what the cell holds by `value`.
    pub fn store(&self, value: MasterStatus, ordering: Ordering) {
        self.0.store(value.into_u32(), ordering)
    }
}

/// How a project is brought up.
#[derive(Debug, Clone, Copy, PartialEq, Eq, Structural)]
pub enum Action {
    /// Containers whose services changed are made anew.
    Update,
    /// All containers are made anew.
    Recreate,
}

/// A message to the master.
#[derive(Debug, Clone, Copy, PartialEq, Eq, Structural)]
pub enum MasterMsg {
    Detach,
    Update(Action),
    Stop,
}

/// The flags that an action adds to bringing the project up.
pub open spec fn action_flags(action: Action) -> Seq<Seq<char>> {
    match action {
        Action::Update => Seq::<Seq<char>>::empty(),
        Action::Recreate => seq!["--force-recreate"@],
    }
}

impl Action {
    /// The flags that the action adds to bringing the project up.
    pub fn flags(self) -> (r: Vec<String>)
        ensures
            strings_view(r@) == action_flags(self),
    {
        let mut out: Vec<String> = Vec::new();
        assert(strings_view(out@) =~= Seq::<Seq<char>>::empty());
        match self {
            Action::Update => {},
            Action::Recreate => {
                push_text(&mut out, "--force-recreate");
                assert(strings_view(out@) =~= seq!["--force-recreate"@]);
            },
        }
        out
    }
}

/// The words that the runtime is told on a message, or nothing where
/// nothing is told:
/// - on an update, to bring the project up in the background with the
///   action's flags, pulling every image;
/// - on a stop, to stop the project;
/// - on a detach, nothing.
pub open spec fn words_for(msg: MasterMsg) -> Option<Seq<Seq<char>>> {
    match msg {
        MasterMsg::Update(action) => Some(
            seq!["compose"@, "up"@, "--pull"@, "always"@] + action_flags(action) + seq!["-d"@],
        ),
        MasterMsg::Stop => Some(seq!["compose"@, "stop"@]),
        MasterMsg::Detach => None,
    }
}

/// The words that the runtime is told on a message.
pub fn command_for(msg: MasterMsg) -> (r: Option<Vec<String>>)
    ensures
        match r {
            Some(words) => words_for(msg) == Some(strings_view(words@)),
            None => words_for(msg) is None,
        },
{
    match msg {
        MasterMsg::Update(action) => {
            let mut out: Vec<String> = Vec::new();
            assert(strings_view(out@) =~= Seq::<Seq<char>>::empty());
            push_text(&mut out, "compose");
            push_text(&mut out, "up");
            push_text(&mut out, "--pull");
            push_text(&mut out, "always");
            match action {
                Action::Update => {},
                Action::Recreate => {
                    push_text(&mut out, "--force-recreate");
                },
            }
            push_text(&mut out, "-d");
            assert(strings_view(out@) =~= seq!["compose"@, "up"@, "--pull"@, "always"@]
                + action_flags(action) + seq!["-d"@]);
            Some(out)
        },
        MasterMsg::Stop => {
            let mut out: Vec<String> = Vec::new();
            assert(strings_view(out@) =~= Seq::<Seq<char>>::empty());
            push_text(&mut out, "compose");
            push_text(&mut out, "stop");
            assert(strings_view(out@) =~= seq!["compose"@, "stop"@]);
            Some(out)
        },
        MasterMsg::Detach => None,
    }
}

/// The status after a message was acted on: started after an update that
/// succeeded, unchanged after one that failed, stopped after a stop or a
/// detach, however the stop went.
pub fn status_after(msg: MasterMsg, current: MasterStatus, succeeded: bool) -> (r: MasterStatus)
    ensures
        r == match msg {
            MasterMsg::Update(_) => if succeeded {
                MasterStatus::Started
            } else {
                current
            },
            MasterMsg::Stop => MasterStatus::Stopped,
            MasterMsg::Detach => MasterStatus::Stopped,
        },
{
    match msg {
        MasterMsg::Update(_) => if succeeded {
            MasterStatus::Started
        } else {
            current
        },
        MasterMsg::Stop => MasterStatus::Stopped,
        MasterMsg::Detach => MasterStatus::Stopped,
    }
}

/// Whether the master ends after a message: it does after a stop and after
/// a detach.
pub fn ends_master(msg: MasterMsg) -> (r: bool)
    ensures
        r == (msg == MasterMsg::Stop || msg == MasterMsg::Detach),
{
    match msg {
        MasterMsg::Update(_) => false,
        MasterMsg::Stop => true,
        MasterMsg::Detach => true,
    }
}

/// The message that a master sends itself when it begins: a project that is
/// started immediately is brought up with all containers made anew.
pub fn initial_message(initialize: Initialize) -> (r: Option<MasterMsg>)
    ensures
        r == match initialize {
            Initialize::Immediately => Some(MasterMsg::Update(Action::Recreate)),
            Initialize::OnTrigger => None,
        },
{
    match initialize {
        Initialize::Immediately => Some(MasterMsg::Update(Action::Recreate)),
        Initialize::OnTrigger => None,
    }
}

/// The message that a tick sends to the master: a due schedule asks for all
/// containers to be made anew; else a new image, on a tick on which images
/// are polled, asks for an update.
pub fn poll_message(cron_ready: bool, poll_images: bool, any_updated: bool) -> (r: Option<MasterMsg>)
    ensures
        r == if cron_ready {
            Some(MasterMsg::Update(Action::Recreate))
        } else if poll_images && any_updated {
            Some(MasterMsg::Update(Action::Update))
        } else {
            None
        },
{
    if cron_ready {
        Some(MasterMsg::Update(Action::Recreate))
    } else if poll_images && any_updated {
        Some(MasterMsg::Update(Action::Update))
    } else {
        None
    }
}

} // verus!
