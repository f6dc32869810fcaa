//! Reload and shutdown: what follows each signal.
//!
//! The manager of the current generation polls its services while the
//! coordinator waits. A certificate that changed restarts the proxy alone. A
//! reload makes the next generation first and swaps it in only if that
//! succeeded; a shutdown takes everything down in order.

use crate::manager::{position_of, removed_services};
use crate::network::NetworkInstance;
use crate::text::{chars_of, parse_i64, strings_view};
use vstd::prelude::*;

verus! {

/// What the coordinator waits for.
#[derive(Debug, Clone, Copy, PartialEq, Eq, Structural)]
pub enum Signal {
    /// The operator asks for the configuration to be read again.
    Reload,
    /// The operator asks for the manager to stop.
    Stop,
}

/// The number of the hang-up signal, which asks for a reload.
pub const SIGHUP: i32 = 1;

/// The number of the interrupt signal, which asks for a stop.
pub const SIGINT: i32 = 2;

impl Signal {
    /// The number of the signal of the operating system that carries this
    /// request.
    pub fn number(&self) -> (r: i32)
        ensures
            r == match self {
                Signal::Reload => SIGHUP,
                Signal::Stop => SIGINT,
            },
    {
        match self {
            Signal::Reload => SIGHUP,
            Signal::Stop => SIGINT,
        }
    }
}

/// The process that a PID file names: its content without the white space
/// around it, read as a signed decimal number of 32 bits.
pub open spec fn pid_of(content: Seq<char>) -> Option<int> {
    crate::text::signed_decimal(
        crate::text::trimmed(content),
        i32::MIN as int,
        i32::MAX as int,
    )
}

/// Reads the process that a PID file names.
pub fn parse_pid(content: &str) -> (r: Option<i32>)
    ensures
        match r {
            Some(pid) => pid_of(content@) == Some(pid as int),
            None => pid_of(content@) is None,
        },
{
    let all = chars_of(content);
    let line = crate::text::trim(&all);
    match parse_i64(&line) {
        Some(n) => if -0x8000_0000 <= n && n <= 0x7FFF_FFFF {
            Some(n as i32)
        } else {
            None
        },
        None => None,
    }
}

/// What happened while the coordinator waited.
#[derive(Debug, Clone, Copy, PartialEq, Eq, Structural)]
pub enum Event {
    /// A certificate changed.
    CertificatesChanged,
    /// A reload was asked for, and the next generation was made.
    ReloadReady,
    /// A reload was asked for, but the configuration could not be read or
    /// the next generation not be made.
    ReloadFailed,
    /// A shutdown was asked for.
    Shutdown,
}

/// One thing that the coordinator does.
#[derive(Debug, Clone, Copy, PartialEq, Eq, Structural)]
pub enum Step {
    /// Start a new proxy and let it take over from the running one.
    RestartProxy,
    /// Stop the polling of the current generation.
    AbortPolling,
    /// Stop the maintenance of certificates of the current generation.
    AbortCertificates,
    /// Put the next generation in place of the current one.
    SwapManager,
    /// Stop and remove the containers of the services that the next
    /// generation no longer declares.
    RemoveGoneServices,
    /// Start polling, certificate maintenance and proxy for the generation
    /// that is now current.
    StartGeneration,
    /// Stop and remove every container of the current generation.
    RemoveContainers,
    /// Remove the networks that the manager created, the dispenser
    /// network last.
    RemoveNetworks,
    /// Tell the proxy to end.
    TerminateProxy,
    /// End the process with this exit code.
    Exit(u8),
    /// Say that the reload failed. Nothing else happens.
    ReportReloadFailure,
}

/// What the coordinator does about an event, in order.
/// - Changed certificates restart the proxy, where there is one, and nothing
///   else.
/// - A reload that is ready stops polling and certificate maintenance of the
///   current generation, swaps the next one in, removes the containers of
///   the services that are gone and starts the new generation.
/// - A reload that failed is reported; the current generation goes on
///   untouched.
/// - A shutdown stops polling and certificate maintenance, removes all
///   containers, then the networks, ends the proxy and then the process, with
///   exit code 0.
pub open spec fn steps_for(event: Event, proxy_enabled: bool) -> Seq<Step> {
    match event {
        Event::CertificatesChanged => if proxy_enabled {
            seq![Step::RestartProxy]
        } else {
            Seq::<Step>::empty()
        },
        Event::ReloadReady => seq![
            Step::AbortPolling,
            Step::AbortCertificates,
            Step::SwapManager,
            Step::RemoveGoneServices,
            Step::StartGeneration,
        ],
        Event::ReloadFailed => seq![Step::ReportReloadFailure],
        Event::Shutdown => {
            let down = seq![
                Step::AbortPolling,
                Step::AbortCertificates,
                Step::RemoveContainers,
                Step::RemoveNetworks,
            ];
            if proxy_enabled {
                down.push(Step::TerminateProxy).push(Step::Exit(0))
            } else {
                down.push(Step::Exit(0))
            }
        },
    }
}

/// What the coordinator does about an event, in order.
pub fn coordinate(event: Event, proxy_enabled: bool) -> (r: Vec<Step>)
    ensures
        r@ == steps_for(event, proxy_enabled),
{
    let mut out: Vec<Step> = Vec::new();
    match event {
        Event::CertificatesChanged => {
            if proxy_enabled {
                out.push(Step::RestartProxy);
            }
        },
        Event::ReloadReady => {
            out.push(Step::AbortPolling);
            out.push(Step::AbortCertificates);
            out.push(Step::SwapManager);
            out.push(Step::RemoveGoneServices);
            out.push(Step::StartGeneration);
        },
        Event::ReloadFailed => {
            out.push(Step::ReportReloadFailure);
        },
        Event::Shutdown => {
            out.push(Step::AbortPolling);
            out.push(Step::AbortCertificates);
            out.push(Step::RemoveContainers);
            out.push(Step::RemoveNetworks);
            if proxy_enabled {
                out.push(Step::TerminateProxy);
            }
            out.push(Step::Exit(0));
        },
    }
    assert(out@ =~= steps_for(event, proxy_enabled));
    out
}

/// Whether a step touches a container, a network or the generation in place.
pub open spec fn is_disruptive(step: Step) -> bool {
    step != Step::ReportReloadFailure && step != Step::RestartProxy
}

/// A reload that failed leaves the running generation as it is: nothing is
/// aborted, swapped or removed.
pub proof fn lemma_failed_reload_touches_nothing(proxy_enabled: bool)
    ensures
        forall|i: int|
            0 <= i < steps_for(Event::ReloadFailed, proxy_enabled).len() ==> !is_disruptive(
                #[trigger] steps_for(Event::ReloadFailed, proxy_enabled)[i],
            ),
{
}

/// On a reload the polling of the old generation is stopped before the new
/// generation starts, so that never two generations act on one container.
pub proof fn lemma_old_polling_ends_before_new_begins(proxy_enabled: bool)
    ensures
        ({
            let steps = steps_for(Event::ReloadReady, proxy_enabled);
            exists|a: int, b: int|
                0 <= a < b < steps.len() && steps[a] == Step::AbortPolling && steps[b]
                    == Step::StartGeneration && forall|k: int|
                    0 <= k < a ==> steps[k] != Step::StartGeneration
        }),
{
    let steps = steps_for(Event::ReloadReady, proxy_enabled);
    assert(steps[0] == Step::AbortPolling);
    assert(steps[4] == Step::StartGeneration);
}

/// Changed certificates restart the proxy and nothing else.
pub proof fn lemma_certificates_restart_the_proxy_only()
    ensures
        steps_for(Event::CertificatesChanged, true) == seq![Step::RestartProxy],
        steps_for(Event::CertificatesChanged, false).len() == 0,
{
}

/// The services whose containers a reload removes: those of the old
/// generation that the new one no longer declares.
pub fn remove_unused_services(old_names: &Vec<String>, new_names: &Vec<String>) -> (r: Vec<String>)
    ensures
        strings_view(r@) == crate::manager::gone(strings_view(old_names@), strings_view(new_names@)),
{
    removed_services(old_names, new_names)
}

/// The service of the old generation that a service of the new one takes
/// over from: the first one with the same name, if there is one. Its
/// declaration is what the new one is compared with.
pub fn counterpart(old_names: &Vec<String>, name: &String) -> (r: Option<usize>)
    ensures
        match r {
            Some(i) => i < old_names@.len() && old_names@[i as int]@ == name@ && forall|j: int|
                0 <= j < i ==> (#[trigger] old_names@[j])@ != name@,
            None => forall|j: int|
                0 <= j < old_names@.len() ==> (#[trigger] old_names@[j])@ != name@,
        },
{
    position_of(old_names, name)
}

/// The names of the networks that a shutdown removes, in order: the declared
/// ones that are not external, then the dispenser network.
pub open spec fn networks_to_remove(networks: Seq<NetworkInstance>) -> Seq<Seq<char>> {
    removable(networks).push(crate::command::dispenser_network())
}

/// The names of the networks among `networks` that are not external.
pub open spec fn removable(networks: Seq<NetworkInstance>) -> Seq<Seq<char>>
    decreases networks.len(),
{
    if networks.len() == 0 {
        Seq::<Seq<char>>::empty()
    } else if networks.last().external {
        removable(networks.drop_last())
    } else {
        removable(networks.drop_last()).push(networks.last().name@)
    }
}

/// The names of the networks that a shutdown removes, in order.
pub fn cleanup_networks(networks: &Vec<NetworkInstance>) -> (r: Vec<String>)
    ensures
        strings_view(r@) == networks_to_remove(networks@),
{
    let mut out: Vec<String> = Vec::new();
    let mut i: usize = 0;
    assert(strings_view(out@) =~= removable(networks@.subrange(0, 0)));
    while i < networks.len()
        invariant
            i <= networks.len(),
            strings_view(out@) == removable(networks@.subrange(0, i as int)),
        decreases networks.len() - i,
    {
        let ghost before = strings_view(out@);
        assert(networks@.subrange(0, i + 1).drop_last() =~= networks@.subrange(0, i as int));
        assert(networks@.subrange(0, i + 1).last() == networks@[i as int]);
        if networks[i].remove_network() {
            out.push(networks[i].name.clone());
            assert(strings_view(out@) =~= before.push(networks@[i as int].name@));
        }
        i += 1;
    }
    assert(networks@.subrange(0, networks@.len() as int) =~= networks@);
    let ghost declared = strings_view(out@);
    out.push("dispenser".to_owned());
    assert(strings_view(out@) =~= declared.push(crate::command::dispenser_network()));
    out
}

} // verus!
