//! Keeping the certificates of the routed hosts valid.
//!
//! Once an hour every host whose certificate the manager manages is looked
//! at, and a certificate that is missing or about to expire is obtained
//! anew: from the certificate authority, by the HTTP-01 challenge, or
//! self-signed where the manager only simulates. The proxy is told once per
//! sweep if anything changed. What one host fails at does not concern the
//! others.

use crate::file::ProxySettings;
use crate::text::{push_str, string_of, strings_view};
use vstd::prelude::*;

verus! {

/// Seconds between two sweeps.
pub const SWEEP_INTERVAL_SECS: u64 = 3600;

/// Seconds before an order is polled for the first time.
pub const POLL_INITIAL_DELAY_SECS: u64 = 2;

/// Seconds after which polling an order is given up.
pub const POLL_TIMEOUT_SECS: u64 = 30;

/// Whether the manager manages the certificate of a proxy block: it does
/// unless the block names a certificate file or a key file of its own.
pub open spec fn is_managed(proxy: crate::file::ProxySettingsView) -> bool {
    proxy.cert_file is None && proxy.key_file is None
}

/// The hosts among `configs` whose certificates the manager manages, in
/// order.
pub open spec fn managed_hosts(configs: Seq<crate::file::ProxySettingsView>) -> Seq<Seq<char>>
    decreases configs.len(),
{
    if configs.len() == 0 {
        Seq::<Seq<char>>::empty()
    } else if is_managed(configs.last()) {
        managed_hosts(configs.drop_last()).push(configs.last().host)
    } else {
        managed_hosts(configs.drop_last())
    }
}

/// The hosts that a sweep looks at: those of the proxy blocks that name no
/// file of their own.
pub fn hosts_to_maintain(configs: &Vec<ProxySettings>) -> (r: Vec<String>)
    ensures
        strings_view(r@) == managed_hosts(configs.deep_view()),
{
    let ghost all = configs.deep_view();
    let mut out: Vec<String> = Vec::new();
    let mut i: usize = 0;
    assert(strings_view(out@) =~= managed_hosts(all.subrange(0, 0)));
    while i < configs.len()
        invariant
            i <= configs.len(),
            all == configs.deep_view(),
            strings_view(out@) == managed_hosts(all.subrange(0, i as int)),
        decreases configs.len() - i,
    {
        let ghost before = strings_view(out@);
        assert(all.subrange(0, i + 1).drop_last() =~= all.subrange(0, i as int));
        assert(all.subrange(0, i + 1).last() == configs@[i as int].deep_view());
        let proxy = &configs[i];
        if proxy.cert_file.is_none() && proxy.key_file.is_none() {
            out.push(proxy.host.clone());
            assert(strings_view(out@) =~= before.push(proxy.host@));
        }
        i += 1;
    }
    assert(all.subrange(0, all.len() as int) =~= all);
    out
}

/// Why no certificate could be obtained for a host.
#[derive(Debug, Clone, Copy, PartialEq, Eq, Structural)]
pub enum AcmeError {
    /// The configuration names no contact address.
    MissingEmail,
    /// The authority offers no HTTP-01 challenge for the host.
    NoHttpChallenge,
    /// The order did not become ready.
    OrderFailed,
    /// The step at which the authority, or the disk, failed.
    Failed(AcmePhase),
}

/// The message of an error.
pub open spec fn error_text(e: AcmeError) -> Seq<char> {
    match e {
        AcmeError::MissingEmail => "No certbot settings (email) found in dispenser.toml"@,
        AcmeError::NoHttpChallenge => "No HTTP-01 challenge found"@,
        AcmeError::OrderFailed => "ACME order failed"@,
        AcmeError::Failed(_) => "ACME request failed"@,
    }
}

impl AcmeError {
    /// The message of the error, as it is logged.
    pub fn message(&self) -> (r: &'static str)
        ensures
            r@ == error_text(*self),
    {
        match self {
            AcmeError::MissingEmail => "No certbot settings (email) found in dispenser.toml",
            AcmeError::NoHttpChallenge => "No HTTP-01 challenge found",
            AcmeError::OrderFailed => "ACME order failed",
            AcmeError::Failed(_) => "ACME request failed",
        }
    }
}

/// Whether a sweep changed anything: some host got a new certificate. The
/// proxy is restarted once if so, however many hosts changed.
pub open spec fn any_renewed(results: Seq<Result<bool, AcmeError>>) -> bool {
    exists|i: int| 0 <= i < results.len() && #[trigger] results[i] == Ok::<bool, AcmeError>(true)
}

/// Whether a sweep with these results, one per host, changed anything.
pub fn sweep_changed(results: &Vec<Result<bool, AcmeError>>) -> (r: bool)
    ensures
        r == any_renewed(results@),
{
    let mut i: usize = 0;
    while i < results.len()
        invariant
            i <= results.len(),
            forall|j: int| 0 <= j < i ==> #[trigger] results@[j] != Ok::<bool, AcmeError>(true),
        decreases results.len() - i,
    {
        match results[i] {
            Ok(changed) => {
                if changed {
                    return true;
                }
            },
            Err(_) => {},
        }
        i += 1;
    }
    false
}

/// The contact of an account with the authority: `mailto:` and the address.
pub fn contact_of(email: &str) -> (r: String)
    ensures
        r@ == "mailto:"@ + email@,
{
    let mut out: Vec<char> = Vec::new();
    push_str(&mut out, "mailto:");
    push_str(&mut out, email);
    string_of(&out)
}

/// A step of obtaining a certificate from the authority.
#[derive(Debug, Clone, Copy, PartialEq, Eq, Structural)]
pub enum AcmePhase {
    /// Create the account, or find the one that exists.
    Account,
    /// Order a certificate for the host.
    Order,
    /// Ask for the next authorization of the order and its HTTP-01
    /// challenge.
    NextAuthorization,
    /// Write the key authorization into the challenge directory, under the
    /// challenge's token.
    StoreChallenge,
    /// Tell the authority that the challenge can be tried.
    MarkReady,
    /// Poll the order until it is ready.
    PollOrder,
    /// Finalize the order, which yields the private key.
    Finalize,
    /// Poll for the certificate chain.
    PollCertificate,
    /// Write the chain and the key to the host's files.
    StoreCertificate,
    /// Empty the challenge directory.
    ClearChallenges,
}

/// How a step went.
#[derive(Debug, Clone, Copy, PartialEq, Eq, Structural)]
pub enum AcmeOutcome {
    /// As it should.
    Done,
    /// The order has no further authorization.
    NoMoreAuthorizations,
    /// The authorization offers no HTTP-01 challenge.
    NoHttpChallenge,
    /// The order ended in another state than ready.
    OrderNotReady,
    /// The authority or the disk reported an error.
    Failed,
}

/// What follows a step.
#[derive(Debug, Clone, Copy, PartialEq, Eq, Structural)]
pub enum AcmeNext {
    /// This step.
    Go(AcmePhase),
    /// Nothing: the host has its new certificate.
    Renewed,
    /// Nothing: the attempt failed. It is made again on the next sweep.
    Error(AcmeError),
}

/// How the attempt for one host begins.
#[derive(Debug, Clone, Copy, PartialEq, Eq, Structural)]
pub enum AcmeStart {
    /// The certificate is good: there is nothing to do.
    NotNeeded,
    /// With this step.
    Go(AcmePhase),
    /// Not at all.
    Error(AcmeError),
}

/// How the attempt for one host begins: not at all while its certificate is
/// good, with an error if no contact address is configured, else with the
/// account.
pub fn acme_begin(renewal_due: bool, has_email: bool) -> (r: AcmeStart)
    ensures
        r == if !renewal_due {
            AcmeStart::NotNeeded
        } else if !has_email {
            AcmeStart::Error(AcmeError::MissingEmail)
        } else {
            AcmeStart::Go(AcmePhase::Account)
        },
{
    if !renewal_due {
        AcmeStart::NotNeeded
    } else if !has_email {
        AcmeStart::Error(AcmeError::MissingEmail)
    } else {
        AcmeStart::Go(AcmePhase::Account)
    }
}

/// What follows the step `phase` that went as `outcome` says.
///
/// The steps follow one another as they are listed. For every authorization of
/// the order the challenge is stored and marked ready, then the next
/// authorization is asked for; when there is none left the order is polled.
/// Any failure ends the attempt, but for that of emptying the challenge
/// directory at the end, which does not matter.
pub open spec fn acme_transition(phase: AcmePhase, outcome: AcmeOutcome) -> AcmeNext {
    match (phase, outcome) {
        (AcmePhase::ClearChallenges, _) => AcmeNext::Renewed,
        (AcmePhase::Account, AcmeOutcome::Done) => AcmeNext::Go(AcmePhase::Order),
        (AcmePhase::Order, AcmeOutcome::Done) => AcmeNext::Go(AcmePhase::NextAuthorization),
        (AcmePhase::NextAuthorization, AcmeOutcome::Done) => AcmeNext::Go(AcmePhase::StoreChallenge),
        (AcmePhase::NextAuthorization, AcmeOutcome::NoMoreAuthorizations) => AcmeNext::Go(
            AcmePhase::PollOrder,
        ),
        (AcmePhase::NextAuthorization, AcmeOutcome::NoHttpChallenge) => AcmeNext::Error(
            AcmeError::NoHttpChallenge,
        ),
        (AcmePhase::StoreChallenge, AcmeOutcome::Done) => AcmeNext::Go(AcmePhase::MarkReady),
        (AcmePhase::MarkReady, AcmeOutcome::Done) => AcmeNext::Go(AcmePhase::NextAuthorization),
        (AcmePhase::PollOrder, AcmeOutcome::Done) => AcmeNext::Go(AcmePhase::Finalize),
        (AcmePhase::PollOrder, AcmeOutcome::OrderNotReady) => AcmeNext::Error(
            AcmeError::OrderFailed,
        ),
        (AcmePhase::Finalize, AcmeOutcome::Done) => AcmeNext::Go(AcmePhase::PollCertificate),
        (AcmePhase::PollCertificate, AcmeOutcome::Done) => AcmeNext::Go(
            AcmePhase::StoreCertificate,
        ),
        (AcmePhase::StoreCertificate, AcmeOutcome::Done) => AcmeNext::Go(
            AcmePhase::ClearChallenges,
        ),
        _ => AcmeNext::Error(AcmeError::Failed(phase)),
    }
}

/// What follows the step `phase` that went as `outcome` says.
pub fn acme_next(phase: AcmePhase, outcome: AcmeOutcome) -> (r: AcmeNext)
    ensures
        r == acme_transition(phase, outcome),
{
    match phase {
        AcmePhase::ClearChallenges => AcmeNext::Renewed,
        AcmePhase::Account => match outcome {
            AcmeOutcome::Done => AcmeNext::Go(AcmePhase::Order),
            _ => AcmeNext::Error(AcmeError::Failed(phase)),
        },
        AcmePhase::Order => match outcome {
            AcmeOutcome::Done => AcmeNext::Go(AcmePhase::NextAuthorization),
            _ => AcmeNext::Error(AcmeError::Failed(phase)),
        },
        AcmePhase::NextAuthorization => match outcome {
            AcmeOutcome::Done => AcmeNext::Go(AcmePhase::StoreChallenge),
            AcmeOutcome::NoMoreAuthorizations => AcmeNext::Go(AcmePhase::PollOrder),
            AcmeOutcome::NoHttpChallenge => AcmeNext::Error(AcmeError::NoHttpChallenge),
            _ => AcmeNext::Error(AcmeError::Failed(phase)),
        },
        AcmePhase::StoreChallenge => match outcome {
            AcmeOutcome::Done => AcmeNext::Go(AcmePhase::MarkReady),
            _ => AcmeNext::Error(AcmeError::Failed(phase)),
        },
        AcmePhase::MarkReady => match outcome {
            AcmeOutcome::Done => AcmeNext::Go(AcmePhase::NextAuthorization),
            _ => AcmeNext::Error(AcmeError::Failed(phase)),
        },
        AcmePhase::PollOrder => match outcome {
            AcmeOutcome::Done => AcmeNext::Go(AcmePhase::Finalize),
            AcmeOutcome::OrderNotReady => AcmeNext::Error(AcmeError::OrderFailed),
            _ => AcmeNext::Error(AcmeError::Failed(phase)),
        },
        AcmePhase::Finalize => match outcome {
            AcmeOutcome::Done => AcmeNext::Go(AcmePhase::PollCertificate),
            _ => AcmeNext::Error(AcmeError::Failed(phase)),
        },
        AcmePhase::PollCertificate => match outcome {
            AcmeOutcome::Done => AcmeNext::Go(AcmePhase::StoreCertificate),
            _ => AcmeNext::Error(AcmeError::Failed(phase)),
        },
        AcmePhase::StoreCertificate => match outcome {
            AcmeOutcome::Done => AcmeNext::Go(AcmePhase::ClearChallenges),
            _ => AcmeNext::Error(AcmeError::Failed(phase)),
        },
    }
}

/// A host has its new certificate only after the certificate is stored: the
/// attempt ends well from no other step than the last one, which follows
/// the storing.
pub proof fn lemma_renewed_only_after_storing(phase: AcmePhase, outcome: AcmeOutcome)
    ensures
        acme_transition(phase, outcome) == AcmeNext::Renewed <==> phase
            == AcmePhase::ClearChallenges,
        acme_transition(phase, outcome) == AcmeNext::Go(AcmePhase::ClearChallenges) <==> phase
            == AcmePhase::StoreCertificate && outcome == AcmeOutcome::Done,
{
}

} // verus!
