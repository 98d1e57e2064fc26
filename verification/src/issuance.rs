//! The issuance workflow for one domain, as an explicit state machine. The
//! machine decides; the surrounding application talks to the certificate
//! authority and the filesystem, performing the action the machine asks for
//! and feeding the outcome back as the next event. The validation poll loop
//! is bounded, so a run always reaches `Persisted` or `Failed`.

use vstd::prelude::*;
use vstd::string::StringExecFns;
use crate::store::{joined, path_join, CertificateBundle};

verus! {

/// Why an issuance run failed.
#[derive(Debug, Clone, Copy, PartialEq, Eq, Structural)]
pub enum IssuanceError {
    /// The certificate authority refused or could not create the order.
    AcmeOrder,
    /// The order carried no authorizations: nothing can be validated.
    NoAuthorizations,
    /// Fetching the authorizations failed.
    AcmeAuthorizations,
    /// The challenge validation wait failed or timed out.
    AcmeValidation,
    /// Refreshing the order state failed.
    AcmeRefresh,
    /// The finalize wait failed or timed out.
    AcmeFinalize,
    /// Downloading the issued certificate failed.
    AcmeDownload,
    /// A filesystem step (challenge write, backup, or bundle write) failed.
    StoreFailure,
    /// The validation poll loop reached its bound without confirmation.
    PollLimit,
    /// The driver fed an event that does not answer the awaited step.
    Protocol,
}

/// Where a run stands. `Persisted` and `Failed` are terminal.
#[derive(Debug, Clone, Copy, PartialEq, Eq, Structural)]
pub enum IssuanceState {
    /// The order was requested; its creation result is awaited.
    OrderCreated,
    /// The authority was asked whether validations are already confirmed.
    AwaitingValidation,
    /// The authorization list is awaited.
    AuthsPending,
    /// The challenge proof file write is in flight.
    ChallengePublishing,
    /// The proof is published; the validation wait is in flight.
    ChallengePublished,
    /// The order state refresh is in flight.
    Refreshing,
    /// Validations confirmed; the finalize wait is in flight.
    Validated,
    /// The order is finalized; the download is in flight.
    Finalized,
    /// The artifacts are downloaded; backup and bundle write are in flight.
    Downloaded,
    /// The bundle is durably stored.
    Persisted,
    /// The run ended without a new bundle; the previous one is untouched.
    Failed(IssuanceError),
}

/// What the authority or the filesystem answered to the last action.
#[derive(Debug)]
pub enum AcmeEvent {
    OrderOk,
    OrderErr,
    Confirmed,
    NotConfirmed,
    Auths { token: String, proof: String },
    AuthsEmpty,
    AuthsErr,
    Published,
    PublishErr,
    ValidateOk,
    ValidateErr,
    Refreshed,
    RefreshErr,
    FinalizeOk,
    FinalizeErr,
    DownloadOk { cert_pem: String, key_pem: String },
    DownloadErr,
    PersistOk,
    PersistErr,
}

/// The next thing the application must do for the machine.
#[derive(Debug)]
pub enum IssuanceAction {
    /// Ask whether validations are confirmed.
    ConfirmValidations,
    /// Fetch the order's authorizations.
    FetchAuthorizations,
    /// Write `content` atomically, world-readable, as `dir/name`.
    PublishChallenge { dir: String, name: String, content: String },
    /// Ask the authority to validate the challenge, waiting at most this long.
    ValidateChallenge { timeout_ms: u64 },
    /// Refresh the order state.
    RefreshOrder,
    /// Generate a fresh private key and finalize, waiting at most this long.
    Finalize { timeout_ms: u64 },
    /// Download the issued certificate and key.
    Download,
    /// Back up any current bundle, then write this one atomically.
    Persist { bundle: CertificateBundle },
    /// The run is over, successfully.
    Done,
    /// The run is over; nothing more will be written.
    Abort { error: IssuanceError },
}

/// The ghost image of an action, payloads as sequences.
pub enum ActionSpec {
    Confirm,
    FetchAuths,
    Publish { dir: Seq<char>, name: Seq<char>, content: Seq<char> },
    Validate { timeout_ms: int },
    Refresh,
    Finalize { timeout_ms: int },
    Download,
    Persist { domain: Seq<char>, fullchain: Seq<char>, chain: Seq<char>, key: Seq<char> },
    Done,
    Abort { error: IssuanceError },
}

impl View for IssuanceAction {
    type V = ActionSpec;

    open spec fn view(&self) -> ActionSpec {
        match self {
            IssuanceAction::ConfirmValidations => ActionSpec::Confirm,
            IssuanceAction::FetchAuthorizations => ActionSpec::FetchAuths,
            IssuanceAction::PublishChallenge { dir, name, content } => ActionSpec::Publish {
                dir: dir@,
                name: name@,
                content: content@,
            },
            IssuanceAction::ValidateChallenge { timeout_ms } => ActionSpec::Validate {
                timeout_ms: *timeout_ms as int,
            },
            IssuanceAction::RefreshOrder => ActionSpec::Refresh,
            IssuanceAction::Finalize { timeout_ms } => ActionSpec::Finalize {
                timeout_ms: *timeout_ms as int,
            },
            IssuanceAction::Download => ActionSpec::Download,
            IssuanceAction::Persist { bundle } => ActionSpec::Persist {
                domain: bundle.domain@,
                fullchain: bundle.fullchain_pem@,
                chain: bundle.chain_pem@,
                key: bundle.private_key_pem@,
            },
            IssuanceAction::Done => ActionSpec::Done,
            IssuanceAction::Abort { error } => ActionSpec::Abort { error: *error },
        }
    }
}

/// Where a domain's challenge proofs live under its webroot.
pub open spec fn challenge_dir(webroot: Seq<char>) -> Seq<char> {
    joined(joined(webroot, ".well-known"@), "acme-challenge"@)
}

/// How many unconfirmed validation poll rounds a run tolerates.
pub const MAX_POLL_ROUNDS: u8 = 10;

/// How long one validation or finalize wait may take, in milliseconds.
pub const ACME_WAIT_MS: u64 = 5000;

/// The whole transition table: from a state, an answering event, and the
/// remaining poll budget, to the next state, the remaining budget, and the
/// action to perform. A mismatched answer fails the run rather than acting
/// on a stale step. The chain slot of a persisted bundle deliberately
/// duplicates the fullchain: the authority's client does not expose a
/// separate intermediate chain.
pub open spec fn spec_step(
    s: IssuanceState,
    polls: u8,
    ev: AcmeEvent,
    webroot: Seq<char>,
    domain: Seq<char>,
) -> (IssuanceState, u8, ActionSpec) {
    match (s, ev) {
        (IssuanceState::OrderCreated, AcmeEvent::OrderOk) => (
            IssuanceState::AwaitingValidation,
            polls,
            ActionSpec::Confirm,
        ),
        (IssuanceState::OrderCreated, AcmeEvent::OrderErr) => (
            IssuanceState::Failed(IssuanceError::AcmeOrder),
            polls,
            ActionSpec::Abort { error: IssuanceError::AcmeOrder },
        ),
        (IssuanceState::AwaitingValidation, AcmeEvent::Confirmed) => (
            IssuanceState::Validated,
            polls,
            ActionSpec::Finalize { timeout_ms: ACME_WAIT_MS as int },
        ),
        (IssuanceState::AwaitingValidation, AcmeEvent::NotConfirmed) => if polls == 0 {
            (
                IssuanceState::Failed(IssuanceError::PollLimit),
                polls,
                ActionSpec::Abort { error: IssuanceError::PollLimit },
            )
        } else {
            (IssuanceState::AuthsPending, (polls - 1) as u8, ActionSpec::FetchAuths)
        },
        (IssuanceState::AuthsPending, AcmeEvent::Auths { token, proof }) => (
            IssuanceState::ChallengePublishing,
            polls,
            ActionSpec::Publish { dir: challenge_dir(webroot), name: token@, content: proof@ },
        ),
        (IssuanceState::AuthsPending, AcmeEvent::AuthsEmpty) => (
            IssuanceState::Failed(IssuanceError::NoAuthorizations),
            polls,
            ActionSpec::Abort { error: IssuanceError::NoAuthorizations },
        ),
        (IssuanceState::AuthsPending, AcmeEvent::AuthsErr) => (
            IssuanceState::Failed(IssuanceError::AcmeAuthorizations),
            polls,
            ActionSpec::Abort { error: IssuanceError::AcmeAuthorizations },
        ),
        (IssuanceState::ChallengePublishing, AcmeEvent::Published) => (
            IssuanceState::ChallengePublished,
            polls,
            ActionSpec::Validate { timeout_ms: ACME_WAIT_MS as int },
        ),
        (IssuanceState::ChallengePublishing, AcmeEvent::PublishErr) => (
            IssuanceState::Failed(IssuanceError::StoreFailure),
            polls,
            ActionSpec::Abort { error: IssuanceError::StoreFailure },
        ),
        (IssuanceState::ChallengePublished, AcmeEvent::ValidateOk) => (
            IssuanceState::Refreshing,
            polls,
            ActionSpec::Refresh,
        ),
        (IssuanceState::ChallengePublished, AcmeEvent::ValidateErr) => (
            IssuanceState::Failed(IssuanceError::AcmeValidation),
            polls,
            ActionSpec::Abort { error: IssuanceError::AcmeValidation },
        ),
        (IssuanceState::Refreshing, AcmeEvent::Refreshed) => (
            IssuanceState::AwaitingValidation,
            polls,
            ActionSpec::Confirm,
        ),
        (IssuanceState::Refreshing, AcmeEvent::RefreshErr) => (
            IssuanceState::Failed(IssuanceError::AcmeRefresh),
            polls,
            ActionSpec::Abort { error: IssuanceError::AcmeRefresh },
        ),
        (IssuanceState::Validated, AcmeEvent::FinalizeOk) => (
            IssuanceState::Finalized,
            polls,
            ActionSpec::Download,
        ),
        (IssuanceState::Validated, AcmeEvent::FinalizeErr) => (
            IssuanceState::Failed(IssuanceError::AcmeFinalize),
            polls,
            ActionSpec::Abort { error: IssuanceError::AcmeFinalize },
        ),
        (IssuanceState::Finalized, AcmeEvent::DownloadOk { cert_pem, key_pem }) => (
            IssuanceState::Downloaded,
            polls,
            ActionSpec::Persist {
                domain: domain,
                fullchain: cert_pem@,
                chain: cert_pem@,
                key: key_pem@,
            },
        ),
        (IssuanceState::Finalized, AcmeEvent::DownloadErr) => (
            IssuanceState::Failed(IssuanceError::AcmeDownload),
            polls,
            ActionSpec::Abort { error: IssuanceError::AcmeDownload },
        ),
        (IssuanceState::Downloaded, AcmeEvent::PersistOk) => (
            IssuanceState::Persisted,
            polls,
            ActionSpec::Done,
        ),
        (IssuanceState::Downloaded, AcmeEvent::PersistErr) => (
            IssuanceState::Failed(IssuanceError::StoreFailure),
            polls,
            ActionSpec::Abort { error: IssuanceError::StoreFailure },
        ),
        (IssuanceState::Persisted, _) => (IssuanceState::Persisted, polls, ActionSpec::Done),
        (IssuanceState::Failed(e), _) => (
            IssuanceState::Failed(e),
            polls,
            ActionSpec::Abort { error: e },
        ),
        (_, _) => (
            IssuanceState::Failed(IssuanceError::Protocol),
            polls,
            ActionSpec::Abort { error: IssuanceError::Protocol },
        ),
    }
}

/// One in-flight issuance run for one domain.
#[derive(Debug)]
pub struct IssuanceMachine {
    pub domain: String,
    pub webroot: String,
    pub state: IssuanceState,
    pub polls_left: u8,
}

impl IssuanceMachine {
    /// Starts a run: the application requests a new order for `domain` from
    /// the authority and answers with the order outcome.
    pub fn new(domain: &str, webroot: &str) -> (r: IssuanceMachine)
        ensures
            r.domain@ == domain@,
            r.webroot@ == webroot@,
            r.state == IssuanceState::OrderCreated,
            r.polls_left == MAX_POLL_ROUNDS,
    {
        IssuanceMachine {
            domain: String::from_str(domain),
            webroot: String::from_str(webroot),
            state: IssuanceState::OrderCreated,
            polls_left: MAX_POLL_ROUNDS,
        }
    }

    /// Feeds the outcome of the last action and yields the next one,
    /// exactly as the transition table says.
    pub fn step(&mut self, ev: AcmeEvent) -> (r: IssuanceAction)
        ensures
            final(self).domain == old(self).domain,
            final(self).webroot == old(self).webroot,
            (final(self).state, final(self).polls_left, r@) == spec_step(
                old(self).state,
                old(self).polls_left,
                ev,
                old(self).webroot@,
                old(self).domain@,
            ),
    {
        match (self.state, ev) {
            (IssuanceState::OrderCreated, AcmeEvent::OrderOk) => {
                self.state = IssuanceState::AwaitingValidation;
                IssuanceAction::ConfirmValidations
            },
            (IssuanceState::OrderCreated, AcmeEvent::OrderErr) => self.fail(
                IssuanceError::AcmeOrder,
            ),
            (IssuanceState::AwaitingValidation, AcmeEvent::Confirmed) => {
                self.state = IssuanceState::Validated;
                IssuanceAction::Finalize { timeout_ms: ACME_WAIT_MS }
            },
            (IssuanceState::AwaitingValidation, AcmeEvent::NotConfirmed) => {
                if self.polls_left == 0 {
                    self.fail(IssuanceError::PollLimit)
                } else {
                    self.polls_left = self.polls_left - 1;
                    self.state = IssuanceState::AuthsPending;
                    IssuanceAction::FetchAuthorizations
                }
            },
            (IssuanceState::AuthsPending, AcmeEvent::Auths { token, proof }) => {
                self.state = IssuanceState::ChallengePublishing;
                let wk = path_join(self.webroot.as_str(), ".well-known");
                let dir = path_join(wk.as_str(), "acme-challenge");
                IssuanceAction::PublishChallenge { dir, name: token, content: proof }
            },
            (IssuanceState::AuthsPending, AcmeEvent::AuthsEmpty) => self.fail(
                IssuanceError::NoAuthorizations,
            ),
            (IssuanceState::AuthsPending, AcmeEvent::AuthsErr) => self.fail(
                IssuanceError::AcmeAuthorizations,
            ),
            (IssuanceState::ChallengePublishing, AcmeEvent::Published) => {
                self.state = IssuanceState::ChallengePublished;
                IssuanceAction::ValidateChallenge { timeout_ms: ACME_WAIT_MS }
            },
            (IssuanceState::ChallengePublishing, AcmeEvent::PublishErr) => self.fail(
                IssuanceError::StoreFailure,
            ),
            (IssuanceState::ChallengePublished, AcmeEvent::ValidateOk) => {
                self.state = IssuanceState::Refreshing;
                IssuanceAction::RefreshOrder
            },
            (IssuanceState::ChallengePublished, AcmeEvent::ValidateErr) => self.fail(
                IssuanceError::AcmeValidation,
            ),
            (IssuanceState::Refreshing, AcmeEvent::Refreshed) => {
                self.state = IssuanceState::AwaitingValidation;
                IssuanceAction::ConfirmValidations
            },
            (IssuanceState::Refreshing, AcmeEvent::RefreshErr) => self.fail(
                IssuanceError::AcmeRefresh,
            ),
            (IssuanceState::Validated, AcmeEvent::FinalizeOk) => {
                self.state = IssuanceState::Finalized;
                IssuanceAction::Download
            },
            (IssuanceState::Validated, AcmeEvent::FinalizeErr) => self.fail(
                IssuanceError::AcmeFinalize,
            ),
            (IssuanceState::Finalized, AcmeEvent::DownloadOk { cert_pem, key_pem }) => {
                self.state = IssuanceState::Downloaded;
                let bundle = CertificateBundle {
                    domain: self.domain.clone(),
                    fullchain_pem: cert_pem.clone(),
                    chain_pem: cert_pem,
                    private_key_pem: key_pem,
                };
                IssuanceAction::Persist { bundle }
            },
            (IssuanceState::Finalized, AcmeEvent::DownloadErr) => self.fail(
                IssuanceError::AcmeDownload,
            ),
            (IssuanceState::Downloaded, AcmeEvent::PersistOk) => {
                self.state = IssuanceState::Persisted;
                IssuanceAction::Done
            },
            (IssuanceState::Downloaded, AcmeEvent::PersistErr) => self.fail(
                IssuanceError::StoreFailure,
            ),
            (IssuanceState::Persisted, _) => IssuanceAction::Done,
            (IssuanceState::Failed(e), _) => IssuanceAction::Abort { error: e },
            (_, _) => self.fail(IssuanceError::Protocol),
        }
    }

    fn fail(&mut self, e: IssuanceError) -> (r: IssuanceAction)
        ensures
            final(self).domain == old(self).domain,
            final(self).webroot == old(self).webroot,
            final(self).polls_left == old(self).polls_left,
            final(self).state == IssuanceState::Failed(e),
            r@ == (ActionSpec::Abort { error: e }),
    {
        self.state = IssuanceState::Failed(e);
        IssuanceAction::Abort { error: e }
    }
}

/// Whether a run is over.
pub open spec fn is_terminal(s: IssuanceState) -> bool {
    s is Persisted || s is Failed
}

/// How far a run can still be from its end.
pub open spec fn rank(s: IssuanceState, polls: u8) -> int {
    match s {
        IssuanceState::OrderCreated => 6 * polls + 9,
        IssuanceState::AuthsPending => 6 * polls + 8,
        IssuanceState::ChallengePublishing => 6 * polls + 7,
        IssuanceState::ChallengePublished => 6 * polls + 6,
        IssuanceState::Refreshing => 6 * polls + 5,
        IssuanceState::AwaitingValidation => 6 * polls + 4,
        IssuanceState::Validated => 3,
        IssuanceState::Finalized => 2,
        IssuanceState::Downloaded => 1,
        IssuanceState::Persisted => 0,
        IssuanceState::Failed(_) => 0,
    }
}

/// Every issuance run ends: from any non-terminal state, any event strictly
/// decreases a nonnegative rank, so the driver's loop cannot run unboundedly
/// — in particular the validation poll loop stops within its budget.
pub proof fn lemma_issuance_terminates(
    s: IssuanceState,
    polls: u8,
    ev: AcmeEvent,
    webroot: Seq<char>,
    domain: Seq<char>,
)
    requires
        !is_terminal(s),
    ensures
        0 < rank(s, polls),
        rank(
            spec_step(s, polls, ev, webroot, domain).0,
            spec_step(s, polls, ev, webroot, domain).1,
        ) < rank(s, polls),
{
}

} // verus!
