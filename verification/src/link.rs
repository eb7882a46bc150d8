use vstd::prelude::*;

verus! {

/// Which connection procedure runs.
#[derive(Debug, Clone, Copy, PartialEq, Eq, Structural)]
pub enum LinkMode {
    /// Station only: after the retries run out, the node falls back to the
    /// provisioning portal.
    Station,
    /// Station beside the portal's access point: one attempt, and the portal
    /// stays up whatever happens.
    Provisioning,
}

/// Where the connection procedure stands.
#[derive(Debug, Clone, Copy, PartialEq, Eq, Structural)]
pub enum LinkPhase {
    /// At the head of the retry loop.
    Ready,
    /// Waiting for the stored network name and password.
    AwaitingCredentials,
    /// Waiting for the outcome of a connection attempt.
    Connecting,
    /// The procedure has ended.
    Finished,
}

/// What the outside world reports to the procedure.
#[derive(Debug, Clone, Copy, PartialEq, Eq, Structural)]
pub enum LinkEvent {
    /// Start, or resume after a pause.
    Resume,
    /// The stored credentials were read; says which of them are empty.
    CredentialsRead { ssid_empty: bool, password_empty: bool },
    /// The radio associated with the network.
    Connected,
    /// The association failed.
    ConnectFailed,
}

/// What the procedure asks the outside world to do next.
#[derive(Debug, Clone, Copy, PartialEq, Eq, Structural)]
pub enum LinkAction {
    /// Read the stored network name and password.
    ReadCredentials,
    /// Configure the radio with the credentials, start it, and try to connect.
    Attempt,
    /// Wait for the network interface to come up; the procedure succeeded.
    WaitForNetwork,
    /// Pause this long, then resume.
    RetryAfter { delay_ms: u32 },
    /// Give up on the network; the portal keeps running.
    GiveUp,
    /// No credentials are stored; stop trying.
    MissingCredentials,
    /// Store the provisioning mode and restart the device.
    FallBackToProvisioning,
    /// The event does not belong to this phase; nothing to do.
    Ignore,
}

/// The pause between two connection attempts.
pub const RETRY_DELAY_MS: u32 = 1000;

/// The abstract state of a connection procedure.
pub struct LinkState {
    pub mode: LinkMode,
    pub retries_left: int,
    pub phase: LinkPhase,
}

/// How many retries a procedure starts with.
pub open spec fn initial_retries(mode: LinkMode) -> int {
    match mode {
        LinkMode::Station => 3,
        LinkMode::Provisioning => 0,
    }
}

/// The state a procedure starts in.
pub open spec fn link_start(mode: LinkMode) -> LinkState {
    LinkState { mode, retries_left: initial_retries(mode), phase: LinkPhase::Ready }
}

/// One decision of the procedure: the next state and action for an event.
pub open spec fn link_next(s: LinkState, e: LinkEvent) -> (LinkState, LinkAction) {
    match (s.phase, e) {
        (LinkPhase::Ready, LinkEvent::Resume) => if s.retries_left < 0 {
            (
                LinkState { phase: LinkPhase::Finished, ..s },
                match s.mode {
                    LinkMode::Station => LinkAction::FallBackToProvisioning,
                    LinkMode::Provisioning => LinkAction::GiveUp,
                },
            )
        } else {
            (LinkState { phase: LinkPhase::AwaitingCredentials, ..s }, LinkAction::ReadCredentials)
        },
        (LinkPhase::AwaitingCredentials, LinkEvent::CredentialsRead { ssid_empty, password_empty }) => {
            if s.mode == LinkMode::Provisioning && (ssid_empty || password_empty) {
                (LinkState { phase: LinkPhase::Finished, ..s }, LinkAction::MissingCredentials)
            } else {
                (LinkState { phase: LinkPhase::Connecting, ..s }, LinkAction::Attempt)
            }
        },
        (LinkPhase::Connecting, LinkEvent::Connected) => (
            LinkState { phase: LinkPhase::Finished, ..s },
            LinkAction::WaitForNetwork,
        ),
        (LinkPhase::Connecting, LinkEvent::ConnectFailed) => (
            LinkState { phase: LinkPhase::Ready, retries_left: s.retries_left - 1, ..s },
            LinkAction::RetryAfter { delay_ms: RETRY_DELAY_MS },
        ),
        _ => (s, LinkAction::Ignore),
    }
}

/// A connection procedure for the Wi-Fi station.
#[derive(Debug, Clone, Copy)]
pub struct Link {
    mode: LinkMode,
    retries_left: i32,
    phase: LinkPhase,
}

impl View for Link {
    type V = LinkState;

    closed spec fn view(&self) -> LinkState {
        LinkState { mode: self.mode, retries_left: self.retries_left as int, phase: self.phase }
    }
}

impl Link {
    #[verifier::type_invariant]
    spec fn inv(self) -> bool {
        &&& self.retries_left >= -1
        &&& (self.phase == LinkPhase::AwaitingCredentials || self.phase == LinkPhase::Connecting)
            ==> self.retries_left >= 0
    }

    /// A procedure at its start.
    pub fn start(mode: LinkMode) -> (link: Link)
        ensures
            link@ == link_start(mode),
    {
        let retries_left: i32 = match mode {
            LinkMode::Station => 3,
            LinkMode::Provisioning => 0,
        };
        Link { mode, retries_left, phase: LinkPhase::Ready }
    }

    /// Feeds one event to the procedure: the next procedure state and the
    /// action to perform.
    pub fn step(self, event: LinkEvent) -> (next: (Link, LinkAction))
        ensures
            (next.0@, next.1) == link_next(self@, event),
    {
        proof {
            use_type_invariant(&self);
        }
        match (self.phase, event) {
            (LinkPhase::Ready, LinkEvent::Resume) => {
                if self.retries_left < 0 {
                    let action = match self.mode {
                        LinkMode::Station => LinkAction::FallBackToProvisioning,
                        LinkMode::Provisioning => LinkAction::GiveUp,
                    };
                    (Link { phase: LinkPhase::Finished, ..self }, action)
                } else {
                    (
                        Link { phase: LinkPhase::AwaitingCredentials, ..self },
                        LinkAction::ReadCredentials,
                    )
                }
            },
            (
                LinkPhase::AwaitingCredentials,
                LinkEvent::CredentialsRead { ssid_empty, password_empty },
            ) => {
                let provisioning = match self.mode {
                    LinkMode::Provisioning => true,
                    LinkMode::Station => false,
                };
                if provisioning && (ssid_empty || password_empty) {
                    (Link { phase: LinkPhase::Finished, ..self }, LinkAction::MissingCredentials)
                } else {
                    (Link { phase: LinkPhase::Connecting, ..self }, LinkAction::Attempt)
                }
            },
            (LinkPhase::Connecting, LinkEvent::Connected) => {
                (Link { phase: LinkPhase::Finished, ..self }, LinkAction::WaitForNetwork)
            },
            (LinkPhase::Connecting, LinkEvent::ConnectFailed) => {
                (
                    Link {
                        phase: LinkPhase::Ready,
                        retries_left: self.retries_left - 1,
                        mode: self.mode,
                    },
                    LinkAction::RetryAfter { delay_ms: RETRY_DELAY_MS },
                )
            },
            _ => (self, LinkAction::Ignore),
        }
    }

    /// The procedure's mode.
    pub fn mode(&self) -> (m: LinkMode)
        ensures
            m == self@.mode,
    {
        self.mode
    }

    /// How many retries are left; below zero once they have run out.
    pub fn retries_left(&self) -> (r: i32)
        ensures
            r as int == self@.retries_left,
    {
        self.retries_left
    }

    /// Where the procedure stands.
    pub fn phase(&self) -> (p: LinkPhase)
        ensures
            p == self@.phase,
    {
        self.phase
    }
}

/// The state after one failed attempt, starting at the head of the loop with
/// non-empty credentials: resume, read credentials, attempt, fail.
pub open spec fn after_failed_attempt(s: LinkState) -> LinkState {
    let s1 = link_next(s, LinkEvent::Resume).0;
    let s2 = link_next(
        s1,
        LinkEvent::CredentialsRead { ssid_empty: false, password_empty: false },
    ).0;
    link_next(s2, LinkEvent::ConnectFailed).0
}

/// The state after `n` failed attempts in a row.
pub open spec fn after_failed_attempts(s: LinkState, n: nat) -> LinkState
    decreases n,
{
    if n == 0 {
        s
    } else {
        after_failed_attempt(after_failed_attempts(s, (n - 1) as nat))
    }
}

/// How many connection attempts a procedure makes before it stops trying.
pub open spec fn attempts_allowed(mode: LinkMode) -> int {
    initial_retries(mode) + 1
}

proof fn lemma_failures_count_down(mode: LinkMode, n: nat)
    requires
        n <= attempts_allowed(mode),
    ensures
        after_failed_attempts(link_start(mode), n) == (LinkState {
            mode,
            retries_left: initial_retries(mode) - n,
            phase: LinkPhase::Ready,
        }),
    decreases n,
{
    if n > 0 {
        lemma_failures_count_down(mode, (n - 1) as nat);
    }
}

/// Law: with the network unreachable, a procedure makes exactly
/// `attempts_allowed(mode)` attempts (four for the station, one beside the
/// portal), pausing after each failure; then the station falls back to the
/// provisioning portal and the portal gives up.
pub proof fn lemma_attempt_budget(mode: LinkMode, n: nat)
    requires
        n <= attempts_allowed(mode),
    ensures
        n < attempts_allowed(mode) ==> link_next(
            after_failed_attempts(link_start(mode), n),
            LinkEvent::Resume,
        ).1 == LinkAction::ReadCredentials,
        n == attempts_allowed(mode) ==> link_next(
            after_failed_attempts(link_start(mode), n),
            LinkEvent::Resume,
        ).1 == (match mode {
            LinkMode::Station => LinkAction::FallBackToProvisioning,
            LinkMode::Provisioning => LinkAction::GiveUp,
        }),
{
    lemma_failures_count_down(mode, n);
}

/// Law: every failed attempt is followed by the retry pause, and costs one retry.
pub proof fn lemma_failure_pauses(s: LinkState)
    requires
        s.phase == LinkPhase::Connecting,
    ensures
        link_next(s, LinkEvent::ConnectFailed).1 == (LinkAction::RetryAfter {
            delay_ms: RETRY_DELAY_MS,
        }),
        link_next(s, LinkEvent::ConnectFailed).0.retries_left == s.retries_left - 1,
{
}

/// Law: a successful association always ends the procedure with the wait
/// for the network, whatever the mode and the retries left.
pub proof fn lemma_success_finishes(s: LinkState)
    requires
        s.phase == LinkPhase::Connecting,
    ensures
        link_next(s, LinkEvent::Connected) == (
            LinkState { phase: LinkPhase::Finished, ..s },
            LinkAction::WaitForNetwork,
        ),
{
}

/// Law: a finished procedure ignores every event and stays finished.
pub proof fn lemma_finished_is_final(s: LinkState, e: LinkEvent)
    requires
        s.phase == LinkPhase::Finished,
    ensures
        link_next(s, e) == (s, LinkAction::Ignore),
{
}

/// Law: the station never stops for want of credentials; only the portal
/// does, and only when one of them is empty.
pub proof fn lemma_missing_credentials(s: LinkState, ssid_empty: bool, password_empty: bool)
    requires
        s.phase == LinkPhase::AwaitingCredentials,
    ensures
        link_next(s, LinkEvent::CredentialsRead { ssid_empty, password_empty }).1
            == LinkAction::MissingCredentials <==> (s.mode == LinkMode::Provisioning && (
        ssid_empty || password_empty)),
{
}

/// Law: the station tries the network whenever it has read the stored
/// credentials, whatever of them is empty.
pub proof fn lemma_station_always_attempts(s: LinkState, ssid_empty: bool, password_empty: bool)
    requires
        s.mode == LinkMode::Station,
        s.phase == LinkPhase::AwaitingCredentials,
    ensures
        link_next(s, LinkEvent::CredentialsRead { ssid_empty, password_empty }) == (
            LinkState { phase: LinkPhase::Connecting, ..s },
            LinkAction::Attempt,
        ),
{
}

/// Law: beside the portal, credentials that are both present lead to an
/// attempt; a missing one stops the procedure.
pub proof fn lemma_portal_credentials(s: LinkState, ssid_empty: bool, password_empty: bool)
    requires
        s.mode == LinkMode::Provisioning,
        s.phase == LinkPhase::AwaitingCredentials,
    ensures
        link_next(s, LinkEvent::CredentialsRead { ssid_empty, password_empty }) == (if ssid_empty
            || password_empty {
            (LinkState { phase: LinkPhase::Finished, ..s }, LinkAction::MissingCredentials)
        } else {
            (LinkState { phase: LinkPhase::Connecting, ..s }, LinkAction::Attempt)
        }),
{
}

/// Law: at the head of the loop, a procedure with retries left reads the
/// credentials; one without gives up, the station by falling back to the portal.
pub proof fn lemma_resume(s: LinkState)
    requires
        s.phase == LinkPhase::Ready,
    ensures
        link_next(s, LinkEvent::Resume) == (if s.retries_left >= 0 {
            (LinkState { phase: LinkPhase::AwaitingCredentials, ..s }, LinkAction::ReadCredentials)
        } else if s.mode == LinkMode::Station {
            (LinkState { phase: LinkPhase::Finished, ..s }, LinkAction::FallBackToProvisioning)
        } else {
            (LinkState { phase: LinkPhase::Finished, ..s }, LinkAction::GiveUp)
        }),
{
}

/// Law: each action comes only from its own situation: the fallback and the
/// giving up only from the head of the loop with the retries spent, an
/// attempt only after the credentials were read, the wait for the network
/// only after an association, a pause only after a failure.
pub proof fn lemma_action_sources(s: LinkState, e: LinkEvent)
    ensures
        link_next(s, e).1 == LinkAction::FallBackToProvisioning ==> (s.mode == LinkMode::Station
            && s.phase == LinkPhase::Ready && e == LinkEvent::Resume && s.retries_left < 0),
        link_next(s, e).1 == LinkAction::GiveUp ==> (s.mode == LinkMode::Provisioning && s.phase
            == LinkPhase::Ready && e == LinkEvent::Resume && s.retries_left < 0),
        link_next(s, e).1 == LinkAction::Attempt ==> (s.phase == LinkPhase::AwaitingCredentials
            && e is CredentialsRead),
        link_next(s, e).1 == LinkAction::WaitForNetwork ==> (s.phase == LinkPhase::Connecting && e
            == LinkEvent::Connected),
        link_next(s, e).1 is RetryAfter ==> (s.phase == LinkPhase::Connecting && e
            == LinkEvent::ConnectFailed),
        link_next(s, e).1 == LinkAction::MissingCredentials ==> (s.mode == LinkMode::Provisioning
            && s.phase == LinkPhase::AwaitingCredentials),
{
}

/// Law: the mode never changes, and the retries left never grow: only a
/// failed attempt spends one.
pub proof fn lemma_retries_only_shrink(s: LinkState, e: LinkEvent)
    ensures
        link_next(s, e).0.mode == s.mode,
        link_next(s, e).0.retries_left == s.retries_left || (link_next(s, e).0.retries_left
            == s.retries_left - 1 && e == LinkEvent::ConnectFailed),
{
}

/// Law: a failed attempt sends the procedure back to the head of the loop
/// with one retry fewer, pausing first; nothing else changes.
pub proof fn lemma_failure_returns_to_ready(s: LinkState)
    requires
        s.phase == LinkPhase::Connecting,
    ensures
        link_next(s, LinkEvent::ConnectFailed) == (
            LinkState { phase: LinkPhase::Ready, retries_left: s.retries_left - 1, mode: s.mode },
            LinkAction::RetryAfter { delay_ms: RETRY_DELAY_MS },
        ),
{
}

/// Law: an event that does not belong to the current phase changes nothing.
pub proof fn lemma_other_events_ignored(s: LinkState, e: LinkEvent)
    requires
        !(s.phase == LinkPhase::Ready && e == LinkEvent::Resume),
        !(s.phase == LinkPhase::AwaitingCredentials && e is CredentialsRead),
        !(s.phase == LinkPhase::Connecting && (e == LinkEvent::Connected || e
            == LinkEvent::ConnectFailed)),
    ensures
        link_next(s, e) == (s, LinkAction::Ignore),
{
}

} // verus!
