//! Bootstrapping the organization, once.
//!
//! Signing in is the honest question: a conflict from the bootstrap route is
//! only reachable when its gate is an admin e-mail, so "already done" is never
//! inferred from a status code alone. Only when the saved super-admin cannot
//! sign in is the one-shot bootstrap called, and a consumed gate with no
//! working credential is reported as what it is: a reset is required.

use vstd::prelude::*;
use vstd::string::*;

use crate::hand_rolled::BootstrapOutcome;

verus! {

/// Where the stage stands.
#[derive(Debug, Clone, Copy, PartialEq, Eq, Structural)]
pub enum OrgPhase {
    /// Signing in with the saved super-admin, to see whether anything is
    /// left to do.
    Probing,
    /// The bootstrap route was called.
    Bootstrapping,
    /// The setup-token gate is spent; trying the stored credential one last
    /// time, in case it works after all.
    Retrying,
    /// The organization exists; proving the session before finishing.
    Verifying,
}

/// What the driver reported.
#[derive(Debug, Clone, Copy, PartialEq, Eq, Structural)]
pub enum OrgEvent {
    /// The saved super-admin signed in.
    SignedIn,
    /// It could not sign in.
    SignInRefused,
    /// The bootstrap route answered.
    Bootstrapped(BootstrapOutcome),
    /// Whether the session is authenticated, once the organization exists.
    Session(bool),
}

/// What the driver does next.
#[derive(Debug, Clone, Copy, PartialEq, Eq, Structural)]
pub enum OrgAction {
    /// Call the bootstrap route, with the setup token if there is one.
    CallBootstrap,
    /// Sign in with the saved super-admin.
    SignIn,
    /// Report whether the session is authenticated.
    CheckSession,
    /// Sign in to prove the credential, then finish.
    SignInAndFinish,
    /// Nothing left to do: record the stage as done.
    Finish,
    /// The setup-token gate is spent and no stored credential signs in: this
    /// volume can no longer be bootstrapped, and a reset is required.
    ResetRequired,
    /// The event does not belong to this phase.
    Unexpected,
}

/// One step of the stage, from the phase and what the driver reported.
pub open spec fn spec_org_step(phase: OrgPhase, event: OrgEvent) -> (OrgPhase, OrgAction) {
    match (phase, event) {
        (OrgPhase::Probing, OrgEvent::SignedIn) => (phase, OrgAction::Finish),
        (OrgPhase::Probing, OrgEvent::SignInRefused) => (OrgPhase::Bootstrapping, OrgAction::CallBootstrap),
        (OrgPhase::Bootstrapping, OrgEvent::Bootstrapped(BootstrapOutcome::GateConsumed)) =>
            (OrgPhase::Retrying, OrgAction::SignIn),
        (OrgPhase::Bootstrapping, OrgEvent::Bootstrapped(_)) => (OrgPhase::Verifying, OrgAction::CheckSession),
        (OrgPhase::Retrying, OrgEvent::SignedIn) => (OrgPhase::Verifying, OrgAction::CheckSession),
        (OrgPhase::Retrying, OrgEvent::SignInRefused) => (phase, OrgAction::ResetRequired),
        (OrgPhase::Verifying, OrgEvent::Session(true)) => (phase, OrgAction::Finish),
        (OrgPhase::Verifying, OrgEvent::Session(false)) => (phase, OrgAction::SignInAndFinish),
        _ => (phase, OrgAction::Unexpected),
    }
}

/// Where the stage starts: probing with the saved credential.
pub fn org_start() -> (r: (OrgPhase, OrgAction))
    ensures
        r == (OrgPhase::Probing, OrgAction::SignIn),
{
    (OrgPhase::Probing, OrgAction::SignIn)
}

/// One step of the stage.
pub fn org_step(phase: OrgPhase, event: OrgEvent) -> (r: (OrgPhase, OrgAction))
    ensures
        r == spec_org_step(phase, event),
{
    match (phase, event) {
        (OrgPhase::Probing, OrgEvent::SignedIn) => (phase, OrgAction::Finish),
        (OrgPhase::Probing, OrgEvent::SignInRefused) => (OrgPhase::Bootstrapping, OrgAction::CallBootstrap),
        (OrgPhase::Bootstrapping, OrgEvent::Bootstrapped(BootstrapOutcome::GateConsumed)) =>
            (OrgPhase::Retrying, OrgAction::SignIn),
        (OrgPhase::Bootstrapping, OrgEvent::Bootstrapped(_)) => (OrgPhase::Verifying, OrgAction::CheckSession),
        (OrgPhase::Retrying, OrgEvent::SignedIn) => (OrgPhase::Verifying, OrgAction::CheckSession),
        (OrgPhase::Retrying, OrgEvent::SignInRefused) => (phase, OrgAction::ResetRequired),
        (OrgPhase::Verifying, OrgEvent::Session(true)) => (phase, OrgAction::Finish),
        (OrgPhase::Verifying, OrgEvent::Session(false)) => (phase, OrgAction::SignInAndFinish),
        _ => (phase, OrgAction::Unexpected),
    }
}

/// The setup token to bootstrap with: the one given, else the saved one.
pub fn setup_token(given: Option<&str>, saved: Option<&str>) -> (r: Option<String>)
    ensures
        match given {
            Some(g) => r matches Some(t) && t@ == g@,
            None => match saved {
                Some(s) => r matches Some(t) && t@ == s@,
                None => r is None,
            },
        },
{
    match given {
        Some(g) => Some(g.to_owned()),
        None => match saved {
            Some(s) => Some(s.to_owned()),
            None => None,
        },
    }
}

/// A bootstrap is never attempted while the saved credential signs in, and
/// a reset is demanded only after the bootstrap gate was found consumed and
/// the saved credential was refused a second time.
pub proof fn lemma_reset_only_after_a_consumed_gate(phase: OrgPhase, event: OrgEvent)
    ensures
        spec_org_step(phase, event).1 == OrgAction::ResetRequired ==> phase == OrgPhase::Retrying
            && event == OrgEvent::SignInRefused,
        spec_org_step(phase, event).1 == OrgAction::CallBootstrap ==> phase == OrgPhase::Probing
            && event == OrgEvent::SignInRefused,
        spec_org_step(phase, event).0 == OrgPhase::Retrying ==> phase == OrgPhase::Retrying
            || event == OrgEvent::Bootstrapped(BootstrapOutcome::GateConsumed),
{
}

} // verus!
