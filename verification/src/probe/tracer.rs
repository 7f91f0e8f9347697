//! The single-device tracer: one login, one CONNECT, one publish that must
//! come back on the device's own subscription.
//!
//! The round trip is strictly stronger evidence than the publish
//! acknowledgement: a message that came back was necessarily published, and
//! the broker may deliver the subscribed copy before the acknowledgement.

use vstd::prelude::*;
use vstd::string::*;

use crate::probe::matrix::ConnectCode;
use crate::text::{concat3, str_eq};
use crate::topic::{device_prefix, spec_device_prefix};

verus! {

/// Everything the tracer sends, derived from the tenant and the account.
#[derive(Debug, Clone)]
pub struct TracerPlan {
    /// `CN=` and the account: the certificate's subject.
    pub client_id: String,
    /// The device's own `reported` topic.
    pub topic: String,
    /// Everything beneath the device's own prefix.
    pub filter: String,
    /// The message it publishes.
    pub payload: String,
}

/// The tracer's client identifier, topic, filter and payload.
pub fn tracer_plan(tenant: &str, sa_id: &str) -> (r: TracerPlan)
    ensures
        r.client_id@ == "CN="@ + sa_id@,
        r.topic@ == spec_device_prefix(tenant@, sa_id@) + "/reported"@,
        r.filter@ == spec_device_prefix(tenant@, sa_id@) + "/#"@,
        r.payload@ == "{\"probe\":\""@ + sa_id@ + "\",\"state\":\"online\"}"@,
{
    let prefix = device_prefix(tenant, sa_id);
    let mut topic = prefix.clone();
    topic.append("/reported");
    let mut filter = prefix;
    filter.append("/#");
    let mut client_id = String::from_str("CN=");
    client_id.append(sa_id);
    TracerPlan {
        client_id,
        topic,
        filter,
        payload: concat3("{\"probe\":\"", sa_id, "\",\"state\":\"online\"}"),
    }
}

/// What the tracer has seen so far.
#[derive(Debug, Clone, Copy, PartialEq, Eq, Structural)]
pub struct TracerState {
    pub subscribed: bool,
    pub published: bool,
    pub round_tripped: bool,
}

/// What the connection reported next.
#[derive(Debug, Clone)]
pub enum TracerEvent {
    /// A CONNACK, with its return code.
    ConnAck(ConnectCode),
    /// The subscription was acknowledged.
    SubAck,
    /// The publish was acknowledged.
    PubAck,
    /// A message arrived on this topic.
    Message(String),
    /// Anything else.
    Other,
    /// The connection failed with this error text: a CONNACK refusal or a
    /// TLS alert.
    Failed(String),
}

/// What the driver does next.
#[derive(Debug, Clone, PartialEq, Eq)]
pub enum TracerAction {
    /// Report the CONNACK's code and subscribe to the filter.
    Subscribe(ConnectCode),
    /// Report the subscription and publish the payload.
    Publish,
    /// Report the acknowledged publish.
    Acknowledged,
    /// Report the round trip; the run is complete.
    RoundTrip,
    /// Keep polling.
    Wait,
    /// Stop: the connection failed with this text.
    Fail(String),
}

/// Why the tracer failed.
#[derive(Debug, Clone, PartialEq, Eq)]
pub enum TracerFailure {
    /// The connection itself failed, with the broker's own reason.
    ConnectionFailed(String),
    /// No subscription acknowledgement: the broker refused the subscription.
    NeverSubscribed,
    /// The publish was acknowledged but the message never came back.
    NoRoundTrip,
    /// No publish acknowledgement: the broker refused the publish.
    NeverPublished,
}

/// A fresh run: nothing seen yet.
pub fn tracer_start() -> (r: TracerState)
    ensures
        r == (TracerState { subscribed: false, published: false, round_tripped: false }),
{
    TracerState { subscribed: false, published: false, round_tripped: false }
}

/// Whether the run still waits for its round trip.
pub fn tracer_running(state: TracerState) -> (r: bool)
    ensures
        r == !state.round_tripped,
{
    !state.round_tripped
}

/// One step of the tracer. Every CONNACK leads to the subscription (a
/// refusing one arrives as a failed connection instead); the subscription's
/// acknowledgement to the publish; a message on the device's own topic
/// completes the round trip.
pub fn tracer_step(state: TracerState, event: TracerEvent, topic: &str) -> (r: (TracerState, TracerAction))
    ensures
        match event {
            TracerEvent::ConnAck(code) => r.0 == state && r.1 == TracerAction::Subscribe(code),
            TracerEvent::SubAck => r.0 == (TracerState { subscribed: true, ..state }) && r.1 == TracerAction::Publish,
            TracerEvent::PubAck => r.0 == (TracerState { published: true, ..state })
                && r.1 == TracerAction::Acknowledged,
            TracerEvent::Message(t) => if t@ == topic@ {
                r.0 == (TracerState { round_tripped: true, ..state }) && r.1 == TracerAction::RoundTrip
            } else {
                r.0 == state && r.1 == TracerAction::Wait
            },
            TracerEvent::Other => r.0 == state && r.1 == TracerAction::Wait,
            TracerEvent::Failed(e) => r.0 == state && r.1 == TracerAction::Fail(e),
        },
{
    match event {
        TracerEvent::ConnAck(code) => (state, TracerAction::Subscribe(code)),
        TracerEvent::SubAck => (
            TracerState { subscribed: true, published: state.published, round_tripped: state.round_tripped },
            TracerAction::Publish,
        ),
        TracerEvent::PubAck => (
            TracerState { subscribed: state.subscribed, published: true, round_tripped: state.round_tripped },
            TracerAction::Acknowledged,
        ),
        TracerEvent::Message(t) => {
            if str_eq(t.as_str(), topic) {
                (
                    TracerState { subscribed: state.subscribed, published: state.published, round_tripped: true },
                    TracerAction::RoundTrip,
                )
            } else {
                (state, TracerAction::Wait)
            }
        },
        TracerEvent::Other => (state, TracerAction::Wait),
        TracerEvent::Failed(e) => (state, TracerAction::Fail(e)),
    }
}

/// The verdict once the run stops: the subscription must have been
/// acknowledged, and the message must have come back; a publish that was
/// acknowledged without coming back is told apart from one that never was.
pub open spec fn spec_tracer_verdict(state: TracerState) -> Result<(), TracerFailure> {
    if !state.subscribed {
        Err(TracerFailure::NeverSubscribed)
    } else if state.round_tripped {
        Ok(())
    } else if state.published {
        Err(TracerFailure::NoRoundTrip)
    } else {
        Err(TracerFailure::NeverPublished)
    }
}

/// The verdict once the run stops.
pub fn tracer_verdict(state: TracerState) -> (r: Result<(), TracerFailure>)
    ensures
        r == spec_tracer_verdict(state),
{
    if !state.subscribed {
        Err(TracerFailure::NeverSubscribed)
    } else if state.round_tripped {
        Ok(())
    } else if state.published {
        Err(TracerFailure::NoRoundTrip)
    } else {
        Err(TracerFailure::NeverPublished)
    }
}

/// A run that completed the round trip passes, whether or not the publish
/// acknowledgement was seen: the message that came back was necessarily
/// published.
pub proof fn lemma_round_trip_suffices(state: TracerState)
    requires
        state.subscribed,
        state.round_tripped,
    ensures
        spec_tracer_verdict(state) == Ok::<(), TracerFailure>(()),
{
}

} // verus!
