//! The event forwarder's decisions: what to do with each item a subscriber
//! receives from the broadcast channel. The connection and the publish call
//! belong to the caller; every choice it acts on is made here.

use vstd::prelude::*;

use crate::signer::{encode_envelope, envelope_json, EventEnvelope};

verus! {

/// Where a forwarder sends its envelopes.
pub struct JetStreamForwarderConfig {
    /// The server addresses to connect to.
    pub servers: String,
    /// The subject each envelope is published under.
    pub subject: String,
    /// The stream whose existence is checked at startup, if any.
    pub stream: Option<String>,
}

/// One item a forwarder receives from its subscription.
pub enum ForwarderEvent {
    /// An envelope arrived.
    Envelope(EventEnvelope),
    /// The channel closed: there is nothing more to forward.
    Closed,
    /// The subscriber lagged and the channel skipped this many envelopes;
    /// downstream recovery uses the dedupe key and the store.
    Lagged(u64),
}

/// What the forwarder must do with one received item.
pub enum ForwarderStep {
    /// Publish these wire bytes under the configured subject.
    Publish(Vec<u8>),
    /// Stop forwarding.
    Stop,
    /// Skip the item and keep receiving.
    Continue,
}

/// Decides one forwarder iteration: an envelope is rendered for the wire
/// and published, a closed channel stops the forwarder, and lag is skipped.
pub fn forwarder_step(event: ForwarderEvent) -> (r: ForwarderStep)
    ensures
        match event {
            ForwarderEvent::Envelope(env) => r matches ForwarderStep::Publish(bytes)
                && bytes@ == vstd::utf8::encode_utf8(
                crate::json::canon_json(envelope_json(env@)),
            ),
            ForwarderEvent::Closed => r is Stop,
            ForwarderEvent::Lagged(_) => r is Continue,
        },
{
    match event {
        ForwarderEvent::Envelope(env) => ForwarderStep::Publish(encode_envelope(&env)),
        ForwarderEvent::Closed => ForwarderStep::Stop,
        ForwarderEvent::Lagged(_) => ForwarderStep::Continue,
    }
}

} // verus!
