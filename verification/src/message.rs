//! The messages that enter the pipeline.
use vstd::prelude::*;
use zenoh_protocol::network::NetworkMessage;
use zenoh_protocol::transport::TransportMessage;

use crate::config::PRIORITY_NUM;

verus! {

/// A message of the application.
#[verifier::external_type_specification]
#[verifier::external_body]
pub struct ExNetworkMessage(NetworkMessage);

/// A control message of the protocol.
#[verifier::external_type_specification]
#[verifier::external_body]
pub struct ExTransportMessage(TransportMessage);

/// Whether a message travels on the reliable channel, as the message
/// says of itself.
pub uninterp spec fn message_reliable(msg: NetworkMessage) -> bool;

/// Whether the sender may drop a message under congestion, as the
/// message says of itself.
pub uninterp spec fn message_droppable(msg: NetworkMessage) -> bool;

/// The number of the priority level of a message, as the message says
/// of itself.
pub uninterp spec fn message_priority(msg: NetworkMessage) -> u8;

/// `NetworkMessage::is_reliable`: what the message says of its channel.
pub assume_specification[ NetworkMessage::is_reliable ](m: &NetworkMessage) -> (r: bool)
    ensures
        r == message_reliable(*m),
;

/// `NetworkMessage::is_droppable`: what the message says of its
/// congestion control.
pub assume_specification[ NetworkMessage::is_droppable ](m: &NetworkMessage) -> (r: bool)
    ensures
        r == message_droppable(*m),
;

/// `NetworkMessage::priority`, as the number of the priority level.
/// The outside enum has eight levels, numbered from zero.
#[verifier::external_body]
fn network_priority(m: &NetworkMessage) -> (p: u8)
    ensures
        p == message_priority(*m),
        p < PRIORITY_NUM,
{
    m.priority() as u8
}

/// An application message together with what the pipeline reads of it:
/// its channel, whether it may be dropped, and its priority level. What
/// is recorded is always what the message says of itself.
pub struct NetMessage {
    msg: NetworkMessage,
    reliable: bool,
    droppable: bool,
    priority: u8,
}

impl NetMessage {
    #[verifier::type_invariant]
    closed spec fn inv(self) -> bool {
        &&& self.priority < PRIORITY_NUM
        &&& self.reliable == message_reliable(self.msg)
        &&& self.droppable == message_droppable(self.msg)
        &&& self.priority == message_priority(self.msg)
    }

    /// The message that is kept.
    pub closed spec fn spec_message(&self) -> NetworkMessage {
        self.msg
    }

    /// The channel of the message.
    pub open spec fn spec_is_reliable(&self) -> bool {
        message_reliable(self.spec_message())
    }

    /// Whether the message may be dropped.
    pub open spec fn spec_is_droppable(&self) -> bool {
        message_droppable(self.spec_message())
    }

    /// The priority level of the message.
    pub open spec fn spec_priority(&self) -> u8 {
        message_priority(self.spec_message())
    }

    /// Keeps `msg`, and beside it the channel, the congestion control
    /// and the priority that `msg` gives for itself.
    pub fn new(msg: NetworkMessage) -> (m: NetMessage)
        ensures
            m.spec_message() == msg,
            m.spec_priority() < PRIORITY_NUM,
    {
        let reliable = msg.is_reliable();
        let droppable = msg.is_droppable();
        let priority: u8 = network_priority(&msg);
        NetMessage { msg, reliable, droppable, priority }
    }

    #[verifier::when_used_as_spec(spec_is_reliable)]
    pub fn is_reliable(&self) -> (r: bool)
        ensures
            r == self.spec_is_reliable(),
    {
        proof {
            use_type_invariant(self);
        }
        self.reliable
    }

    #[verifier::when_used_as_spec(spec_is_droppable)]
    pub fn is_droppable(&self) -> (r: bool)
        ensures
            r == self.spec_is_droppable(),
    {
        proof {
            use_type_invariant(self);
        }
        self.droppable
    }

    #[verifier::when_used_as_spec(spec_priority)]
    pub fn priority(&self) -> (p: u8)
        ensures
            p == self.spec_priority(),
            p < PRIORITY_NUM,
    {
        proof {
            use_type_invariant(self);
        }
        self.priority
    }

    /// The message itself.
    pub fn message(&self) -> (msg: &NetworkMessage)
        ensures
            *msg == self.spec_message(),
    {
        &self.msg
    }
}

} // verus!
