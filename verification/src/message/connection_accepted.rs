//! A peer accepted a connection that this side began.
//!
//! The peer announces its alias of the sub-protocol and sends a payload by
//! which the handler may tell who is speaking. Where the handler accepts, the
//! peer's alias is recorded and the connection is confirmed under this side's
//! own alias; where it denies, or the sub-protocol is not registered, nothing
//! is recorded and nothing is answered.

use crate::lifecycle::accepted;
use crate::message::{payload_view, reply_view, Message, Payload, ProtocolId, ProtocolKey};
use crate::node::{Delegate, Node};
use crate::protocol::Handler;
use crate::transport::PeerAddress;
use vstd::prelude::*;

verus! {

/// What answering an acceptance does: where the sub-protocol is registered,
/// its handler is asked about the peer and the payload, and the registry and
/// the reply follow from its answer; where it is not, nothing changes and
/// nothing is answered.
pub open spec fn answered<H: Handler, D: Delegate>(
    before: Node<H, D>,
    address: PeerAddress,
    protocol_id: ProtocolId,
    peer_key: ProtocolKey,
    payload: Payload,
    after: Node<H, D>,
    reply: Option<Message>,
) -> bool {
    if before@.has(protocol_id@) {
        exists|verdict: Option<Payload>|
            {
                &&& #[trigger] call_ensures(
                    H::verify_accepted_connection,
                    (&before.handler_of(protocol_id@), address, payload),
                    verdict,
                )
                &&& (after@, reply_view(reply)) == accepted(
                    before@,
                    address@,
                    protocol_id@,
                    peer_key,
                    payload_view(verdict),
                )
            }
    } else {
        after@ == before@ && reply is None
    }
}

/// Acts on the handler's answer to an acceptance: `verdict` is the payload of
/// the confirmation, or nothing where the handler denied.
pub fn conclude<H: Handler, D: Delegate>(
    node: &mut Node<H, D>,
    address: PeerAddress,
    protocol_id: ProtocolId,
    peer_key: ProtocolKey,
    verdict: Option<Payload>,
) -> (reply: Option<Message>)
    requires
        old(node).wf(),
    ensures
        final(node).wf(),
        final(node).keeps_handlers(old(node)),
        (final(node)@, reply_view(reply)) == accepted(
            old(node)@,
            address@,
            protocol_id@,
            peer_key,
            payload_view(verdict),
        ),
{
    let my_key = match node.get_protocol(&protocol_id) {
        None => {
            return None;
        },
        Some(protocol) => protocol.key,
    };
    let payload = match verdict {
        Some(payload) => payload,
        None => {
            return None;
        },
    };
    node.register_peer_key(address, &protocol_id, peer_key);
    Some(Message::ConnectionConfirmed { protocol: protocol_id, key: my_key, payload })
}

/// Answers an acceptance from the peer at `address`.
pub fn handle<H: Handler, D: Delegate>(
    node: &mut Node<H, D>,
    address: PeerAddress,
    protocol_id: ProtocolId,
    peer_key: ProtocolKey,
    payload: Payload,
) -> (reply: Option<Message>)
    requires
        old(node).wf(),
    ensures
        final(node).wf(),
        final(node).keeps_handlers(old(node)),
        answered(*old(node), address, protocol_id, peer_key, payload, *final(node), reply),
{
    let peer = address.clone();
    let verdict = match node.get_protocol(&protocol_id) {
        None => {
            return None;
        },
        Some(protocol) => protocol.handler.verify_accepted_connection(address, payload),
    };
    conclude(node, peer, protocol_id, peer_key, verdict)
}

} // verus!
