//! A peer confirmed a connection that it began and this side accepted.
//!
//! The peer knows this side's alias and announces its own. Where the handler
//! finds the confirmation genuine, the peer's alias is recorded. Nothing is
//! answered.

use crate::lifecycle::confirmed;
use crate::message::{Message, Payload, ProtocolId, ProtocolKey};
use crate::node::{Delegate, Node};
use crate::protocol::Handler;
use crate::transport::PeerAddress;
use vstd::prelude::*;

verus! {

/// What answering a confirmation does: where the sub-protocol is registered,
/// its handler is asked about the peer and the payload, and the registry
/// follows from its answer; where it is not, nothing changes. Nothing is
/// answered.
pub open spec fn answered<H: Handler, D: Delegate>(
    before: Node<H, D>,
    address: PeerAddress,
    protocol_id: ProtocolId,
    peer_key: ProtocolKey,
    payload: Payload,
    after: Node<H, D>,
    reply: Option<Message>,
) -> bool {
    &&& reply is None
    &&& if before@.has(protocol_id@) {
        exists|verified: bool|
            {
                &&& #[trigger] call_ensures(
                    H::verify_confirmed_connection,
                    (&before.handler_of(protocol_id@), address, payload),
                    verified,
                )
                &&& after@ == confirmed(before@, address@, protocol_id@, peer_key, verified)
            }
    } else {
        after@ == before@
    }
}

/// Acts on the handler's answer to a confirmation.
pub fn conclude<H: Handler, D: Delegate>(
    node: &mut Node<H, D>,
    address: PeerAddress,
    protocol_id: ProtocolId,
    peer_key: ProtocolKey,
    verified: bool,
) -> (reply: Option<Message>)
    requires
        old(node).wf(),
    ensures
        final(node).wf(),
        final(node).keeps_handlers(old(node)),
        final(node)@ == confirmed(old(node)@, address@, protocol_id@, peer_key, verified),
        reply is None,
{
    if verified {
        node.register_peer_key(address, &protocol_id, peer_key);
    }
    None
}

/// Answers a confirmation from the peer at `address`.
pub fn handle<H: Handler, D: Delegate>(
    node: &mut Node<H, D>,
    address: PeerAddress,
    protocol_id: ProtocolId,
    peer_key: ProtocolKey,
    payload: Payload,
) -> (reply: Option<Message>)
    requires
        old(node).wf(),
    ensures
        final(node).wf(),
        final(node).keeps_handlers(old(node)),
        answered(*old(node), address, protocol_id, peer_key, payload, *final(node), reply),
{
    let peer = address.clone();
    let verified = match node.get_protocol(&protocol_id) {
        None => {
            return None;
        },
        Some(protocol) => protocol.handler.verify_confirmed_connection(address, payload),
    };
    conclude(node, peer, protocol_id, peer_key, verified)
}

} // verus!
