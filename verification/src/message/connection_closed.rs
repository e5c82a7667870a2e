//! A peer asks to close a connection.
//!
//! The message names the sub-protocol by alias. Where the alias is in use and
//! the handler finds the request genuine, the peer's alias is forgotten.
//! Nothing is answered.

use crate::lifecycle::closed;
use crate::message::{Message, Payload, ProtocolKey};
use crate::node::{Delegate, Node};
use crate::protocol::Handler;
use crate::transport::PeerAddress;
use vstd::prelude::*;

verus! {

/// What answering a close does: where the alias is in use, the handler of
/// the sub-protocol that has it is asked about the peer and the payload, and
/// the registry follows from its answer; where it is not, nothing changes.
/// Nothing is answered.
pub open spec fn answered<H: Handler, D: Delegate>(
    before: Node<H, D>,
    address: PeerAddress,
    key: ProtocolKey,
    payload: Payload,
    after: Node<H, D>,
    reply: Option<Message>,
) -> bool {
    &&& reply is None
    &&& if before@.ids_by_key.contains_key(key) {
        exists|verified: bool|
            {
                &&& #[trigger] call_ensures(
                    H::verify_closed_connection,
                    (&before.handler_of(before@.ids_by_key[key]), address, payload),
                    verified,
                )
                &&& after@ == closed(before@, address@, key, verified)
            }
    } else {
        after@ == before@
    }
}

/// Acts on the handler's answer to a close.
pub fn conclude<H: Handler, D: Delegate>(
    node: &mut Node<H, D>,
    address: PeerAddress,
    key: ProtocolKey,
    verified: bool,
) -> (reply: Option<Message>)
    requires
        old(node).wf(),
    ensures
        final(node).wf(),
        final(node).keeps_handlers(old(node)),
        final(node)@ == closed(old(node)@, address@, key, verified),
        reply is None,
{
    if !verified {
        return None;
    }
    let id = match node.get_protocol_id(key) {
        None => {
            return None;
        },
        Some(id) => id.clone(),
    };
    assert(id@ =~= node@.ids_by_key[key]);
    node.remove_peer_key(&address, &id);
    None
}

/// Answers a close from the peer at `address`.
pub fn handle<H: Handler, D: Delegate>(
    node: &mut Node<H, D>,
    address: PeerAddress,
    key: ProtocolKey,
    payload: Payload,
) -> (reply: Option<Message>)
    requires
        old(node).wf(),
    ensures
        final(node).wf(),
        final(node).keeps_handlers(old(node)),
        answered(*old(node), address, key, payload, *final(node), reply),
{
    proof {
        node.lemma_consistent();
    }
    let peer = address.clone();
    let verified = match node.get_protocol_id(key) {
        None => {
            return None;
        },
        Some(id) => match node.get_protocol(id) {
            None => {
                return None;
            },
            Some(protocol) => protocol.handler.verify_closed_connection(address, payload),
        },
    };
    conclude(node, peer, key, verified)
}

} // verus!
