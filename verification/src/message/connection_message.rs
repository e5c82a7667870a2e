//! Data of an established connection, addressed by alias.
//!
//! Where the alias is in use, the payload goes to the handler of the
//! sub-protocol that has it. Nothing is answered.

use crate::message::{Message, Payload, ProtocolKey};
use crate::node::{Delegate, Node};
use crate::protocol::Handler;
use crate::transport::PeerAddress;
use vstd::prelude::*;

verus! {

/// What forwarding data does: where the alias is in use, the payload is
/// handed to the handler of the sub-protocol that has it. Nothing is
/// answered.
pub open spec fn answered<H: Handler, D: Delegate>(
    node: Node<H, D>,
    address: PeerAddress,
    key: ProtocolKey,
    payload: Payload,
    reply: Option<Message>,
) -> bool {
    &&& reply is None
    &&& node@.ids_by_key.contains_key(key) ==> call_ensures(
        H::handle_message,
        (&node.handler_of(node@.ids_by_key[key]), address, payload),
        (),
    )
}

/// Forwards data from the peer at `address` to the handler behind `key`.
pub fn handle<H: Handler, D: Delegate>(
    node: &Node<H, D>,
    address: PeerAddress,
    key: ProtocolKey,
    payload: Payload,
) -> (reply: Option<Message>)
    requires
        node.wf(),
    ensures
        answered(*node, address, key, payload, reply),
{
    proof {
        node.lemma_consistent();
    }
    let id = match node.get_protocol_id(key) {
        None => {
            return None;
        },
        Some(id) => id,
    };
    match node.get_protocol(id) {
        None => {
            return None;
        },
        Some(protocol) => protocol.handler.handle_message(address, payload),
    };
    None
}

} // verus!
