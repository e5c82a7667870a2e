//! A peer chose one of the sub-protocols that this side offered.
//!
//! Whether the offer was made, and what to send next, is for the delegate to
//! say. Nothing is answered.

use crate::message::{Message, MessageId, ProtocolId};
use crate::node::{Delegate, Node};
use crate::protocol::Handler;
use crate::transport::PeerAddress;
use vstd::prelude::*;

verus! {

/// Tells the delegate which proposal the peer at `address` chose.
pub fn handle<H: Handler, D: Delegate>(
    node: &Node<H, D>,
    address: PeerAddress,
    message_id: MessageId,
    proposal: ProtocolId,
) -> (reply: Option<Message>)
    ensures
        reply is None,
        call_ensures(
            D::handle_negotiated_protocol,
            (&node.delegate, address, message_id, proposal),
            (),
        ),
{
    node.get_delegate().handle_negotiated_protocol(address, message_id, proposal);
    None
}

} // verus!
