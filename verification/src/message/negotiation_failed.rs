//! A peer speaks none of the sub-protocols that this side offered.
//!
//! Whether to offer again is for the delegate to say. Nothing is answered.

use crate::message::{Message, MessageId, PageCount};
use crate::node::{Delegate, Node};
use crate::protocol::Handler;
use crate::transport::PeerAddress;
use vstd::prelude::*;

verus! {

/// Tells the delegate that the negotiation with the peer at `address` failed.
pub fn handle<H: Handler, D: Delegate>(
    node: &Node<H, D>,
    address: PeerAddress,
    message_id: MessageId,
    page_count: PageCount,
) -> (reply: Option<Message>)
    ensures
        reply is None,
        call_ensures(
            D::handle_negotiation_failure,
            (&node.delegate, address, message_id, page_count),
            (),
        ),
{
    node.get_delegate().handle_negotiation_failure(address, message_id, page_count);
    None
}

} // verus!
