//! The answer of a relay node to a negotiable message.
//!
//! The negotiation is decided as for the dispatch node. A payload that
//! belongs to the first registered proposal is relayed to that proposal's
//! handler, whose response is not answered to the peer.

use crate::message::negotiable_message::{
    mask_bit, negotiate, negotiation_of, negotiation_reply, Negotiation,
};
use crate::message::{
    ids_view, reply_view, Message, MessageId, PageCount, Payload, PayloadMask, ProtocolId,
};
use crate::relay::{relayed, InternalMessage, InternalResponse, ProtocolHandler, RelayNode};
use crate::transport::PeerAddress;
use vstd::prelude::*;

verus! {

/// Answers a negotiable message from the peer at `address`.
pub fn handle<H: ProtocolHandler>(
    node: &RelayNode<H>,
    address: PeerAddress,
    message_id: MessageId,
    page_count: PageCount,
    proposals: Vec<ProtocolId>,
    payload_mask: PayloadMask,
    payload: Payload,
) -> (reply: Option<Message>)
    requires
        node.wf(),
    ensures
        reply_view(reply) == negotiation_reply(
            message_id,
            page_count,
            ids_view(proposals@),
            negotiation_of(node@, ids_view(proposals@), payload_mask),
        ),
        relayed(*node, address, proposals, payload_mask, payload),
{
    match negotiate(&node.registry, &proposals, payload_mask) {
        Negotiation::Choose { index } => {
            let proposal = proposals[index].clone();
            assert(proposal@ =~= ids_view(proposals@)[index as int]);
            Some(Message::NegotiatedProtocolChoice { message_id, proposal })
        },
        Negotiation::Deliver { index } => {
            let protocol_message = InternalMessage::MessageReceived { address, payload };
            let response = node.relay_message(&proposals[index], protocol_message);
            handle_response(response)
        },
        Negotiation::Failed => Some(Message::NegotiationFailed { message_id, page_count }),
    }
}

/// What is answered to the peer after a handler responded: nothing.
pub fn handle_response(response: InternalResponse) -> (reply: Option<Message>)
    ensures
        reply is None,
{
    None
}

/// Whether bit `index` of `mask` is set.
pub fn is_mask_bit_set(mask: PayloadMask, index: usize) -> (set: bool)
    ensures
        set == mask_bit(mask, index as int),
{
    crate::message::negotiable_message::is_mask_bit_set(mask, index)
}

} // verus!
