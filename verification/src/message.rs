//! The messages that relays exchange, and the dispatch of an inbound one to
//! the part of the relay that answers it.

use crate::node::{Delegate, Node};
use crate::protocol::Handler;
use crate::transport::PeerAddress;
use vstd::prelude::*;

pub mod connection_accepted;
pub mod connection_closed;
pub mod connection_confirmed;
pub mod connection_message;
pub mod negotiable_message;
pub mod negotiated_message;
pub mod negotiated_protocol_choice;
pub mod negotiation_failed;

verus! {

/// Ties a negotiable message to the answer it gets.
pub type MessageId = u8;

/// How many further pages of proposals the sender has to offer.
pub type PageCount = u8;

/// The name of a sub-protocol.
pub type ProtocolId = Vec<u8>;

/// A one-byte alias of a sub-protocol, valid on the side that assigned it.
pub type ProtocolKey = u8;

/// Bytes whose meaning belongs to the sub-protocol they are addressed to.
pub type Payload = Vec<u8>;

/// Bit `i` is set where the payload belongs to the proposal at index `i`.
pub type PayloadMask = u8;

/// Why bytes from a peer stand for no message.
#[derive(Clone, Debug, PartialEq, Eq)]
pub struct DecodeError {
    pub reason: String,
}

/// A message between two relays.
#[derive(Clone, Debug, PartialEq, Eq)]
pub enum Message {
    /// Offers sub-protocols, in the order of the sender's preference.
    NegotiableMessage {
        message_id: MessageId,
        page_count: PageCount,
        proposals: Vec<ProtocolId>,
        payload_mask: PayloadMask,
        payload: Payload,
    },
    /// Names the offered sub-protocol that the receiver chose.
    NegotiatedProtocolChoice { message_id: MessageId, proposal: ProtocolId },
    /// Says that the receiver speaks none of the offered sub-protocols.
    NegotiationFailed { message_id: MessageId, page_count: PageCount },
    /// Accepts a connection and announces the sender's alias.
    ConnectionAccepted { protocol: ProtocolId, key: ProtocolKey, payload: Payload },
    /// Confirms a connection and announces the sender's alias.
    ConnectionConfirmed { protocol: ProtocolId, key: ProtocolKey, payload: Payload },
    /// Asks to close the connection under an alias.
    ConnectionClosed { key: ProtocolKey, payload: Payload },
    /// Carries data of the connection under an alias.
    ConnectionMessage { key: ProtocolKey, payload: Payload },
}

/// What a `Message` stands for: the same fields, with sequences for vectors.
pub ghost enum MessageView {
    NegotiableMessage {
        message_id: MessageId,
        page_count: PageCount,
        proposals: Seq<Seq<u8>>,
        payload_mask: PayloadMask,
        payload: Seq<u8>,
    },
    NegotiatedProtocolChoice { message_id: MessageId, proposal: Seq<u8> },
    NegotiationFailed { message_id: MessageId, page_count: PageCount },
    ConnectionAccepted { protocol: Seq<u8>, key: ProtocolKey, payload: Seq<u8> },
    ConnectionConfirmed { protocol: Seq<u8>, key: ProtocolKey, payload: Seq<u8> },
    ConnectionClosed { key: ProtocolKey, payload: Seq<u8> },
    ConnectionMessage { key: ProtocolKey, payload: Seq<u8> },
}

/// The names in a list of proposals, in order.
pub open spec fn ids_view(ids: Seq<ProtocolId>) -> Seq<Seq<u8>> {
    ids.map_values(|id: ProtocolId| id@)
}

/// The bytes of a payload that may be absent.
pub open spec fn payload_view(payload: Option<Payload>) -> Option<Seq<u8>> {
    match payload {
        Some(bytes) => Some(bytes@),
        None => None,
    }
}

/// What a reply that may be absent stands for.
pub open spec fn reply_view(reply: Option<Message>) -> Option<MessageView> {
    match reply {
        Some(message) => Some(message@),
        None => None,
    }
}

impl View for Message {
    type V = MessageView;

    open spec fn view(&self) -> MessageView {
        match *self {
            Message::NegotiableMessage {
                message_id,
                page_count,
                proposals,
                payload_mask,
                payload,
            } => MessageView::NegotiableMessage {
                message_id,
                page_count,
                proposals: ids_view(proposals@),
                payload_mask,
                payload: payload@,
            },
            Message::NegotiatedProtocolChoice {
                message_id,
                proposal,
            } => MessageView::NegotiatedProtocolChoice { message_id, proposal: proposal@ },
            Message::NegotiationFailed {
                message_id,
                page_count,
            } => MessageView::NegotiationFailed { message_id, page_count },
            Message::ConnectionAccepted {
                protocol,
                key,
                payload,
            } => MessageView::ConnectionAccepted { protocol: protocol@, key, payload: payload@ },
            Message::ConnectionConfirmed {
                protocol,
                key,
                payload,
            } => MessageView::ConnectionConfirmed { protocol: protocol@, key, payload: payload@ },
            Message::ConnectionClosed { key, payload } => MessageView::ConnectionClosed {
                key,
                payload: payload@,
            },
            Message::ConnectionMessage { key, payload } => MessageView::ConnectionMessage {
                key,
                payload: payload@,
            },
        }
    }
}

/// What an inbound message from the peer at `address` does: it leads from
/// the node `before` to the node `after` and to `reply`.
///
/// A negotiable message is answered by the outcome of the negotiation. A
/// choice or a failure is told to the delegate. The steps of a connection's
/// lifecycle go as the handler of the sub-protocol decides. Data goes to the
/// handler behind its alias. Only the steps of the lifecycle change the
/// registry.
pub open spec fn inbound<H: Handler, D: Delegate>(
    before: Node<H, D>,
    address: PeerAddress,
    message: Message,
    after: Node<H, D>,
    reply: Option<Message>,
) -> bool {
    match message {
        Message::NegotiableMessage {
            message_id,
            page_count,
            proposals,
            payload_mask,
            payload,
        } => after@ == before@ && negotiable_message::answered(
            before,
            address,
            message_id,
            page_count,
            proposals,
            payload_mask,
            payload,
            reply,
        ),
        Message::NegotiatedProtocolChoice {
            message_id,
            proposal,
        } => after@ == before@ && reply is None && call_ensures(
            D::handle_negotiated_protocol,
            (&before.delegate, address, message_id, proposal),
            (),
        ),
        Message::NegotiationFailed {
            message_id,
            page_count,
        } => after@ == before@ && reply is None && call_ensures(
            D::handle_negotiation_failure,
            (&before.delegate, address, message_id, page_count),
            (),
        ),
        Message::ConnectionAccepted { protocol, key, payload } => connection_accepted::answered(
            before,
            address,
            protocol,
            key,
            payload,
            after,
            reply,
        ),
        Message::ConnectionConfirmed { protocol, key, payload } => connection_confirmed::answered(
            before,
            address,
            protocol,
            key,
            payload,
            after,
            reply,
        ),
        Message::ConnectionClosed { key, payload } => connection_closed::answered(
            before,
            address,
            key,
            payload,
            after,
            reply,
        ),
        Message::ConnectionMessage { key, payload } => after@ == before@
            && connection_message::answered(before, address, key, payload, reply),
    }
}

/// Routes an inbound message from the peer at `address` to the part of the
/// relay that answers it, and gives the reply to send back, if there is one.
pub fn handle<H: Handler, D: Delegate>(
    node: &mut Node<H, D>,
    address: PeerAddress,
    message: Message,
) -> (reply: Option<Message>)
    requires
        old(node).wf(),
    ensures
        final(node).wf(),
        final(node).keeps_handlers(old(node)),
        inbound(*old(node), address, message, *final(node), reply),
{
    match message {
        Message::NegotiableMessage {
            message_id,
            page_count,
            proposals,
            payload_mask,
            payload,
        } => negotiable_message::handle(
            node,
            address,
            message_id,
            page_count,
            proposals,
            payload_mask,
            payload,
        ),
        Message::NegotiatedProtocolChoice {
            message_id,
            proposal,
        } => negotiated_protocol_choice::handle(node, address, message_id, proposal),
        Message::NegotiationFailed {
            message_id,
            page_count,
        } => negotiation_failed::handle(node, address, message_id, page_count),
        Message::ConnectionAccepted {
            protocol,
            key,
            payload,
        } => connection_accepted::handle(node, address, protocol, key, payload),
        Message::ConnectionConfirmed {
            protocol,
            key,
            payload,
        } => connection_confirmed::handle(node, address, protocol, key, payload),
        Message::ConnectionClosed { key, payload } => connection_closed::handle(
            node,
            address,
            key,
            payload,
        ),
        Message::ConnectionMessage { key, payload } => connection_message::handle(
            node,
            address,
            key,
            payload,
        ),
    }
}

} // verus!
