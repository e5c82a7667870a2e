//! A relay node whose handlers answer every message with a response.
//!
//! This node negotiates as the dispatch node does. Its handlers take every
//! message through one entry and say what they made of it; a delivered
//! payload is not answered to the peer, whatever the handler responded.

use crate::message::negotiable_message::{
    mask_bit, negotiate, negotiation_of, negotiation_reply, Negotiation, NegotiationView,
};
use crate::message::{
    ids_view, MessageId, MessageView, PageCount, Payload, PayloadMask, ProtocolId, ProtocolKey,
};
use crate::protocol::Protocol;
use crate::registry::{Registry, RegistryView};
use crate::transport::PeerAddress;
use vstd::prelude::*;

verus! {

/// A message between two relay nodes.
#[derive(Clone, Debug, PartialEq, Eq)]
pub enum ExternalMessage {
    NegotiableMessage {
        message_id: MessageId,
        page_count: PageCount,
        proposals: Vec<ProtocolId>,
        payload_mask: PayloadMask,
        payload: Payload,
    },
    NegotiatedProtocolChoice { message_id: MessageId, proposal: ProtocolId },
    NegotiationFailed { message_id: MessageId, page_count: PageCount },
    ConnectionAccepted { protocol: ProtocolId, key: ProtocolKey, payload: Payload },
    ConnectionConfirmed { protocol: ProtocolId, key: ProtocolKey, payload: Payload },
    ConnectionMessage { key: ProtocolKey, payload: Payload },
}

impl View for ExternalMessage {
    type V = MessageView;

    open spec fn view(&self) -> MessageView {
        match *self {
            ExternalMessage::NegotiableMessage {
                message_id,
                page_count,
                proposals,
                payload_mask,
                payload,
            } => MessageView::NegotiableMessage {
                message_id,
                page_count,
                proposals: ids_view(proposals@),
                payload_mask,
                payload: payload@,
            },
            ExternalMessage::NegotiatedProtocolChoice {
                message_id,
                proposal,
            } => MessageView::NegotiatedProtocolChoice { message_id, proposal: proposal@ },
            ExternalMessage::NegotiationFailed {
                message_id,
                page_count,
            } => MessageView::NegotiationFailed { message_id, page_count },
            ExternalMessage::ConnectionAccepted {
                protocol,
                key,
                payload,
            } => MessageView::ConnectionAccepted { protocol: protocol@, key, payload: payload@ },
            ExternalMessage::ConnectionConfirmed {
                protocol,
                key,
                payload,
            } => MessageView::ConnectionConfirmed { protocol: protocol@, key, payload: payload@ },
            ExternalMessage::ConnectionMessage { key, payload } => MessageView::ConnectionMessage {
                key,
                payload: payload@,
            },
        }
    }
}

/// What a reply that may be absent stands for.
pub open spec fn external_view(reply: Option<ExternalMessage>) -> Option<MessageView> {
    match reply {
        Some(message) => Some(message@),
        None => None,
    }
}

/// What a reply addressed to a peer stands for, the address left aside.
pub open spec fn addressed_view(reply: Option<(PeerAddress, ExternalMessage)>) -> Option<
    MessageView,
> {
    match reply {
        Some((_, message)) => Some(message@),
        None => None,
    }
}

/// What the relay hands to a handler.
#[derive(Clone, Debug, PartialEq, Eq)]
pub enum InternalMessage {
    MessageReceived { address: PeerAddress, payload: Payload },
}

/// What a handler makes of a message.
#[derive(Clone, Debug, PartialEq, Eq)]
pub enum InternalResponse {
    MessageAcknowledged,
    ConnectionAccepted { address: PeerAddress, payload: Payload },
    ConnectionClosed { address: PeerAddress, payload: Payload },
    UnregisteredProtocolId,
}

/// The application behind one registered sub-protocol of a relay node.
pub trait ProtocolHandler {
    fn receive_message(&self, message: InternalMessage) -> InternalResponse;
}

/// A boxed handler is a handler: relay nodes that hold boxed trait objects
/// can register handlers of different types. The box responds what the
/// handler inside it responds to the same message.
impl<T: ProtocolHandler + ?Sized> ProtocolHandler for Box<T> {
    fn receive_message(&self, message: InternalMessage) -> (response: InternalResponse)
        ensures
            call_ensures(T::receive_message, (&**self, message), response),
    {
        (**self).receive_message(message)
    }
}

/// A relay node.
pub struct RelayNode<H> {
    pub registry: Registry<H>,
}

impl<H: ProtocolHandler> View for RelayNode<H> {
    type V = RegistryView;

    open spec fn view(&self) -> RegistryView {
        self.registry@
    }
}

/// What is answered to an inbound message: the outcome of the negotiation to
/// a negotiable message, and nothing to any other.
pub open spec fn external_reply(registry: RegistryView, message: MessageView) -> Option<
    MessageView,
> {
    match message {
        MessageView::NegotiableMessage {
            message_id,
            page_count,
            proposals,
            payload_mask,
            ..
        } => negotiation_reply(
            message_id,
            page_count,
            proposals,
            negotiation_of(registry, proposals, payload_mask),
        ),
        _ => None,
    }
}

/// Where the payload of a negotiable message is for delivery, it is relayed
/// to the handler of the proposal that the negotiation ended on.
pub open spec fn relayed<H: ProtocolHandler>(
    node: RelayNode<H>,
    address: PeerAddress,
    proposals: Vec<ProtocolId>,
    payload_mask: PayloadMask,
    payload: Payload,
) -> bool {
    let ids = ids_view(proposals@);
    negotiation_of(node@, ids, payload_mask) matches NegotiationView::Deliver { index }
        ==> exists|response: InternalResponse| #[trigger]
        call_ensures(
            H::receive_message,
            (
                &node.registry.handler_of(ids[index]),
                InternalMessage::MessageReceived { address, payload },
            ),
            response,
        )
}

/// What a relay node does on an inbound message, apart from the reply: it
/// relays the payload of a negotiable message where it is for delivery.
pub open spec fn external_relayed<H: ProtocolHandler>(
    node: RelayNode<H>,
    address: PeerAddress,
    message: ExternalMessage,
) -> bool {
    match message {
        ExternalMessage::NegotiableMessage { proposals, payload_mask, payload, .. } => relayed(
            node,
            address,
            proposals,
            payload_mask,
            payload,
        ),
        _ => true,
    }
}

impl<H: ProtocolHandler> RelayNode<H> {
    /// The registry of the node is well formed.
    pub open spec fn wf(&self) -> bool {
        self.registry.wf()
    }

    /// A relay node with nothing registered.
    pub fn new() -> (node: RelayNode<H>)
        ensures
            node.wf(),
            node@ == RegistryView::empty(),
    {
        RelayNode { registry: Registry::new() }
    }

    /// Registers `handler` for `id`. A sub-protocol that is registered
    /// already keeps its alias and the aliases of its peers, and only its
    /// handler is replaced; a new one gets the next alias.
    pub fn register_handler(&mut self, id: ProtocolId, handler: H)
        requires
            old(self).wf(),
            old(self)@.can_register(id@),
        ensures
            final(self).wf(),
            final(self)@ == old(self)@.register(id@),
            final(self).registry.handler_of(id@) == handler,
            forall|other: Seq<u8>|
                old(self)@.has(other) && other != id@ ==> final(self).registry.handler_of(other)
                    == old(self).registry.handler_of(other),
    {
        self.registry.register(id, handler);
    }

    /// Answers an inbound message from the peer at `address`. A reply goes
    /// back to that peer.
    pub fn handle_external_message(&mut self, address: PeerAddress, message: ExternalMessage) -> (reply:
        Option<(PeerAddress, ExternalMessage)>)
        requires
            old(self).wf(),
        ensures
            final(self).wf(),
            final(self)@ == old(self)@,
            addressed_view(reply) == external_reply(old(self)@, message@),
            reply matches Some((return_address, _)) ==> return_address@ == address@,
            external_relayed(*old(self), address, message),
    {
        let return_address = address.clone();
        let response = match message {
            ExternalMessage::NegotiableMessage {
                message_id,
                page_count,
                proposals,
                payload_mask,
                payload,
            } => self.handle_negotiated_message(
                address,
                message_id,
                page_count,
                proposals,
                payload_mask,
                payload,
            ),
            ExternalMessage::NegotiatedProtocolChoice {
                message_id,
                proposal,
            } => self.handle_negotiated_protocol_choice(address, message_id, proposal),
            ExternalMessage::NegotiationFailed {
                message_id,
                page_count,
            } => self.handle_negotiation_failed(address, message_id, page_count),
            ExternalMessage::ConnectionAccepted {
                protocol,
                key,
                payload,
            } => self.handle_connection_accepted(address, protocol, key, payload),
            ExternalMessage::ConnectionConfirmed {
                protocol,
                key,
                payload,
            } => self.handle_connection_confirmed(address, protocol, key, payload),
            ExternalMessage::ConnectionMessage {
                key,
                payload,
            } => self.handle_connection_message(address, key, payload),
        };
        match response {
            Some(message) => Some((return_address, message)),
            None => None,
        }
    }

    /// Answers a negotiable message. Where the payload belongs to the first
    /// registered proposal, it is relayed to that proposal's handler, and
    /// nothing is answered to the peer, whatever the handler responded.
    fn handle_negotiated_message(
        &mut self,
        address: PeerAddress,
        message_id: MessageId,
        page_count: PageCount,
        proposals: Vec<ProtocolId>,
        payload_mask: PayloadMask,
        payload: Payload,
    ) -> (reply: Option<ExternalMessage>)
        requires
            old(self).wf(),
        ensures
            final(self).wf(),
            final(self)@ == old(self)@,
            *final(self) == *old(self),
            external_view(reply) == negotiation_reply(
                message_id,
                page_count,
                ids_view(proposals@),
                negotiation_of(old(self)@, ids_view(proposals@), payload_mask),
            ),
            relayed(*old(self), address, proposals, payload_mask, payload),
    {
        match negotiate(&self.registry, &proposals, payload_mask) {
            Negotiation::Choose { index } => {
                let proposal = proposals[index].clone();
                assert(proposal@ =~= ids_view(proposals@)[index as int]);
                Some(ExternalMessage::NegotiatedProtocolChoice { message_id, proposal })
            },
            Negotiation::Deliver { index } => {
                let relay_message = InternalMessage::MessageReceived { address, payload };
                let _ = self.relay_message(&proposals[index], relay_message);
                None
            },
            Negotiation::Failed => Some(
                ExternalMessage::NegotiationFailed { message_id, page_count },
            ),
        }
    }

    fn handle_negotiated_protocol_choice(
        &self,
        address: PeerAddress,
        message_id: MessageId,
        proposal: ProtocolId,
    ) -> (reply: Option<ExternalMessage>)
        ensures
            reply is None,
    {
        None
    }

    fn handle_negotiation_failed(
        &self,
        address: PeerAddress,
        message_id: MessageId,
        page_count: PageCount,
    ) -> (reply: Option<ExternalMessage>)
        ensures
            reply is None,
    {
        None
    }

    fn handle_connection_accepted(
        &self,
        address: PeerAddress,
        proposal: ProtocolId,
        key: ProtocolKey,
        payload: Payload,
    ) -> (reply: Option<ExternalMessage>)
        ensures
            reply is None,
    {
        None
    }

    fn handle_connection_confirmed(
        &self,
        address: PeerAddress,
        proposal: ProtocolId,
        key: ProtocolKey,
        payload: Payload,
    ) -> (reply: Option<ExternalMessage>)
        ensures
            reply is None,
    {
        None
    }

    fn handle_connection_message(
        &self,
        address: PeerAddress,
        key: ProtocolKey,
        payload: Payload,
    ) -> (reply: Option<ExternalMessage>)
        ensures
            reply is None,
    {
        None
    }

    /// Hands `message` to the handler of `id` and gives its response. Where
    /// `id` is not registered, the response says so.
    pub fn relay_message(&self, id: &ProtocolId, message: InternalMessage) -> (response:
        InternalResponse)
        requires
            self.wf(),
        ensures
            if self@.has(id@) {
                call_ensures(H::receive_message, (&self.registry.handler_of(id@), message), response)
            } else {
                response is UnregisteredProtocolId
            },
    {
        match self.get_protocol(id) {
            Some(protocol) => protocol.handler.receive_message(message),
            None => InternalResponse::UnregisteredProtocolId,
        }
    }

    /// Whether the sub-protocol `id` is registered.
    pub fn has_registered_protocol(&self, id: &ProtocolId) -> (registered: bool)
        requires
            self.wf(),
        ensures
            registered == self@.has(id@),
    {
        self.registry.has(id)
    }

    /// What is registered for `id`, if it is registered.
    pub fn get_protocol(&self, id: &ProtocolId) -> (found: Option<&Protocol<H>>)
        requires
            self.wf(),
        ensures
            match found {
                Some(protocol) => {
                    &&& self@.has(id@)
                    &&& protocol.key == self@.protocols_by_id[id@].key
                    &&& protocol.peer_keys@ == self@.protocols_by_id[id@].peer_keys
                    &&& protocol.handler == self.registry.handler_of(id@)
                },
                None => !self@.has(id@),
            },
    {
        self.registry.lookup_by_id(id)
    }

    /// Whether bit `index` of `mask` is set.
    pub fn is_mask_bit_set(mask: PayloadMask, index: usize) -> (set: bool)
        ensures
            set == mask_bit(mask, index as int),
    {
        crate::message::negotiable_message::is_mask_bit_set(mask, index)
    }
}

} // verus!
