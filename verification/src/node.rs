//! The dispatch node: the registry of sub-protocols together with the
//! delegate that hears how negotiations ended.

use crate::message::{
    inbound, DecodeError, Message, MessageId, PageCount, ProtocolId, ProtocolKey,
};
use crate::protocol::{Handler, Protocol};
use crate::registry::{Registry, RegistryView};
use crate::transport::PeerAddress;
use std::sync::Arc;
use vstd::prelude::*;

verus! {

/// The owner of the node, told how the negotiations that it began have ended.
/// Whether to offer again is the delegate's decision.
pub trait Delegate {
    /// The peer at `address` chose `protocol_id` in answer to `message_id`.
    fn handle_negotiated_protocol(
        &self,
        address: PeerAddress,
        message_id: MessageId,
        protocol_id: ProtocolId,
    );

    /// The peer at `address` speaks none of what `message_id` offered.
    fn handle_negotiation_failure(
        &self,
        address: PeerAddress,
        message_id: MessageId,
        page_count: PageCount,
    );
}

/// A shared delegate is a delegate: a node can hold its owner behind a
/// reference-counted pointer.
impl<T: Delegate + ?Sized> Delegate for Arc<T> {
    fn handle_negotiated_protocol(
        &self,
        address: PeerAddress,
        message_id: MessageId,
        protocol_id: ProtocolId,
    ) {
        (**self).handle_negotiated_protocol(address, message_id, protocol_id)
    }

    fn handle_negotiation_failure(
        &self,
        address: PeerAddress,
        message_id: MessageId,
        page_count: PageCount,
    ) {
        (**self).handle_negotiation_failure(address, message_id, page_count)
    }
}

/// The dispatch node.
pub struct Node<H, D> {
    pub delegate: D,
    pub registry: Registry<H>,
}

impl<H: Handler, D: Delegate> View for Node<H, D> {
    type V = RegistryView;

    open spec fn view(&self) -> RegistryView {
        self.registry@
    }
}

impl<H: Handler, D: Delegate> Node<H, D> {
    /// The registry of the node is well formed.
    pub open spec fn wf(&self) -> bool {
        self.registry.wf()
    }

    /// The handler registered for `id`.
    pub open spec fn handler_of(&self, id: Seq<u8>) -> H {
        self.registry.handler_of(id)
    }

    /// Every sub-protocol registered in `earlier` has the same handler here.
    pub open spec fn keeps_handlers(&self, earlier: &Node<H, D>) -> bool {
        forall|id: Seq<u8>|
            earlier@.has(id) ==> #[trigger] self.handler_of(id) == earlier.handler_of(id)
    }

    /// The maps of a well-formed node agree with each other.
    pub proof fn lemma_consistent(&self)
        requires
            self.wf(),
        ensures
            self@.consistent(),
    {
        self.registry.lemma_consistent();
    }

    /// A node with nothing registered.
    pub fn new(delegate: D) -> (node: Node<H, D>)
        ensures
            node.wf(),
            node@ == RegistryView::empty(),
    {
        Node { delegate, registry: Registry::new() }
    }

    /// Whether `id` can be registered: it is registered already, or an alias
    /// is left for it.
    pub fn can_register(&self, id: &ProtocolId) -> (possible: bool)
        requires
            self.wf(),
        ensures
            possible == self@.can_register(id@),
    {
        self.registry.can_register(id)
    }

    /// Registers `handler` for `id`. A sub-protocol that is registered
    /// already keeps its alias and the aliases of its peers, and only its
    /// handler is replaced; a new one gets the next alias.
    pub fn register_protocol(&mut self, id: ProtocolId, handler: H)
        requires
            old(self).wf(),
            old(self)@.can_register(id@),
        ensures
            final(self).wf(),
            final(self)@ == old(self)@.register(id@),
            final(self).handler_of(id@) == handler,
            forall|other: Seq<u8>|
                old(self)@.has(other) && other != id@ ==> final(self).handler_of(other) == old(
                    self,
                ).handler_of(other),
    {
        self.registry.register(id, handler);
    }

    /// Whether the sub-protocol `id` is registered.
    pub fn has_protocol(&self, id: &ProtocolId) -> (registered: bool)
        requires
            self.wf(),
        ensures
            registered == self@.has(id@),
    {
        self.registry.has(id)
    }

    /// Takes what came from the peer at `address`, decoded or not. Bytes that
    /// stood for no message are dropped: nothing changes and nothing is
    /// answered. A message is routed to the part of the relay that answers
    /// it, and the reply to send back is given, if there is one.
    pub fn handle_inbound(&mut self, address: PeerAddress, decoded: Result<Message, DecodeError>) -> (reply:
        Option<Message>)
        requires
            old(self).wf(),
        ensures
            final(self).wf(),
            final(self).keeps_handlers(old(self)),
            match decoded {
                Ok(message) => inbound(*old(self), address, message, *final(self), reply),
                Err(_) => final(self)@ == old(self)@ && reply is None,
            },
    {
        match decoded {
            Ok(message) => crate::message::handle(self, address, message),
            Err(_) => None,
        }
    }

    /// What is registered for `id`, if it is registered.
    pub fn get_protocol(&self, id: &ProtocolId) -> (found: Option<&Protocol<H>>)
        requires
            self.wf(),
        ensures
            match found {
                Some(protocol) => {
                    &&& self@.has(id@)
                    &&& protocol.key == self@.protocols_by_id[id@].key
                    &&& protocol.peer_keys@ == self@.protocols_by_id[id@].peer_keys
                    &&& protocol.peer_keys.wf()
                    &&& protocol.handler == self.handler_of(id@)
                },
                None => !self@.has(id@),
            },
    {
        self.registry.lookup_by_id(id)
    }

    /// The delegate of the node.
    pub fn get_delegate(&self) -> (delegate: &D)
        ensures
            *delegate == self.delegate,
    {
        &self.delegate
    }

    /// Records `key` as the alias that the peer at `address` announced for
    /// `id`, in place of an earlier one. Says whether `id` is registered.
    pub fn register_peer_key(&mut self, address: PeerAddress, id: &ProtocolId, key: ProtocolKey) -> (bound:
        bool)
        requires
            old(self).wf(),
        ensures
            final(self).wf(),
            bound == old(self)@.has(id@),
            final(self)@ == old(self)@.bind_peer_key(id@, address@, key),
            final(self).keeps_handlers(old(self)),
    {
        self.registry.bind_peer_key(id, address, key)
    }

    /// Forgets the alias that the peer at `address` announced for `id`.
    /// Nothing changes where there is none.
    pub fn remove_peer_key(&mut self, address: &PeerAddress, id: &ProtocolId)
        requires
            old(self).wf(),
        ensures
            final(self).wf(),
            final(self)@ == old(self)@.unbind_peer_key(id@, address@),
            final(self).keeps_handlers(old(self)),
    {
        self.registry.unbind_peer_key(id, address);
    }

    /// The sub-protocol that has the alias `key`, if one has it.
    pub fn get_protocol_id(&self, key: ProtocolKey) -> (found: Option<&ProtocolId>)
        requires
            self.wf(),
        ensures
            match found {
                Some(id) => self@.ids_by_key.contains_key(key) && id@ == self@.ids_by_key[key],
                None => !self@.ids_by_key.contains_key(key),
            },
    {
        self.registry.lookup_by_key(key)
    }
}

} // verus!
