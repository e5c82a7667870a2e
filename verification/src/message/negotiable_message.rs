//! The answer to a negotiable message.
//!
//! The proposals are scanned in the sender's order. The first one that is
//! registered decides: where the payload is attached for it, the payload is
//! delivered to its handler and nothing is answered; where it is not, the
//! sender is told the choice. Where none is registered, the negotiation
//! failed.

use crate::message::{
    ids_view, reply_view, Message, MessageId, MessageView, PageCount, Payload, PayloadMask,
    ProtocolId,
};
use crate::node::{Delegate, Node};
use crate::protocol::Handler;
use crate::registry::{Registry, RegistryView};
use crate::transport::PeerAddress;
use vstd::prelude::*;

verus! {

/// How a negotiation ended.
#[derive(Clone, Copy, Debug, PartialEq, Eq, Structural)]
pub enum Negotiation {
    /// The proposal at `index` is spoken here; its payload is yet to come.
    Choose { index: usize },
    /// The proposal at `index` is spoken here and the payload belongs to it.
    Deliver { index: usize },
    /// None of the proposals is spoken here.
    Failed,
}

/// How a negotiation ended, with the index as a mathematical integer.
pub ghost enum NegotiationView {
    Choose { index: int },
    Deliver { index: int },
    Failed,
}

impl View for Negotiation {
    type V = NegotiationView;

    open spec fn view(&self) -> NegotiationView {
        match *self {
            Negotiation::Choose { index } => NegotiationView::Choose { index: index as int },
            Negotiation::Deliver { index } => NegotiationView::Deliver { index: index as int },
            Negotiation::Failed => NegotiationView::Failed,
        }
    }
}

/// Whether bit `index` of `mask` is set. The mask has the bits 0 to 7.
pub open spec fn mask_bit(mask: PayloadMask, index: int) -> bool {
    0 <= index < 8 && (mask >> (index as u8)) & 1 == 1
}

/// Whether the proposal at `index` is registered.
pub open spec fn supported_at(registry: RegistryView, proposals: Seq<Seq<u8>>, index: int) -> bool {
    0 <= index < proposals.len() && registry.has(proposals[index])
}

/// Whether the proposal at `index` is registered and none before it is.
pub open spec fn first_supported_at(
    registry: RegistryView,
    proposals: Seq<Seq<u8>>,
    index: int,
) -> bool {
    supported_at(registry, proposals, index) && forall|earlier: int|
        0 <= earlier < index ==> !supported_at(registry, proposals, earlier)
}

/// The index of the first proposal that is registered, if any is.
pub open spec fn first_supported(registry: RegistryView, proposals: Seq<Seq<u8>>) -> Option<int> {
    if exists|index: int| first_supported_at(registry, proposals, index) {
        Some(choose|index: int| first_supported_at(registry, proposals, index))
    } else {
        None
    }
}

/// How the negotiation over `proposals` ends.
pub open spec fn negotiation_of(
    registry: RegistryView,
    proposals: Seq<Seq<u8>>,
    payload_mask: PayloadMask,
) -> NegotiationView {
    match first_supported(registry, proposals) {
        Some(index) => if mask_bit(payload_mask, index) {
            NegotiationView::Deliver { index }
        } else {
            NegotiationView::Choose { index }
        },
        None => NegotiationView::Failed,
    }
}

/// What is answered to the sender after a negotiation.
pub open spec fn negotiation_reply(
    message_id: MessageId,
    page_count: PageCount,
    proposals: Seq<Seq<u8>>,
    outcome: NegotiationView,
) -> Option<MessageView> {
    match outcome {
        NegotiationView::Choose { index } => Some(
            MessageView::NegotiatedProtocolChoice { message_id, proposal: proposals[index] },
        ),
        NegotiationView::Deliver { .. } => None,
        NegotiationView::Failed => Some(MessageView::NegotiationFailed { message_id, page_count }),
    }
}

/// The first registered proposal is the only index that `first_supported`
/// can give.
pub proof fn lemma_first_supported(registry: RegistryView, proposals: Seq<Seq<u8>>, index: int)
    requires
        first_supported_at(registry, proposals, index),
    ensures
        first_supported(registry, proposals) == Some(index),
{
    let chosen = choose|i: int| first_supported_at(registry, proposals, i);
    assert(first_supported_at(registry, proposals, chosen));
    if chosen < index {
        assert(!supported_at(registry, proposals, chosen));
    }
    if index < chosen {
        assert(!supported_at(registry, proposals, index));
    }
}

/// Where no proposal is registered, `first_supported` gives none.
pub proof fn lemma_none_supported(registry: RegistryView, proposals: Seq<Seq<u8>>)
    requires
        forall|index: int| !supported_at(registry, proposals, index),
    ensures
        first_supported(registry, proposals) is None,
{
    if exists|index: int| first_supported_at(registry, proposals, index) {
        let index = choose|index: int| first_supported_at(registry, proposals, index);
        assert(supported_at(registry, proposals, index));
    }
}

/// Whether bit `index` of `mask` is set.
pub fn is_mask_bit_set(mask: PayloadMask, index: usize) -> (set: bool)
    ensures
        set == mask_bit(mask, index as int),
{
    if index < 8 {
        let shift = index as u8;
        assert(((1u8 << shift) & mask != 0) == ((mask >> shift) & 1 == 1)) by (bit_vector)
            requires
                shift < 8,
        ;
        (1u8 << shift) & mask != 0
    } else {
        false
    }
}

/// Decides the negotiation over `proposals`.
pub fn negotiate<H>(
    registry: &Registry<H>,
    proposals: &Vec<ProtocolId>,
    payload_mask: PayloadMask,
) -> (outcome: Negotiation)
    requires
        registry.wf(),
    ensures
        outcome@ == negotiation_of(registry@, ids_view(proposals@), payload_mask),
{
    let ghost ids = ids_view(proposals@);
    let mut index: usize = 0;
    while index < proposals.len()
        invariant
            registry.wf(),
            ids == ids_view(proposals@),
            index <= proposals.len(),
            forall|earlier: int| 0 <= earlier < index ==> !supported_at(registry@, ids, earlier),
        decreases proposals.len() - index,
    {
        if registry.has(&proposals[index]) {
            proof {
                assert(ids[index as int] == proposals@[index as int]@);
                lemma_first_supported(registry@, ids, index as int);
            }
            if is_mask_bit_set(payload_mask, index) {
                return Negotiation::Deliver { index };
            } else {
                return Negotiation::Choose { index };
            }
        }
        assert(ids[index as int] == proposals@[index as int]@);
        index = index + 1;
    }
    proof {
        lemma_none_supported(registry@, ids);
    }
    Negotiation::Failed
}

/// What answering a negotiable message does: the reply is that of the
/// negotiation, and where the payload is for delivery, it is handed to the
/// handler of the proposal that the negotiation ended on.
pub open spec fn answered<H: Handler, D: Delegate>(
    node: Node<H, D>,
    address: PeerAddress,
    message_id: MessageId,
    page_count: PageCount,
    proposals: Vec<ProtocolId>,
    payload_mask: PayloadMask,
    payload: Payload,
    reply: Option<Message>,
) -> bool {
    let ids = ids_view(proposals@);
    let outcome = negotiation_of(node@, ids, payload_mask);
    &&& reply_view(reply) == negotiation_reply(message_id, page_count, ids, outcome)
    &&& outcome matches NegotiationView::Deliver { index } ==> call_ensures(
        H::handle_message,
        (&node.handler_of(ids[index]), address, payload),
        (),
    )
}

/// Answers a negotiable message from the peer at `address`. Where the payload
/// belongs to the first registered proposal, it is delivered to that
/// proposal's handler.
pub fn handle<H: Handler, D: Delegate>(
    node: &Node<H, D>,
    address: PeerAddress,
    message_id: MessageId,
    page_count: PageCount,
    proposals: Vec<ProtocolId>,
    payload_mask: PayloadMask,
    payload: Payload,
) -> (reply: Option<Message>)
    requires
        node.wf(),
    ensures
        answered(*node, address, message_id, page_count, proposals, payload_mask, payload, reply),
{
    match negotiate(&node.registry, &proposals, payload_mask) {
        Negotiation::Choose { index } => {
            let proposal = proposals[index].clone();
            assert(proposal@ =~= ids_view(proposals@)[index as int]);
            Some(Message::NegotiatedProtocolChoice { message_id, proposal })
        },
        Negotiation::Deliver { index } => {
            match node.get_protocol(&proposals[index]) {
                Some(protocol) => protocol.handler.handle_message(address, payload),
                None => {},
            }
            None
        },
        Negotiation::Failed => Some(Message::NegotiationFailed { message_id, page_count }),
    }
}

/// A negotiation ends on the first registered proposal, with the payload for
/// delivery exactly where its bit is set, and fails only where no proposal is
/// registered.
pub proof fn lemma_negotiation(
    registry: RegistryView,
    proposals: Seq<Seq<u8>>,
    payload_mask: PayloadMask,
)
    ensures
        match negotiation_of(registry, proposals, payload_mask) {
            NegotiationView::Choose { index } => first_supported_at(registry, proposals, index)
                && !mask_bit(payload_mask, index),
            NegotiationView::Deliver { index } => first_supported_at(registry, proposals, index)
                && mask_bit(payload_mask, index),
            NegotiationView::Failed => forall|index: int|
                !supported_at(registry, proposals, index),
        },
{
    if exists|index: int| first_supported_at(registry, proposals, index) {
        let chosen = choose|index: int| first_supported_at(registry, proposals, index);
        assert(first_supported_at(registry, proposals, chosen));
    } else {
        assert forall|index: int| !supported_at(registry, proposals, index) by {
            if supported_at(registry, proposals, index) {
                lemma_some_first(registry, proposals, index);
            }
        }
    }
}

/// Where the first registered proposal stands at `index` and
/// the payload is not attached for it, that proposal is chosen and named in
/// the reply, whatever stands after it.
pub proof fn lemma_first_match(
    registry: RegistryView,
    message_id: MessageId,
    page_count: PageCount,
    proposals: Seq<Seq<u8>>,
    payload_mask: PayloadMask,
    index: int,
)
    requires
        first_supported_at(registry, proposals, index),
        !mask_bit(payload_mask, index),
    ensures
        negotiation_of(registry, proposals, payload_mask) == (NegotiationView::Choose { index }),
        negotiation_reply(
            message_id,
            page_count,
            proposals,
            negotiation_of(registry, proposals, payload_mask),
        ) == Some(MessageView::NegotiatedProtocolChoice { message_id, proposal: proposals[index] }),
{
    lemma_first_supported(registry, proposals, index);
}

/// Where the first registered proposal stands at `index`
/// and the payload is attached for it, the payload is for delivery and
/// nothing is answered.
pub proof fn lemma_inline_delivery(
    registry: RegistryView,
    message_id: MessageId,
    page_count: PageCount,
    proposals: Seq<Seq<u8>>,
    payload_mask: PayloadMask,
    index: int,
)
    requires
        first_supported_at(registry, proposals, index),
        mask_bit(payload_mask, index),
    ensures
        negotiation_of(registry, proposals, payload_mask) == (NegotiationView::Deliver { index }),
        negotiation_reply(
            message_id,
            page_count,
            proposals,
            negotiation_of(registry, proposals, payload_mask),
        ) is None,
{
    lemma_first_supported(registry, proposals, index);
}

/// Where no proposal is registered, the negotiation fails and
/// the reply carries the page count as it came.
pub proof fn lemma_exhaustion(
    registry: RegistryView,
    message_id: MessageId,
    page_count: PageCount,
    proposals: Seq<Seq<u8>>,
    payload_mask: PayloadMask,
)
    requires
        forall|index: int| 0 <= index < proposals.len() ==> !registry.has(#[trigger] proposals[index]),
    ensures
        negotiation_of(registry, proposals, payload_mask) == NegotiationView::Failed,
        negotiation_reply(
            message_id,
            page_count,
            proposals,
            negotiation_of(registry, proposals, payload_mask),
        ) == Some(MessageView::NegotiationFailed { message_id, page_count }),
{
    lemma_none_supported(registry, proposals);
}

/// No bit of the mask stands for an index of 8 or more, so a
/// payload is never delivered for a proposal there.
pub proof fn lemma_mask_boundary(
    registry: RegistryView,
    proposals: Seq<Seq<u8>>,
    payload_mask: PayloadMask,
    index: int,
)
    requires
        index >= 8,
    ensures
        !mask_bit(payload_mask, index),
        negotiation_of(registry, proposals, payload_mask) != (NegotiationView::Deliver { index }),
{
    lemma_negotiation(registry, proposals, payload_mask);
}

/// Where a proposal is registered, some proposal is the first registered one.
proof fn lemma_some_first(registry: RegistryView, proposals: Seq<Seq<u8>>, index: int)
    requires
        supported_at(registry, proposals, index),
    ensures
        exists|first: int| first_supported_at(registry, proposals, first),
    decreases index,
{
    if exists|earlier: int| 0 <= earlier < index && supported_at(registry, proposals, earlier) {
        let earlier = choose|earlier: int|
            0 <= earlier < index && supported_at(registry, proposals, earlier);
        lemma_some_first(registry, proposals, earlier);
    } else {
        assert(first_supported_at(registry, proposals, index));
    }
}

} // verus!
