//! The lifecycle of a connection, as steps on the registry.
//!
//! A connection under one sub-protocol with one peer is opened by an
//! acceptance and a confirmation, each of which announces the sender's alias,
//! and ended by a close. The handler of the sub-protocol accepts or denies
//! each step; a denied step changes nothing and is not answered.

use crate::message::{MessageView, ProtocolKey};
use crate::registry::RegistryView;
use crate::transport::PeerAddressView;
use vstd::prelude::*;

verus! {

/// The registry and the reply after the peer at `address` accepted a
/// connection under `protocol_id` and announced `peer_key`, where the handler
/// answered `verdict`: the confirmation's payload, or nothing to deny.
pub open spec fn accepted(
    registry: RegistryView,
    address: PeerAddressView,
    protocol_id: Seq<u8>,
    peer_key: ProtocolKey,
    verdict: Option<Seq<u8>>,
) -> (RegistryView, Option<MessageView>) {
    if registry.has(protocol_id) && verdict is Some {
        (
            registry.bind_peer_key(protocol_id, address, peer_key),
            Some(
                MessageView::ConnectionConfirmed {
                    protocol: protocol_id,
                    key: registry.protocols_by_id[protocol_id].key,
                    payload: verdict.unwrap(),
                },
            ),
        )
    } else {
        (registry, None)
    }
}

/// The registry after the peer at `address` confirmed a connection under
/// `protocol_id` and announced `peer_key`, where the handler answered
/// `verified`.
pub open spec fn confirmed(
    registry: RegistryView,
    address: PeerAddressView,
    protocol_id: Seq<u8>,
    peer_key: ProtocolKey,
    verified: bool,
) -> RegistryView {
    if verified {
        registry.bind_peer_key(protocol_id, address, peer_key)
    } else {
        registry
    }
}

/// The registry after the peer at `address` asked to close the connection
/// under the alias `key`, where the handler answered `verified`.
pub open spec fn closed(
    registry: RegistryView,
    address: PeerAddressView,
    key: ProtocolKey,
    verified: bool,
) -> RegistryView {
    if verified && registry.ids_by_key.contains_key(key) {
        registry.unbind_peer_key(registry.ids_by_key[key], address)
    } else {
        registry
    }
}

/// An acceptance that the handler denies records nothing and is not
/// answered.
pub proof fn lemma_denied_acceptance(
    registry: RegistryView,
    address: PeerAddressView,
    protocol_id: Seq<u8>,
    peer_key: ProtocolKey,
)
    ensures
        accepted(registry, address, protocol_id, peer_key, None) == (
            registry,
            None::<MessageView>,
        ),
{
}

/// Each step of the lifecycle keeps the two maps of the registry in
/// agreement, whatever the handler answers.
pub proof fn lemma_steps_consistent(
    registry: RegistryView,
    address: PeerAddressView,
    protocol_id: Seq<u8>,
    key: ProtocolKey,
    verdict: Option<Seq<u8>>,
    verified: bool,
)
    requires
        registry.consistent(),
    ensures
        accepted(registry, address, protocol_id, key, verdict).0.consistent(),
        confirmed(registry, address, protocol_id, key, verified).consistent(),
        closed(registry, address, key, verified).consistent(),
{
    registry.lemma_bind_consistent(protocol_id, address, key);
    if registry.ids_by_key.contains_key(key) {
        registry.lemma_unbind_consistent(registry.ids_by_key[key], address);
    }
}

/// The round trip of a connection between two relays that both speak
/// `protocol_id`.
///
/// The responder accepts and announces `announced`; the initiator's handler
/// accepts with `confirmation`. Then the initiator holds `announced` for the
/// responder's address and confirms under its own alias, and the responder,
/// whose handler accepts, holds that alias for the initiator's address. A
/// close under the initiator's alias that its handler accepts removes what
/// the initiator held, and a second such close changes nothing.
pub proof fn lemma_round_trip(
    initiator: RegistryView,
    responder: RegistryView,
    protocol_id: Seq<u8>,
    initiator_address: PeerAddressView,
    responder_address: PeerAddressView,
    announced: ProtocolKey,
    confirmation: Seq<u8>,
)
    requires
        initiator.consistent(),
        initiator.has(protocol_id),
        responder.has(protocol_id),
    ensures
        ({
            let own = initiator.protocols_by_id[protocol_id].key;
            let (opened, reply) = accepted(
                initiator,
                responder_address,
                protocol_id,
                announced,
                Some(confirmation),
            );
            let established = confirmed(responder, initiator_address, protocol_id, own, true);
            let ended = closed(opened, responder_address, own, true);
            let again = closed(ended, responder_address, own, true);
            &&& reply == Some(
                MessageView::ConnectionConfirmed {
                    protocol: protocol_id,
                    key: own,
                    payload: confirmation,
                },
            )
            &&& opened.protocols_by_id[protocol_id].peer_keys.contains_key(responder_address)
            &&& opened.protocols_by_id[protocol_id].peer_keys[responder_address] == announced
            &&& established.protocols_by_id[protocol_id].peer_keys.contains_key(initiator_address)
            &&& established.protocols_by_id[protocol_id].peer_keys[initiator_address] == own
            &&& ended.has(protocol_id)
            &&& !ended.protocols_by_id[protocol_id].peer_keys.contains_key(responder_address)
            &&& again == ended
        }),
{
    let own = initiator.protocols_by_id[protocol_id].key;
    let opened = initiator.bind_peer_key(protocol_id, responder_address, announced);
    assert(initiator.protocols_by_id.contains_key(protocol_id));
    assert(opened.ids_by_key.contains_key(own) && opened.ids_by_key[own] == protocol_id);
    let ended = opened.unbind_peer_key(protocol_id, responder_address);
    opened.lemma_unbind_twice(protocol_id, responder_address);
}

} // verus!
