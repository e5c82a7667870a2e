use protocol_relay::message::negotiated_message;
use protocol_relay::relay::{
    ExternalMessage, InternalMessage, InternalResponse, ProtocolHandler, RelayNode,
};
use protocol_relay::{InternetAddress, Message, PeerAddress, TransportProtocol};
use std::cell::RefCell;
use std::rc::Rc;

type Received = Rc<RefCell<Vec<InternalMessage>>>;

/// Records what it receives and answers as told.
struct Echo {
    received: Received,
    accepts: bool,
}

impl ProtocolHandler for Echo {
    fn receive_message(&self, message: InternalMessage) -> InternalResponse {
        self.received.borrow_mut().push(message.clone());
        let InternalMessage::MessageReceived { address, payload } = message;
        if self.accepts {
            InternalResponse::ConnectionAccepted { address, payload }
        } else {
            InternalResponse::MessageAcknowledged
        }
    }
}

fn peer() -> PeerAddress {
    PeerAddress::Internet {
        address: InternetAddress::V6 { ip: 1, port: 27850, flowinfo: 0, scope_id: 0 },
        protocol: TransportProtocol::Stream,
    }
}

fn relay(received: &Received) -> RelayNode<Echo> {
    let mut node = RelayNode::new();
    node.register_handler(b"B".to_vec(), Echo { received: received.clone(), accepts: false });
    node.register_handler(b"C".to_vec(), Echo { received: received.clone(), accepts: true });
    node
}

fn negotiable(names: &[&str], payload_mask: u8) -> ExternalMessage {
    ExternalMessage::NegotiableMessage {
        message_id: 11,
        page_count: 4,
        proposals: names.iter().map(|name| name.as_bytes().to_vec()).collect(),
        payload_mask,
        payload: b"load".to_vec(),
    }
}

#[test]
fn relay_node_chooses_the_first_supported_proposal() {
    let received: Received = Rc::new(RefCell::new(Vec::new()));
    let mut node = relay(&received);
    let reply = node.handle_external_message(peer(), negotiable(&["A", "B", "C"], 0));
    assert_eq!(
        reply,
        Some((peer(), ExternalMessage::NegotiatedProtocolChoice { message_id: 11, proposal: b"B".to_vec() }))
    );
    assert!(received.borrow().is_empty());
}

#[test]
fn relay_node_relays_an_attached_payload_and_stays_silent() {
    let received: Received = Rc::new(RefCell::new(Vec::new()));
    let mut node = relay(&received);
    assert_eq!(node.handle_external_message(peer(), negotiable(&["A", "B", "C"], 0b0000_0010)), None);
    assert_eq!(node.handle_external_message(peer(), negotiable(&["C"], 0b0000_0001)), None);
    assert_eq!(
        *received.borrow(),
        vec![
            InternalMessage::MessageReceived { address: peer(), payload: b"load".to_vec() },
            InternalMessage::MessageReceived { address: peer(), payload: b"load".to_vec() },
        ]
    );
}

#[test]
fn relay_node_reports_a_failed_negotiation() {
    let received: Received = Rc::new(RefCell::new(Vec::new()));
    let mut node = relay(&received);
    let reply = node.handle_external_message(peer(), negotiable(&["Y", "Z"], 0xff));
    assert_eq!(reply, Some((peer(), ExternalMessage::NegotiationFailed { message_id: 11, page_count: 4 })));
    assert!(received.borrow().is_empty());
}

#[test]
fn relay_node_answers_nothing_to_the_other_messages() {
    let received: Received = Rc::new(RefCell::new(Vec::new()));
    let mut node = relay(&received);
    let others = vec![
        ExternalMessage::NegotiatedProtocolChoice { message_id: 1, proposal: b"B".to_vec() },
        ExternalMessage::NegotiationFailed { message_id: 1, page_count: 1 },
        ExternalMessage::ConnectionAccepted { protocol: b"B".to_vec(), key: 1, payload: Vec::new() },
        ExternalMessage::ConnectionConfirmed { protocol: b"B".to_vec(), key: 1, payload: Vec::new() },
        ExternalMessage::ConnectionMessage { key: 1, payload: b"data".to_vec() },
    ];
    for message in others {
        assert_eq!(node.handle_external_message(peer(), message), None);
    }
    assert!(received.borrow().is_empty());
    assert!(node.has_registered_protocol(&b"B".to_vec()));
    assert_eq!(node.get_protocol(&b"C".to_vec()).unwrap().key, 2);
}

#[test]
fn relay_node_keeps_keys_over_registrations() {
    let received: Received = Rc::new(RefCell::new(Vec::new()));
    let mut node = relay(&received);
    node.register_handler(b"B".to_vec(), Echo { received: received.clone(), accepts: true });
    node.register_handler(b"D".to_vec(), Echo { received: received.clone(), accepts: true });
    assert_eq!(node.get_protocol(&b"B".to_vec()).unwrap().key, 1);
    assert!(node.get_protocol(&b"B".to_vec()).unwrap().handler.accepts);
    assert_eq!(node.get_protocol(&b"C".to_vec()).unwrap().key, 2);
    assert_eq!(node.get_protocol(&b"D".to_vec()).unwrap().key, 3);
    assert!(node.get_protocol(&b"A".to_vec()).is_none());
    assert!(!node.has_registered_protocol(&b"A".to_vec()));
}

#[test]
fn relaying_to_an_unregistered_protocol_says_so() {
    let received: Received = Rc::new(RefCell::new(Vec::new()));
    let node = relay(&received);
    let message = InternalMessage::MessageReceived { address: peer(), payload: b"x".to_vec() };
    assert_eq!(node.relay_message(&b"A".to_vec(), message.clone()), InternalResponse::UnregisteredProtocolId);
    assert_eq!(node.relay_message(&b"B".to_vec(), message.clone()), InternalResponse::MessageAcknowledged);
    assert_eq!(
        node.relay_message(&b"C".to_vec(), message),
        InternalResponse::ConnectionAccepted { address: peer(), payload: b"x".to_vec() }
    );
    assert_eq!(received.borrow().len(), 2);
}

#[test]
fn negotiated_message_is_answered_as_by_the_relay_node() {
    let received: Received = Rc::new(RefCell::new(Vec::new()));
    let node = relay(&received);
    let ids = |names: &[&str]| -> Vec<Vec<u8>> { names.iter().map(|n| n.as_bytes().to_vec()).collect() };
    assert_eq!(
        negotiated_message::handle(&node, peer(), 2, 3, ids(&["A", "C", "B"]), 0b0000_0001, b"p".to_vec()),
        Some(Message::NegotiatedProtocolChoice { message_id: 2, proposal: b"C".to_vec() })
    );
    assert_eq!(
        negotiated_message::handle(&node, peer(), 2, 3, ids(&["A", "C", "B"]), 0b0000_0010, b"p".to_vec()),
        None
    );
    assert_eq!(
        negotiated_message::handle(&node, peer(), 2, 3, ids(&["A"]), 0b0000_0001, b"p".to_vec()),
        Some(Message::NegotiationFailed { message_id: 2, page_count: 3 })
    );
    assert_eq!(
        *received.borrow(),
        vec![InternalMessage::MessageReceived { address: peer(), payload: b"p".to_vec() }]
    );
    assert_eq!(negotiated_message::handle_response(InternalResponse::MessageAcknowledged), None);
    assert_eq!(
        negotiated_message::handle_response(InternalResponse::ConnectionClosed { address: peer(), payload: Vec::new() }),
        None
    );
    assert!(negotiated_message::is_mask_bit_set(0b0001_0000, 4));
    assert!(!negotiated_message::is_mask_bit_set(0b0001_0000, 12));
    assert!(RelayNode::<Echo>::is_mask_bit_set(0b0000_0010, 1));
    assert!(!RelayNode::<Echo>::is_mask_bit_set(0xff, 8));
}

struct Quiet;

impl ProtocolHandler for Quiet {
    fn receive_message(&self, _message: InternalMessage) -> InternalResponse {
        InternalResponse::ConnectionClosed { address: peer(), payload: Vec::new() }
    }
}

#[test]
fn relay_node_holds_boxed_handlers_of_different_types() {
    let received: Received = Rc::new(RefCell::new(Vec::new()));
    let mut node: RelayNode<Box<dyn ProtocolHandler>> = RelayNode::new();
    node.register_handler(b"B".to_vec(), Box::new(Echo { received: received.clone(), accepts: true }));
    node.register_handler(b"Q".to_vec(), Box::new(Quiet));
    assert_eq!(node.handle_external_message(peer(), negotiable(&["Q", "B"], 0b0000_0001)), None);
    assert!(received.borrow().is_empty());
    assert_eq!(node.handle_external_message(peer(), negotiable(&["A", "B"], 0b0000_0010)), None);
    assert_eq!(received.borrow().len(), 1);
    let message = InternalMessage::MessageReceived { address: peer(), payload: Vec::new() };
    assert_eq!(
        node.relay_message(&b"Q".to_vec(), message),
        InternalResponse::ConnectionClosed { address: peer(), payload: Vec::new() }
    );
}
