use protocol_relay::protocol::{Handler, PeerKeys};
use protocol_relay::registry::Registry;
use protocol_relay::transport::Route;
use protocol_relay::{InternetAddress, PeerAddress, TransportProtocol};

struct Named {
    name: &'static str,
}

impl Handler for Named {
    fn handle_message(&self, _address: PeerAddress, _payload: Vec<u8>) {}

    fn verify_accepted_connection(
        &self,
        _address: PeerAddress,
        _payload: Vec<u8>,
    ) -> Option<Vec<u8>> {
        None
    }

    fn verify_confirmed_connection(&self, _address: PeerAddress, _payload: Vec<u8>) -> bool {
        false
    }

    fn verify_closed_connection(&self, _address: PeerAddress, _payload: Vec<u8>) -> bool {
        false
    }
}

fn internet(last: u32, port: u16, protocol: TransportProtocol) -> PeerAddress {
    PeerAddress::Internet { address: InternetAddress::V4 { ip: 0x7f00_0000 + last, port }, protocol }
}

fn local(path: &str, protocol: TransportProtocol) -> PeerAddress {
    PeerAddress::Unix { address: path.as_bytes().to_vec(), protocol }
}

#[test]
fn new_registry_is_empty() {
    let registry: Registry<Named> = Registry::new();
    assert!(!registry.has(&b"chat".to_vec()));
    assert!(registry.lookup_by_id(&b"chat".to_vec()).is_none());
    assert!(registry.lookup_by_key(0).is_none());
    assert!(registry.lookup_by_key(1).is_none());
    assert!(registry.can_register(&b"chat".to_vec()));
}

#[test]
fn keys_count_up_from_one() {
    let mut registry = Registry::new();
    registry.register(b"chat".to_vec(), Named { name: "chat" });
    registry.register(b"files".to_vec(), Named { name: "files" });
    registry.register(Vec::new(), Named { name: "empty" });
    assert_eq!(registry.lookup_by_id(&b"chat".to_vec()).unwrap().key, 1);
    assert_eq!(registry.lookup_by_id(&b"files".to_vec()).unwrap().key, 2);
    assert_eq!(registry.lookup_by_id(&Vec::new()).unwrap().key, 3);
    assert_eq!(registry.lookup_by_key(1), Some(&b"chat".to_vec()));
    assert_eq!(registry.lookup_by_key(2), Some(&b"files".to_vec()));
    assert_eq!(registry.lookup_by_key(3), Some(&Vec::new()));
    assert_eq!(registry.lookup_by_key(0), None);
    assert_eq!(registry.lookup_by_key(4), None);
    assert_eq!(registry.lookup_by_key(255), None);
    assert!(registry.has(&b"chat".to_vec()));
    assert!(!registry.has(&b"cha".to_vec()));
    assert!(!registry.has(&b"chat!".to_vec()));
}

#[test]
fn registering_again_keeps_key_and_peer_keys() {
    let mut registry = Registry::new();
    let id = b"chat".to_vec();
    let peer = internet(1, 4000, TransportProtocol::Stream);
    registry.register(b"first".to_vec(), Named { name: "first" });
    registry.register(id.clone(), Named { name: "h1" });
    assert!(registry.bind_peer_key(&id, peer.clone(), 9));
    let key = registry.lookup_by_id(&id).unwrap().key;
    assert_eq!(key, 2);
    assert_eq!(registry.lookup_by_id(&id).unwrap().handler.name, "h1");

    registry.register(id.clone(), Named { name: "h2" });
    let protocol = registry.lookup_by_id(&id).unwrap();
    assert_eq!(protocol.key, 2);
    assert_eq!(protocol.peer_keys.get(&peer), Some(9));
    assert_eq!(protocol.handler.name, "h2");
    assert_eq!(registry.lookup_by_key(2), Some(&id));
    assert_eq!(registry.lookup_by_id(&b"first".to_vec()).unwrap().handler.name, "first");
    assert_eq!(registry.lookup_by_id(&b"first".to_vec()).unwrap().key, 1);

    registry.register(b"next".to_vec(), Named { name: "next" });
    assert_eq!(registry.lookup_by_id(&b"next".to_vec()).unwrap().key, 3);
}

#[test]
fn distinct_ids_get_distinct_keys() {
    let mut registry = Registry::new();
    let mut ids: Vec<Vec<u8>> = Vec::new();
    for n in 0..255u32 {
        ids.push(vec![(n % 7) as u8, (n / 7) as u8, 42]);
    }
    for id in ids.iter() {
        assert!(registry.can_register(id));
        registry.register(id.clone(), Named { name: "any" });
    }
    let mut seen = [false; 256];
    for (n, id) in ids.iter().enumerate() {
        let key = registry.lookup_by_id(id).unwrap().key;
        assert_eq!(key as usize, n + 1);
        assert!(!seen[key as usize]);
        seen[key as usize] = true;
        assert_eq!(registry.lookup_by_key(key), Some(id));
    }
    assert!(!seen[0]);
}

#[test]
fn the_key_space_ends_at_255() {
    let mut registry = Registry::new();
    for n in 0..255u32 {
        registry.register(vec![n as u8], Named { name: "any" });
    }
    assert!(!registry.can_register(&vec![255u8]));
    assert!(!registry.can_register(&vec![0u8, 0u8]));
    assert!(registry.can_register(&vec![0u8]));
    assert!(registry.can_register(&vec![254u8]));
    registry.register(vec![254u8], Named { name: "again" });
    assert_eq!(registry.lookup_by_id(&vec![254u8]).unwrap().key, 255);
    assert_eq!(registry.lookup_by_id(&vec![254u8]).unwrap().handler.name, "again");
    assert_eq!(registry.lookup_by_key(255), Some(&vec![254u8]));
}

#[test]
fn binding_for_an_unregistered_id_is_refused() {
    let mut registry = Registry::new();
    registry.register(b"chat".to_vec(), Named { name: "chat" });
    let peer = internet(1, 4000, TransportProtocol::Stream);
    assert!(!registry.bind_peer_key(&b"files".to_vec(), peer.clone(), 3));
    assert_eq!(registry.lookup_by_id(&b"chat".to_vec()).unwrap().peer_keys.get(&peer), None);
    assert!(registry.lookup_by_id(&b"files".to_vec()).is_none());
}

#[test]
fn binding_overwrites_and_unbinding_is_idempotent() {
    let mut registry = Registry::new();
    let chat = b"chat".to_vec();
    let files = b"files".to_vec();
    registry.register(chat.clone(), Named { name: "chat" });
    registry.register(files.clone(), Named { name: "files" });
    let peer = internet(1, 4000, TransportProtocol::Stream);
    let other = internet(2, 4000, TransportProtocol::Stream);
    assert!(registry.bind_peer_key(&chat, peer.clone(), 3));
    assert!(registry.bind_peer_key(&chat, other.clone(), 4));
    assert!(registry.bind_peer_key(&files, peer.clone(), 5));
    assert!(registry.bind_peer_key(&chat, peer.clone(), 6));
    assert_eq!(registry.lookup_by_id(&chat).unwrap().peer_keys.get(&peer), Some(6));
    assert_eq!(registry.lookup_by_id(&chat).unwrap().peer_keys.get(&other), Some(4));
    assert_eq!(registry.lookup_by_id(&files).unwrap().peer_keys.get(&peer), Some(5));

    registry.unbind_peer_key(&chat, &peer);
    assert_eq!(registry.lookup_by_id(&chat).unwrap().peer_keys.get(&peer), None);
    assert_eq!(registry.lookup_by_id(&chat).unwrap().peer_keys.get(&other), Some(4));
    assert_eq!(registry.lookup_by_id(&files).unwrap().peer_keys.get(&peer), Some(5));
    registry.unbind_peer_key(&chat, &peer);
    assert_eq!(registry.lookup_by_id(&chat).unwrap().peer_keys.get(&peer), None);
    assert_eq!(registry.lookup_by_id(&chat).unwrap().peer_keys.get(&other), Some(4));
    registry.unbind_peer_key(&b"unknown".to_vec(), &other);
    assert_eq!(registry.lookup_by_id(&chat).unwrap().peer_keys.get(&other), Some(4));
    assert_eq!(registry.lookup_by_id(&chat).unwrap().key, 1);
    assert_eq!(registry.lookup_by_id(&files).unwrap().key, 2);
}

#[test]
fn peers_that_differ_in_transport_kind_are_distinct() {
    let mut registry = Registry::new();
    let chat = b"chat".to_vec();
    registry.register(chat.clone(), Named { name: "chat" });
    let stream = internet(1, 4000, TransportProtocol::Stream);
    let datagram = internet(1, 4000, TransportProtocol::Datagram);
    assert!(registry.bind_peer_key(&chat, stream.clone(), 3));
    assert_eq!(registry.lookup_by_id(&chat).unwrap().peer_keys.get(&datagram), None);
    assert!(registry.bind_peer_key(&chat, datagram.clone(), 4));
    assert_eq!(registry.lookup_by_id(&chat).unwrap().peer_keys.get(&stream), Some(3));
    assert_eq!(registry.lookup_by_id(&chat).unwrap().peer_keys.get(&datagram), Some(4));
}

#[test]
fn peer_key_table_inserts_finds_and_removes() {
    let mut table = PeerKeys::new();
    let a = internet(1, 1, TransportProtocol::Stream);
    let b = local("/run/relay.sock", TransportProtocol::Stream);
    let c = local("/run/relay.sock", TransportProtocol::Datagram);
    assert_eq!(table.get(&a), None);
    assert_eq!(table.insert(a.clone(), 10), None);
    assert_eq!(table.insert(b.clone(), 20), None);
    assert_eq!(table.insert(c.clone(), 30), None);
    assert_eq!(table.insert(a.clone(), 11), Some(10));
    assert_eq!(table.get(&a), Some(11));
    assert_eq!(table.get(&b), Some(20));
    assert_eq!(table.get(&c), Some(30));
    assert_eq!(table.remove(&b), Some(20));
    assert_eq!(table.remove(&b), None);
    assert_eq!(table.get(&b), None);
    assert_eq!(table.get(&a), Some(11));
    assert_eq!(table.get(&c), Some(30));
    assert_eq!(table.remove(&a), Some(11));
    assert_eq!(table.remove(&c), Some(30));
    assert_eq!(table.get(&c), None);
}

#[test]
fn peer_addresses_compare_by_family_place_and_kind() {
    let a = internet(1, 4000, TransportProtocol::Stream);
    assert_eq!(a, internet(1, 4000, TransportProtocol::Stream));
    assert_ne!(a, internet(1, 4000, TransportProtocol::Datagram));
    assert_ne!(a, internet(1, 4001, TransportProtocol::Stream));
    assert_ne!(a, internet(2, 4000, TransportProtocol::Stream));
    let six = PeerAddress::Internet {
        address: InternetAddress::V6 { ip: 1, port: 4000, flowinfo: 0, scope_id: 0 },
        protocol: TransportProtocol::Stream,
    };
    assert_ne!(a, six);
    assert_eq!(six, six.clone());
    let scoped = PeerAddress::Internet {
        address: InternetAddress::V6 { ip: 1, port: 4000, flowinfo: 0, scope_id: 3 },
        protocol: TransportProtocol::Stream,
    };
    assert_ne!(six, scoped);

    let u = local("/run/relay.sock", TransportProtocol::Stream);
    assert_eq!(u, local("/run/relay.sock", TransportProtocol::Stream));
    assert_ne!(u, local("/run/relay.sock", TransportProtocol::Datagram));
    assert_ne!(u, local("/run/relay.soc", TransportProtocol::Stream));
    assert_ne!(u, local("", TransportProtocol::Stream));
    assert_eq!(local("", TransportProtocol::Stream), local("", TransportProtocol::Stream));
    assert_ne!(u, a);
    assert_eq!(u.clone(), u);
}

#[test]
fn peer_address_tells_its_transport_kind() {
    assert_eq!(internet(1, 1, TransportProtocol::Stream).protocol(), TransportProtocol::Stream);
    assert_eq!(internet(1, 1, TransportProtocol::Datagram).protocol(), TransportProtocol::Datagram);
    assert_eq!(local("/a", TransportProtocol::Datagram).protocol(), TransportProtocol::Datagram);
    assert_eq!(local("/a", TransportProtocol::Stream).protocol(), TransportProtocol::Stream);
}

#[test]
fn bytes_leave_through_the_socket_of_the_peers_transport_kind() {
    let v4 = InternetAddress::V4 { ip: 0x7f00_0001, port: 4000 };
    assert_eq!(internet(1, 4000, TransportProtocol::Stream).route(), Route::Stream { address: v4 });
    assert_eq!(internet(1, 4000, TransportProtocol::Datagram).route(), Route::Datagram { address: v4 });
    assert_eq!(local("/a", TransportProtocol::Stream).route(), Route::Unsupported);
    assert_eq!(local("/a", TransportProtocol::Datagram).route(), Route::Unsupported);
}
