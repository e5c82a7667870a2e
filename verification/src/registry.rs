//! The protocol registry: which sub-protocols this side speaks, under which
//! alias it announces each, and which aliases its peers announced.
//!
//! Aliases are handed out by a counter that only grows, so an alias, once
//! given to a sub-protocol, is never given to another one. A sub-protocol that
//! is registered again keeps its alias and what its peers announced.

use crate::message::{ProtocolId, ProtocolKey};
use crate::protocol::{PeerKeys, Protocol};
use crate::transport::{PeerAddress, PeerAddressView};
use vstd::prelude::*;

verus! {

/// What is registered for one sub-protocol, apart from its handler.
pub ghost struct ProtocolView {
    pub key: ProtocolKey,
    pub peer_keys: Map<PeerAddressView, ProtocolKey>,
}

/// The registry as two maps and the alias counter.
pub ghost struct RegistryView {
    pub protocols_by_id: Map<Seq<u8>, ProtocolView>,
    pub ids_by_key: Map<ProtocolKey, Seq<u8>>,
    pub last_key: ProtocolKey,
}

impl RegistryView {
    /// The registry in which nothing is registered.
    pub open spec fn empty() -> RegistryView {
        RegistryView { protocols_by_id: Map::empty(), ids_by_key: Map::empty(), last_key: 0 }
    }

    /// Whether the sub-protocol `id` is registered.
    pub open spec fn has(self, id: Seq<u8>) -> bool {
        self.protocols_by_id.contains_key(id)
    }

    /// Whether `id` can be registered: it is registered already, or an alias
    /// is left for it.
    pub open spec fn can_register(self, id: Seq<u8>) -> bool {
        self.has(id) || self.last_key < ProtocolKey::MAX
    }

    /// The registry after `id` was registered. A registered `id` keeps its
    /// entry; a new one gets the next alias and no peer aliases.
    pub open spec fn register(self, id: Seq<u8>) -> RegistryView {
        if self.has(id) {
            self
        } else {
            let key = (self.last_key + 1) as ProtocolKey;
            RegistryView {
                protocols_by_id: self.protocols_by_id.insert(
                    id,
                    ProtocolView { key, peer_keys: Map::empty() },
                ),
                ids_by_key: self.ids_by_key.insert(key, id),
                last_key: key,
            }
        }
    }

    /// The registry after the peer at `address` announced `key` as its alias
    /// of `id`. Nothing changes where `id` is not registered.
    pub open spec fn bind_peer_key(
        self,
        id: Seq<u8>,
        address: PeerAddressView,
        key: ProtocolKey,
    ) -> RegistryView {
        if self.has(id) {
            let protocol = self.protocols_by_id[id];
            RegistryView {
                protocols_by_id: self.protocols_by_id.insert(
                    id,
                    ProtocolView {
                        key: protocol.key,
                        peer_keys: protocol.peer_keys.insert(address, key),
                    },
                ),
                ..self
            }
        } else {
            self
        }
    }

    /// The registry after the alias of the peer at `address` for `id` was
    /// forgotten. Nothing changes where `id` is not registered.
    pub open spec fn unbind_peer_key(self, id: Seq<u8>, address: PeerAddressView) -> RegistryView {
        if self.has(id) {
            let protocol = self.protocols_by_id[id];
            RegistryView {
                protocols_by_id: self.protocols_by_id.insert(
                    id,
                    ProtocolView {
                        key: protocol.key,
                        peer_keys: protocol.peer_keys.remove(address),
                    },
                ),
                ..self
            }
        } else {
            self
        }
    }

    /// The two maps agree: each registered sub-protocol is found under its
    /// alias, each alias in use leads to the sub-protocol that has it, and
    /// the aliases in use are those from 1 to the counter.
    pub open spec fn consistent(self) -> bool {
        &&& forall|id: Seq<u8>| #[trigger]
            self.protocols_by_id.contains_key(id) ==> {
                let key = self.protocols_by_id[id].key;
                self.ids_by_key.contains_key(key) && self.ids_by_key[key] == id
            }
        &&& forall|key: ProtocolKey| #[trigger]
            self.ids_by_key.contains_key(key) ==> {
                let id = self.ids_by_key[key];
                &&& 1 <= key <= self.last_key
                &&& self.protocols_by_id.contains_key(id)
                &&& self.protocols_by_id[id].key == key
            }
        &&& forall|key: ProtocolKey|
            1 <= key <= self.last_key ==> #[trigger] self.ids_by_key.contains_key(key)
    }
}

impl RegistryView {
    /// The registry after the sub-protocols `ids` were registered one after
    /// the other.
    pub open spec fn register_all(self, ids: Seq<Seq<u8>>) -> RegistryView
        decreases ids.len(),
    {
        if ids.len() == 0 {
            self
        } else {
            self.register_all(ids.drop_last()).register(ids.last())
        }
    }

    /// A sub-protocol that is registered again keeps its alias and the
    /// aliases of its peers, and so does every other one.
    pub proof fn lemma_key_stability(self, id: Seq<u8>)
        requires
            self.has(id),
        ensures
            self.register(id) == self,
            self.register(id).protocols_by_id[id].key == self.protocols_by_id[id].key,
            self.register(id).protocols_by_id[id].peer_keys == self.protocols_by_id[id].peer_keys,
    {
    }

    /// Registering a sub-protocol twice in a row is registering it once.
    pub proof fn lemma_register_twice(self, id: Seq<u8>)
        ensures
            self.register(id).register(id) == self.register(id),
    {
    }

    /// A registration leaves every sub-protocol that was registered before
    /// with its alias and the aliases of its peers.
    pub proof fn lemma_register_keeps_others(self, id: Seq<u8>, other: Seq<u8>)
        requires
            self.has(other),
        ensures
            self.register(id).has(other),
            self.register(id).protocols_by_id[other] == self.protocols_by_id[other],
    {
    }

    /// A registration keeps the two maps in agreement.
    pub proof fn lemma_register_consistent(self, id: Seq<u8>)
        requires
            self.consistent(),
            self.can_register(id),
        ensures
            self.register(id).consistent(),
    {
        let after = self.register(id);
        if !self.has(id) {
            let key = (self.last_key + 1) as ProtocolKey;
            assert(!self.ids_by_key.contains_key(key));
            assert forall|other: Seq<u8>| #[trigger]
                after.protocols_by_id.contains_key(other) implies {
                let k = after.protocols_by_id[other].key;
                after.ids_by_key.contains_key(k) && after.ids_by_key[k] == other
            } by {
                if other != id {
                    assert(self.protocols_by_id.contains_key(other));
                }
            }
            assert forall|k: ProtocolKey| #[trigger] after.ids_by_key.contains_key(k) implies {
                let other = after.ids_by_key[k];
                &&& 1 <= k <= after.last_key
                &&& after.protocols_by_id.contains_key(other)
                &&& after.protocols_by_id[other].key == k
            } by {
                if k != key {
                    assert(self.ids_by_key.contains_key(k));
                }
            }
            assert forall|k: ProtocolKey| 1 <= k <= after.last_key implies #[trigger]
                after.ids_by_key.contains_key(k) by {
                if k != key {
                    assert(self.ids_by_key.contains_key(k));
                }
            }
        }
    }

    /// Recording a peer's alias keeps the two maps in agreement.
    pub proof fn lemma_bind_consistent(self, id: Seq<u8>, address: PeerAddressView, key: ProtocolKey)
        requires
            self.consistent(),
        ensures
            self.bind_peer_key(id, address, key).consistent(),
    {
        let after = self.bind_peer_key(id, address, key);
        assert forall|other: Seq<u8>| #[trigger] after.protocols_by_id.contains_key(other) implies {
            let k = after.protocols_by_id[other].key;
            after.ids_by_key.contains_key(k) && after.ids_by_key[k] == other
        } by {
            assert(self.protocols_by_id.contains_key(other));
        }
        assert forall|k: ProtocolKey| #[trigger] after.ids_by_key.contains_key(k) implies {
            let other = after.ids_by_key[k];
            &&& 1 <= k <= after.last_key
            &&& after.protocols_by_id.contains_key(other)
            &&& after.protocols_by_id[other].key == k
        } by {
            assert(self.ids_by_key.contains_key(k));
        }
    }

    /// Forgetting a peer's alias keeps the two maps in agreement.
    pub proof fn lemma_unbind_consistent(self, id: Seq<u8>, address: PeerAddressView)
        requires
            self.consistent(),
        ensures
            self.unbind_peer_key(id, address).consistent(),
    {
        let after = self.unbind_peer_key(id, address);
        assert forall|other: Seq<u8>| #[trigger] after.protocols_by_id.contains_key(other) implies {
            let k = after.protocols_by_id[other].key;
            after.ids_by_key.contains_key(k) && after.ids_by_key[k] == other
        } by {
            assert(self.protocols_by_id.contains_key(other));
        }
        assert forall|k: ProtocolKey| #[trigger] after.ids_by_key.contains_key(k) implies {
            let other = after.ids_by_key[k];
            &&& 1 <= k <= after.last_key
            &&& after.protocols_by_id.contains_key(other)
            &&& after.protocols_by_id[other].key == k
        } by {
            assert(self.ids_by_key.contains_key(k));
        }
    }

    /// Forgetting a peer's alias a second time changes nothing.
    pub proof fn lemma_unbind_twice(self, id: Seq<u8>, address: PeerAddressView)
        ensures
            self.unbind_peer_key(id, address).unbind_peer_key(id, address) == self.unbind_peer_key(
                id,
                address,
            ),
    {
        let once = self.unbind_peer_key(id, address);
        let twice = once.unbind_peer_key(id, address);
        if self.has(id) {
            assert(once.protocols_by_id[id].peer_keys.remove(address)
                =~= once.protocols_by_id[id].peer_keys);
            assert(twice.protocols_by_id =~= once.protocols_by_id);
        }
    }

    /// In a registry whose maps agree, two different sub-protocols have
    /// different aliases.
    pub proof fn lemma_keys_distinct(self, a: Seq<u8>, b: Seq<u8>)
        requires
            self.consistent(),
            self.has(a),
            self.has(b),
            a != b,
        ensures
            self.protocols_by_id[a].key != self.protocols_by_id[b].key,
    {
    }

    /// After the sub-protocols `ids` were registered one after the other,
    /// each is registered, and any two different ones have different aliases.
    pub proof fn lemma_register_all(self, ids: Seq<Seq<u8>>)
        requires
            self.consistent(),
            self.last_key + ids.len() <= ProtocolKey::MAX,
        ensures
            self.register_all(ids).consistent(),
            self.register_all(ids).last_key <= self.last_key + ids.len(),
            forall|i: int| 0 <= i < ids.len() ==> self.register_all(ids).has(#[trigger] ids[i]),
            forall|i: int, j: int|
                0 <= i < ids.len() && 0 <= j < ids.len() && ids[i] != ids[j] ==> self.register_all(
                    ids,
                ).protocols_by_id[#[trigger] ids[i]].key != self.register_all(
                    ids,
                ).protocols_by_id[#[trigger] ids[j]].key,
        decreases ids.len(),
    {
        if ids.len() > 0 {
            let earlier = self.register_all(ids.drop_last());
            let all = self.register_all(ids);
            self.lemma_register_all(ids.drop_last());
            earlier.lemma_register_consistent(ids.last());
            assert forall|i: int| 0 <= i < ids.len() implies all.has(#[trigger] ids[i]) by {
                if i < ids.len() - 1 {
                    assert(ids.drop_last()[i] == ids[i]);
                    earlier.lemma_register_keeps_others(ids.last(), ids[i]);
                }
            }
            assert forall|i: int, j: int|
                0 <= i < ids.len() && 0 <= j < ids.len() && ids[i] != ids[j] implies all.protocols_by_id[#[trigger] ids[i]].key
                != all.protocols_by_id[#[trigger] ids[j]].key by {
                all.lemma_keys_distinct(ids[i], ids[j]);
            }
        }
    }
}

/// A sub-protocol under its name.
pub struct Registration<H> {
    pub id: ProtocolId,
    pub protocol: Protocol<H>,
}

/// The protocol registry.
///
/// The registrations stand in the order in which their aliases were handed
/// out, so the sub-protocol behind an alias is found by its place; the alias
/// counter is the number of registrations.
pub struct Registry<H> {
    registrations: Vec<Registration<H>>,
    last_key: ProtocolKey,
}

impl<H> View for Registry<H> {
    type V = RegistryView;

    closed spec fn view(&self) -> RegistryView {
        RegistryView {
            protocols_by_id: Map::new(
                |id: Seq<u8>| self.position(id) is Some,
                |id: Seq<u8>|
                    {
                        let protocol = self.registrations[self.position(id).unwrap()].protocol;
                        ProtocolView { key: protocol.key, peer_keys: protocol.peer_keys@ }
                    },
            ),
            ids_by_key: Map::new(
                |key: ProtocolKey| 1 <= key <= self.registrations.len(),
                |key: ProtocolKey| self.registrations[key - 1].id@,
            ),
            last_key: self.last_key,
        }
    }
}

impl<H> Registry<H> {
    /// Whether the registration at `i` is the one of `id`.
    spec fn holds_at(&self, id: Seq<u8>, i: int) -> bool {
        0 <= i < self.registrations.len() && self.registrations[i].id@ == id
    }

    /// Where the registration of `id` stands, if there is one.
    spec fn position(&self, id: Seq<u8>) -> Option<int> {
        if exists|i: int| self.holds_at(id, i) {
            Some(choose|i: int| self.holds_at(id, i))
        } else {
            None
        }
    }

    /// The registrations stand in the order of their aliases, which count up
    /// from 1; no sub-protocol is registered twice; each table of peer
    /// aliases is well formed.
    pub closed spec fn wf(&self) -> bool {
        &&& self.registrations.len() == self.last_key
        &&& forall|i: int|
            0 <= i < self.registrations.len() ==> {
                &&& (#[trigger] self.registrations[i]).protocol.key == i + 1
                &&& self.registrations[i].protocol.peer_keys.wf()
            }
        &&& forall|i: int, j: int|
            #![trigger self.registrations[i], self.registrations[j]]
            0 <= i < self.registrations.len() && 0 <= j < self.registrations.len() && i != j
                ==> self.registrations[i].id@ != self.registrations[j].id@
    }

    /// The handler registered for `id`.
    pub closed spec fn handler_of(&self, id: Seq<u8>) -> H {
        self.registrations[self.position(id).unwrap()].protocol.handler
    }

    proof fn lemma_position(&self, i: int)
        requires
            self.wf(),
            0 <= i < self.registrations.len(),
        ensures
            self.position(self.registrations[i].id@) == Some(i),
            self@.has(self.registrations[i].id@),
            self@.protocols_by_id[self.registrations[i].id@] == (ProtocolView {
                key: self.registrations[i].protocol.key,
                peer_keys: self.registrations[i].protocol.peer_keys@,
            }),
            self.handler_of(self.registrations[i].id@) == self.registrations[i].protocol.handler,
    {
        let id = self.registrations[i].id@;
        assert(self.holds_at(id, i));
        let j = choose|j: int| self.holds_at(id, j);
        assert(self.holds_at(id, j));
        if j != i {
            assert(self.registrations[j].id@ != self.registrations[i].id@);
        }
    }

    proof fn lemma_absent(&self, id: Seq<u8>)
        requires
            forall|i: int| 0 <= i < self.registrations.len() ==> self.registrations[i].id@ != id,
        ensures
            !self@.has(id),
            self.position(id) is None,
    {
        if exists|i: int| self.holds_at(id, i) {
            let i = choose|i: int| self.holds_at(id, i);
            assert(self.holds_at(id, i));
        }
    }

    /// The maps of a well-formed registry agree with each other.
    pub proof fn lemma_consistent(&self)
        requires
            self.wf(),
        ensures
            self@.consistent(),
    {
        let v = self@;
        assert forall|id: Seq<u8>| #[trigger] v.protocols_by_id.contains_key(id) implies {
            let key = v.protocols_by_id[id].key;
            v.ids_by_key.contains_key(key) && v.ids_by_key[key] == id
        } by {
            let i = self.position(id).unwrap();
            assert(self.holds_at(id, i));
            self.lemma_position(i);
        }
        assert forall|key: ProtocolKey| #[trigger] v.ids_by_key.contains_key(key) implies {
            let id = v.ids_by_key[key];
            &&& 1 <= key <= v.last_key
            &&& v.protocols_by_id.contains_key(id)
            &&& v.protocols_by_id[id].key == key
        } by {
            self.lemma_position(key - 1);
        }
    }

    /// A registry in which nothing is registered.
    pub fn new() -> (registry: Registry<H>)
        ensures
            registry.wf(),
            registry@ == RegistryView::empty(),
    {
        let registry = Registry { registrations: Vec::new(), last_key: 0 };
        proof {
            assert forall|id: Seq<u8>| !registry@.has(id) by {
                registry.lemma_absent(id);
            }
            assert(registry@.protocols_by_id =~= Map::<Seq<u8>, ProtocolView>::empty());
            assert(registry@.ids_by_key =~= Map::<ProtocolKey, Seq<u8>>::empty());
        }
        registry
    }

    /// Where the registration of `id` stands.
    fn find(&self, id: &ProtocolId) -> (found: Option<usize>)
        requires
            self.wf(),
        ensures
            match found {
                Some(i) => self.holds_at(id@, i as int) && self.position(id@) == Some(i as int)
                    && self@.has(id@),
                None => !self@.has(id@) && self.position(id@) is None,
            },
    {
        let mut i: usize = 0;
        while i < self.registrations.len()
            invariant
                self.wf(),
                i <= self.registrations.len(),
                forall|j: int| 0 <= j < i ==> self.registrations[j].id@ != id@,
            decreases self.registrations.len() - i,
        {
            let same = self.registrations[i].id == *id;
            proof {
                if same {
                    assert(self.registrations[i as int].id@ =~= id@);
                    self.lemma_position(i as int);
                }
            }
            if same {
                return Some(i);
            }
            i = i + 1;
        }
        proof {
            self.lemma_absent(id@);
        }
        None
    }

    /// Whether the sub-protocol `id` is registered.
    pub fn has(&self, id: &ProtocolId) -> (registered: bool)
        requires
            self.wf(),
        ensures
            registered == self@.has(id@),
    {
        self.find(id).is_some()
    }

    /// Whether `id` can be registered: it is registered already, or an alias
    /// is left for it.
    pub fn can_register(&self, id: &ProtocolId) -> (possible: bool)
        requires
            self.wf(),
        ensures
            possible == self@.can_register(id@),
    {
        self.last_key < ProtocolKey::MAX || self.has(id)
    }

    /// The next alias of the counter.
    fn get_next_key(&mut self) -> (key: ProtocolKey)
        requires
            old(self).last_key < ProtocolKey::MAX,
        ensures
            key == old(self).last_key + 1,
            final(self).last_key == key,
            final(self).registrations == old(self).registrations,
    {
        self.last_key += 1;
        self.last_key
    }

    /// Registers `handler` for `id`. A sub-protocol that is registered
    /// already keeps its alias and the aliases of its peers, and only its
    /// handler is replaced; a new one gets the next alias.
    pub fn register(&mut self, id: ProtocolId, handler: H)
        requires
            old(self).wf(),
            old(self)@.can_register(id@),
        ensures
            final(self).wf(),
            final(self)@ == old(self)@.register(id@),
            final(self).handler_of(id@) == handler,
            forall|other: Seq<u8>|
                old(self)@.has(other) && other != id@ ==> final(self).handler_of(other) == old(
                    self,
                ).handler_of(other),
    {
        match self.find(&id) {
            Some(i) => {
                self.registrations[i].protocol.handler = handler;
                proof {
                    let pre = *old(self);
                    let post = *self;
                    assert(post.registrations.len() == pre.registrations.len());
                    assert forall|j: int| 0 <= j < post.registrations.len() implies {
                        &&& (#[trigger] post.registrations[j]).id == pre.registrations[j].id
                        &&& post.registrations[j].protocol.key == pre.registrations[j].protocol.key
                        &&& post.registrations[j].protocol.peer_keys
                            == pre.registrations[j].protocol.peer_keys
                        &&& j != i ==> post.registrations[j] == pre.registrations[j]
                    } by {}
                    assert(post.wf());
                    Self::lemma_same_ids(pre, post);
                    post.lemma_position(i as int);
                    assert(post@.protocols_by_id =~= pre@.protocols_by_id);
                    assert(post@.ids_by_key =~= pre@.ids_by_key);
                    assert forall|other: Seq<u8>| pre@.has(other) && other != id@ implies post.handler_of(other) == pre.handler_of(other) by {
                        let k = pre.position(other).unwrap();
                        assert(pre.holds_at(other, k));
                    }
                }
            },
            None => {
                let key = self.get_next_key();
                let peer_keys = PeerKeys::new();
                let registration = Registration { id, protocol: Protocol { handler, key, peer_keys } };
                self.registrations.push(registration);
                proof {
                    let pre = *old(self);
                    let post = *self;
                    let n = pre.registrations.len() as int;
                    assert forall|j: int| 0 <= j < n implies #[trigger] post.registrations[j]
                        == pre.registrations[j] by {}
                    assert(post.registrations[n].id@ == id@);
                    assert forall|j: int| 0 <= j < n implies pre.registrations[j].id@ != id@ by {
                        assert(!pre.holds_at(id@, j));
                    }
                    assert(post.wf());
                    post.lemma_position(n);
                    assert forall|other: Seq<u8>|
                        #![trigger post@.protocols_by_id.contains_key(other)]
                        #![trigger post@.protocols_by_id[other]]
                        #![trigger post.handler_of(other)]
                        other != id@ implies (post@.has(other) <==> pre@.has(other)) && (pre@.has(
                        other,
                    ) ==> post@.protocols_by_id[other] == pre@.protocols_by_id[other]
                        && post.handler_of(other) == pre.handler_of(other)) by {
                        if pre.position(other) is Some {
                            let k = pre.position(other).unwrap();
                            assert(pre.holds_at(other, k));
                            assert(post.holds_at(other, k));
                            pre.lemma_position(k);
                            post.lemma_position(k);
                        }
                        if post.position(other) is Some {
                            let k = post.position(other).unwrap();
                            assert(post.holds_at(other, k));
                            assert(pre.holds_at(other, k));
                        }
                    }
                    assert(post@.protocols_by_id =~= pre@.register(id@).protocols_by_id);
                    assert(post@.ids_by_key =~= pre@.register(id@).ids_by_key);
                }
            },
        }
    }

    /// Two registries with the same names in the same places find each name
    /// in the same place.
    proof fn lemma_same_ids(pre: Registry<H>, post: Registry<H>)
        requires
            pre.wf(),
            post.wf(),
            pre.registrations.len() == post.registrations.len(),
            forall|j: int|
                0 <= j < post.registrations.len() ==> (#[trigger] post.registrations[j]).id
                    == pre.registrations[j].id,
        ensures
            forall|id: Seq<u8>| pre.position(id) == post.position(id),
    {
        assert forall|id: Seq<u8>| pre.position(id) == post.position(id) by {
            if pre.position(id) is Some {
                let k = pre.position(id).unwrap();
                assert(pre.holds_at(id, k));
                assert(post.registrations[k].id == pre.registrations[k].id);
                post.lemma_position(k);
            } else if post.position(id) is Some {
                let k = post.position(id).unwrap();
                assert(post.holds_at(id, k));
                assert(post.registrations[k].id == pre.registrations[k].id);
                assert(pre.holds_at(id, k));
            }
        }
    }

    /// What is registered for `id`, if it is registered.
    pub fn lookup_by_id(&self, id: &ProtocolId) -> (found: Option<&Protocol<H>>)
        requires
            self.wf(),
        ensures
            match found {
                Some(protocol) => {
                    &&& self@.has(id@)
                    &&& protocol.key == self@.protocols_by_id[id@].key
                    &&& protocol.peer_keys@ == self@.protocols_by_id[id@].peer_keys
                    &&& protocol.peer_keys.wf()
                    &&& protocol.handler == self.handler_of(id@)
                },
                None => !self@.has(id@),
            },
    {
        match self.find(id) {
            Some(i) => {
                proof {
                    self.lemma_position(i as int);
                }
                Some(&self.registrations[i].protocol)
            },
            None => None,
        }
    }

    /// The sub-protocol that has the alias `key`, if one has it.
    pub fn lookup_by_key(&self, key: ProtocolKey) -> (found: Option<&ProtocolId>)
        requires
            self.wf(),
        ensures
            match found {
                Some(id) => self@.ids_by_key.contains_key(key) && id@ == self@.ids_by_key[key],
                None => !self@.ids_by_key.contains_key(key),
            },
    {
        if 1 <= key && key <= self.last_key {
            Some(&self.registrations[(key - 1) as usize].id)
        } else {
            None
        }
    }

    /// Records `key` as the alias that the peer at `address` announced for
    /// `id`, in place of an earlier one. Says whether `id` is registered.
    pub fn bind_peer_key(&mut self, id: &ProtocolId, address: PeerAddress, key: ProtocolKey) -> (bound:
        bool)
        requires
            old(self).wf(),
        ensures
            final(self).wf(),
            bound == old(self)@.has(id@),
            final(self)@ == old(self)@.bind_peer_key(id@, address@, key),
            forall|other: Seq<u8>|
                old(self)@.has(other) ==> final(self).handler_of(other) == old(self).handler_of(other),
    {
        match self.find(id) {
            Some(i) => {
                proof {
                    self.lemma_position(i as int);
                }
                self.registrations[i].protocol.peer_keys.insert(address, key);
                proof {
                    Self::lemma_peer_keys_changed(*old(self), *self, i as int);
                    assert(self@.protocols_by_id =~= old(self)@.bind_peer_key(
                        id@,
                        address@,
                        key,
                    ).protocols_by_id);
                }
                true
            },
            None => false,
        }
    }

    /// Forgets the alias that the peer at `address` announced for `id`.
    /// Nothing changes where there is none.
    pub fn unbind_peer_key(&mut self, id: &ProtocolId, address: &PeerAddress)
        requires
            old(self).wf(),
        ensures
            final(self).wf(),
            final(self)@ == old(self)@.unbind_peer_key(id@, address@),
            forall|other: Seq<u8>|
                old(self)@.has(other) ==> final(self).handler_of(other) == old(self).handler_of(other),
    {
        match self.find(id) {
            Some(i) => {
                proof {
                    self.lemma_position(i as int);
                }
                self.registrations[i].protocol.peer_keys.remove(address);
                proof {
                    Self::lemma_peer_keys_changed(*old(self), *self, i as int);
                    assert(self@.protocols_by_id =~= old(self)@.unbind_peer_key(
                        id@,
                        address@,
                    ).protocols_by_id);
                }
            },
            None => {},
        }
    }

    /// Where only the peer aliases of the registration at `i` changed, the
    /// registry is well formed as before, and all else reads as before.
    proof fn lemma_peer_keys_changed(pre: Registry<H>, post: Registry<H>, i: int)
        requires
            pre.wf(),
            0 <= i < pre.registrations.len(),
            post.last_key == pre.last_key,
            post.registrations.len() == pre.registrations.len(),
            forall|j: int|
                0 <= j < pre.registrations.len() && j != i ==> #[trigger] post.registrations[j]
                    == pre.registrations[j],
            post.registrations[i].id == pre.registrations[i].id,
            post.registrations[i].protocol.key == pre.registrations[i].protocol.key,
            post.registrations[i].protocol.handler == pre.registrations[i].protocol.handler,
            post.registrations[i].protocol.peer_keys.wf(),
        ensures
            post.wf(),
            post@.ids_by_key == pre@.ids_by_key,
            post@.last_key == pre@.last_key,
            forall|other: Seq<u8>| #[trigger]
                post@.protocols_by_id.contains_key(other) == pre@.protocols_by_id.contains_key(
                    other,
                ),
            forall|other: Seq<u8>|
                pre@.has(other) && other != pre.registrations[i].id@
                    ==> #[trigger] post@.protocols_by_id[other] == pre@.protocols_by_id[other],
            post@.protocols_by_id[pre.registrations[i].id@] == (ProtocolView {
                key: pre.registrations[i].protocol.key,
                peer_keys: post.registrations[i].protocol.peer_keys@,
            }),
            forall|other: Seq<u8>| pre@.has(other) ==> post.handler_of(other) == pre.handler_of(other),
    {
        assert forall|j: int| 0 <= j < post.registrations.len() implies (
        #[trigger] post.registrations[j]).id == pre.registrations[j].id by {}
        assert(post.wf());
        Self::lemma_same_ids(pre, post);
        assert(post@.ids_by_key =~= pre@.ids_by_key);
        post.lemma_position(i);
        assert forall|other: Seq<u8>|
            pre@.has(other) && other != pre.registrations[i].id@ implies #[trigger] post@.protocols_by_id[other]
            == pre@.protocols_by_id[other] by {
            let k = pre.position(other).unwrap();
            assert(pre.holds_at(other, k));
        }
        assert forall|other: Seq<u8>| pre@.has(other) implies post.handler_of(other)
            == pre.handler_of(other) by {
            let k = pre.position(other).unwrap();
            assert(pre.holds_at(other, k));
        }
    }
}

} // verus!
