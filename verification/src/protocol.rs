//! What the relay keeps for one registered sub-protocol: the handler behind
//! it, the alias under which this side announces it, and the aliases that
//! peers have announced for it.

use crate::message::{Payload, ProtocolKey};
use crate::transport::{PeerAddress, PeerAddressView};
use vstd::prelude::*;

verus! {

/// The application behind one registered sub-protocol.
///
/// The relay hands it the traffic addressed to the sub-protocol and asks it to
/// accept or deny each step of a connection's lifecycle. What a handler
/// answers is its own business: the relay acts on every possible answer.
pub trait Handler {
    /// Takes ordinary data from a peer.
    fn handle_message(&self, address: PeerAddress, payload: Payload);

    /// Accepts or denies a peer's acceptance of a connection. `Some` carries
    /// the payload of the confirmation to send back.
    fn verify_accepted_connection(&self, address: PeerAddress, payload: Payload) -> Option<
        Payload,
    >;

    /// Accepts or denies a peer's confirmation of a connection.
    fn verify_confirmed_connection(&self, address: PeerAddress, payload: Payload) -> bool;

    /// Accepts or denies a peer's request to close a connection.
    fn verify_closed_connection(&self, address: PeerAddress, payload: Payload) -> bool;
}

/// A boxed handler is a handler: nodes that hold boxed trait objects can
/// register handlers of different types. The box answers what the handler
/// inside it answers to the same peer and payload.
impl<T: Handler + ?Sized> Handler for Box<T> {
    fn handle_message(&self, address: PeerAddress, payload: Payload) {
        (**self).handle_message(address, payload)
    }

    fn verify_accepted_connection(&self, address: PeerAddress, payload: Payload) -> (verdict:
        Option<Payload>)
        ensures
            call_ensures(T::verify_accepted_connection, (&**self, address, payload), verdict),
    {
        (**self).verify_accepted_connection(address, payload)
    }

    fn verify_confirmed_connection(&self, address: PeerAddress, payload: Payload) -> (verified:
        bool)
        ensures
            call_ensures(T::verify_confirmed_connection, (&**self, address, payload), verified),
    {
        (**self).verify_confirmed_connection(address, payload)
    }

    fn verify_closed_connection(&self, address: PeerAddress, payload: Payload) -> (verified: bool)
        ensures
            call_ensures(T::verify_closed_connection, (&**self, address, payload), verified),
    {
        (**self).verify_closed_connection(address, payload)
    }
}

/// One peer's alias for a sub-protocol.
pub struct PeerKey {
    pub address: PeerAddress,
    pub key: ProtocolKey,
}

/// The aliases that peers have announced for one sub-protocol, at most one per
/// peer address.
pub struct PeerKeys {
    entries: Vec<PeerKey>,
}

impl View for PeerKeys {
    type V = Map<PeerAddressView, ProtocolKey>;

    closed spec fn view(&self) -> Map<PeerAddressView, ProtocolKey> {
        Map::new(
            |address: PeerAddressView| self.position(address) is Some,
            |address: PeerAddressView| self.entries[self.position(address).unwrap()].key,
        )
    }
}

impl PeerKeys {
    /// Whether the entry at `i` is the one of `address`.
    spec fn holds_at(&self, address: PeerAddressView, i: int) -> bool {
        0 <= i < self.entries.len() && self.entries[i].address@ == address
    }

    /// Where the entry of `address` stands, if there is one.
    spec fn position(&self, address: PeerAddressView) -> Option<int> {
        if exists|i: int| self.holds_at(address, i) {
            Some(choose|i: int| self.holds_at(address, i))
        } else {
            None
        }
    }

    /// No peer address has two entries.
    pub closed spec fn wf(&self) -> bool {
        forall|i: int, j: int|
            #![trigger self.entries[i], self.entries[j]]
            0 <= i < self.entries.len() && 0 <= j < self.entries.len() && i != j
                ==> self.entries[i].address@ != self.entries[j].address@
    }

    proof fn lemma_position(&self, i: int)
        requires
            self.wf(),
            0 <= i < self.entries.len(),
        ensures
            self.position(self.entries[i].address@) == Some(i),
            self@.contains_key(self.entries[i].address@),
            self@[self.entries[i].address@] == self.entries[i].key,
    {
        let address = self.entries[i].address@;
        assert(self.holds_at(address, i));
        let j = choose|j: int| self.holds_at(address, j);
        assert(self.holds_at(address, j));
        if j != i {
            assert(self.entries[j].address@ != self.entries[i].address@);
        }
    }

    proof fn lemma_absent(&self, address: PeerAddressView)
        requires
            forall|i: int| 0 <= i < self.entries.len() ==> self.entries[i].address@ != address,
        ensures
            !self@.contains_key(address),
    {
        if exists|i: int| self.holds_at(address, i) {
            let i = choose|i: int| self.holds_at(address, i);
            assert(self.holds_at(address, i));
        }
    }

    /// An empty table.
    pub fn new() -> (table: PeerKeys)
        ensures
            table.wf(),
            table@ == Map::<PeerAddressView, ProtocolKey>::empty(),
    {
        let table = PeerKeys { entries: Vec::new() };
        proof {
            assert forall|address: PeerAddressView| !table@.contains_key(address) by {
                table.lemma_absent(address);
            }
            assert(table@ =~= Map::<PeerAddressView, ProtocolKey>::empty());
        }
        table
    }

    /// Where the entry of `address` stands in the table.
    fn find(&self, address: &PeerAddress) -> (found: Option<usize>)
        requires
            self.wf(),
        ensures
            match found {
                Some(i) => self.holds_at(address@, i as int) && self@.contains_key(address@)
                    && self@[address@] == self.entries[i as int].key,
                None => !self@.contains_key(address@) && forall|i: int|
                    0 <= i < self.entries.len() ==> self.entries[i].address@ != address@,
            },
    {
        let mut i: usize = 0;
        while i < self.entries.len()
            invariant
                self.wf(),
                i <= self.entries.len(),
                forall|j: int| 0 <= j < i ==> self.entries[j].address@ != address@,
            decreases self.entries.len() - i,
        {
            if self.entries[i].address == *address {
                proof {
                    self.lemma_position(i as int);
                }
                return Some(i);
            }
            i = i + 1;
        }
        proof {
            self.lemma_absent(address@);
        }
        None
    }

    /// The alias that the peer at `address` announced, if it announced one.
    pub fn get(&self, address: &PeerAddress) -> (key: Option<ProtocolKey>)
        requires
            self.wf(),
        ensures
            key == (if self@.contains_key(address@) {
                Some(self@[address@])
            } else {
                None
            }),
    {
        match self.find(address) {
            Some(i) => Some(self.entries[i].key),
            None => None,
        }
    }

    /// Records `key` as the alias of the peer at `address`, in place of an
    /// earlier one, which is returned.
    pub fn insert(&mut self, address: PeerAddress, key: ProtocolKey) -> (earlier: Option<
        ProtocolKey,
    >)
        requires
            old(self).wf(),
        ensures
            final(self).wf(),
            final(self)@ == old(self)@.insert(address@, key),
            earlier == (if old(self)@.contains_key(address@) {
                Some(old(self)@[address@])
            } else {
                None
            }),
    {
        match self.find(&address) {
            Some(i) => {
                let earlier = self.entries[i].key;
                self.entries[i].key = key;
                proof {
                    let pre = *old(self);
                    let post = *self;
                    assert(post.entries.len() == pre.entries.len());
                    assert forall|j: int| 0 <= j < post.entries.len() implies #[trigger] post.entries[j].address@
                        == pre.entries[j].address@ by {}
                    assert(post.wf());
                    assert forall|a: PeerAddressView|
                        post.position(a) is Some <==> pre.position(a) is Some by {
                        if pre.position(a) is Some {
                            let k = choose|k: int| pre.holds_at(a, k);
                            assert(post.holds_at(a, k));
                        }
                        if post.position(a) is Some {
                            let k = choose|k: int| post.holds_at(a, k);
                            assert(pre.holds_at(a, k));
                        }
                    }
                    assert forall|a: PeerAddressView| pre@.contains_key(a) && a != address@
                        implies post@[a] == pre@[a] by {
                        let k = pre.position(a).unwrap();
                        assert(pre.holds_at(a, k));
                        pre.lemma_position(k);
                        post.lemma_position(k);
                    }
                    post.lemma_position(i as int);
                    assert(post@ =~= pre@.insert(address@, key));
                }
                Some(earlier)
            },
            None => {
                self.entries.push(PeerKey { address, key });
                proof {
                    let pre = *old(self);
                    let post = *self;
                    let n = pre.entries.len() as int;
                    assert(post.entries@ == pre.entries@.push(post.entries[n]));
                    assert forall|j: int| 0 <= j < n implies #[trigger] post.entries[j]
                        == pre.entries[j] by {}
                    assert(post.wf());
                    assert(post.entries[n].address@ == address@ && post.entries[n].key == key);
                    post.lemma_position(n);
                    assert forall|a: PeerAddressView|
                        #![trigger post@.contains_key(a)]
                        #![trigger post@[a]]
                        a != address@ implies (post@.contains_key(a) <==> pre@.contains_key(a))
                        && (pre@.contains_key(a) ==> post@[a] == pre@[a]) by {
                        if pre.position(a) is Some {
                            let k = pre.position(a).unwrap();
                            assert(pre.holds_at(a, k));
                            assert(post.holds_at(a, k));
                            pre.lemma_position(k);
                            post.lemma_position(k);
                        }
                        if post.position(a) is Some {
                            let k = post.position(a).unwrap();
                            assert(post.holds_at(a, k));
                            assert(pre.holds_at(a, k));
                        }
                    }
                    assert(post@ =~= pre@.insert(address@, key));
                }
                None
            },
        }
    }

    /// Forgets the alias of the peer at `address`, which is returned if there
    /// was one.
    pub fn remove(&mut self, address: &PeerAddress) -> (earlier: Option<ProtocolKey>)
        requires
            old(self).wf(),
        ensures
            final(self).wf(),
            final(self)@ == old(self)@.remove(address@),
            earlier == (if old(self)@.contains_key(address@) {
                Some(old(self)@[address@])
            } else {
                None
            }),
    {
        match self.find(address) {
            Some(i) => {
                let gone = self.entries.remove(i);
                proof {
                    let pre = *old(self);
                    let post = *self;
                    let at = i as int;
                    assert(post.entries@ == pre.entries@.remove(at));
                    assert forall|j: int| 0 <= j < post.entries.len() implies #[trigger] post.entries[j]
                        == pre.entries[if j < at { j } else { j + 1 }] by {}
                    assert forall|j: int| 0 <= j < post.entries.len() implies #[trigger] post.entries[j].address@
                        != address@ by {
                        let k = if j < at { j } else { j + 1 };
                        assert(pre.entries[k].address@ != pre.entries[at].address@);
                    }
                    assert forall|j: int, k: int|
                        #![trigger post.entries[j], post.entries[k]]
                        0 <= j < post.entries.len() && 0 <= k < post.entries.len() && j != k
                        implies post.entries[j].address@ != post.entries[k].address@ by {
                        let pj = if j < at { j } else { j + 1 };
                        let pk = if k < at { k } else { k + 1 };
                        assert(pre.entries[pj].address@ != pre.entries[pk].address@);
                    }
                    assert(post.wf());
                    post.lemma_absent(address@);
                    assert forall|a: PeerAddressView|
                        #![trigger post@.contains_key(a)]
                        #![trigger post@[a]]
                        a != address@ implies (post@.contains_key(a) <==> pre@.contains_key(a))
                        && (pre@.contains_key(a) ==> post@[a] == pre@[a]) by {
                        if pre.position(a) is Some {
                            let k = pre.position(a).unwrap();
                            assert(pre.holds_at(a, k));
                            let q = if k < at { k } else { k - 1 };
                            assert(post.holds_at(a, q));
                            pre.lemma_position(k);
                            post.lemma_position(q);
                        }
                        if post.position(a) is Some {
                            let q = post.position(a).unwrap();
                            assert(post.holds_at(a, q));
                            let k = if q < at { q } else { q + 1 };
                            assert(pre.holds_at(a, k));
                        }
                    }
                    assert(post@ =~= pre@.remove(address@));
                }
                Some(gone.key)
            },
            None => {
                assert(self@ =~= old(self)@.remove(address@));
                None
            },
        }
    }
}

/// A registered sub-protocol.
pub struct Protocol<H> {
    pub handler: H,
    pub key: ProtocolKey,
    pub peer_keys: PeerKeys,
}

} // verus!
