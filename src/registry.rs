//! The peer registry: which identity is bound to which connection, and which
//! identities are paired with each other.
//!
//! The registry is one owned structure. Connections never refer to each other;
//! they look their partner up here by identity.

use vstd::prelude::*;

use crate::message::same_text;

verus! {

/// The handle of one transport session, as the host assigns it.
pub type ConnectionId = u64;

/// Why a registry operation was refused.
#[derive(Debug, Clone, Copy, PartialEq, Eq, Structural)]
pub enum RegistryError {
    /// The identity is already bound to another connection.
    DuplicateIdentity,
    /// One side of a pairing is not registered.
    UnknownIdentity,
    /// One side of a pairing already has a partner.
    AlreadyPaired,
    /// The identity has no partner to relay to.
    NotPaired,
}

struct Peer {
    identity: String,
    connection: ConnectionId,
    partner: Option<String>,
}

/// Registered identities with their connections and their partners.
pub struct PeerRegistry {
    peers: Vec<Peer>,
    conns: Ghost<Map<Seq<char>, ConnectionId>>,
    pairs: Ghost<Map<Seq<char>, Seq<char>>>,
    index: Ghost<Map<Seq<char>, int>>,
}

impl PeerRegistry {
    /// Identity to connection, for every registered identity.
    pub closed spec fn connections(&self) -> Map<Seq<char>, ConnectionId> {
        self.conns@
    }

    /// Identity to partner, for every paired identity.
    pub closed spec fn partners(&self) -> Map<Seq<char>, Seq<char>> {
        self.pairs@
    }

    /// The pairing is symmetric and only registered identities are paired.
    pub open spec fn pairing_ok(conns: Map<Seq<char>, ConnectionId>, pairs: Map<Seq<char>, Seq<char>>) -> bool {
        forall|k: Seq<char>| #[trigger]
            pairs.contains_key(k) ==> {
                &&& conns.contains_key(k)
                &&& pairs.contains_key(pairs[k])
                &&& pairs[pairs[k]] == k
            }
    }

    spec fn peer_ok(&self, i: int) -> bool {
        let p = self.peers@[i];
        &&& self.conns@.contains_key(p.identity@)
        &&& self.index@[p.identity@] == i
        &&& self.conns@[p.identity@] == p.connection
        &&& (p.partner is Some <==> self.pairs@.contains_key(p.identity@))
        &&& (p.partner is Some ==> self.pairs@[p.identity@] == p.partner->0@)
    }

    /// The vector of peers agrees with the two maps, each identity occurring
    /// once, and the pairing is symmetric.
    pub closed spec fn wf(&self) -> bool {
        &&& forall|k: Seq<char>| #[trigger]
            self.conns@.contains_key(k) ==> {
                &&& self.index@.contains_key(k)
                &&& 0 <= self.index@[k] < self.peers@.len()
                &&& self.peers@[self.index@[k]].identity@ == k
            }
        &&& forall|i: int| 0 <= i < self.peers@.len() ==> #[trigger] self.peer_ok(i)
        &&& Self::pairing_ok(self.conns@, self.pairs@)
    }

    /// A registry with no identities.
    pub fn new() -> (r: Self)
        ensures
            r.wf(),
            r.connections() == Map::<Seq<char>, ConnectionId>::empty(),
            r.partners() == Map::<Seq<char>, Seq<char>>::empty(),
    {
        PeerRegistry {
            peers: Vec::new(),
            conns: Ghost(Map::empty()),
            pairs: Ghost(Map::empty()),
            index: Ghost(Map::empty()),
        }
    }

    fn find(&self, identity: &str) -> (r: Option<usize>)
        requires
            self.wf(),
        ensures
            match r {
                Some(i) => {
                    &&& i < self.peers@.len()
                    &&& self.peers@[i as int].identity@ == identity@
                    &&& self.conns@.contains_key(identity@)
                    &&& self.peer_ok(i as int)
                },
                None => !self.conns@.contains_key(identity@),
            },
    {
        let mut i: usize = 0;
        while i < self.peers.len()
            invariant
                self.wf(),
                i <= self.peers@.len(),
                forall|j: int| 0 <= j < i ==> self.peers@[j].identity@ != identity@,
            decreases self.peers@.len() - i,
        {
            if same_text(self.peers[i].identity.as_str(), identity) {
                assert(self.peer_ok(i as int));
                return Some(i);
            }
            i = i + 1;
        }
        proof {
            if self.conns@.contains_key(identity@) {
                let j = self.index@[identity@];
                assert(self.peers@[j].identity@ == identity@);
            }
        }
        None
    }

    /// Binds `identity` to `connection`.
    ///
    /// Fails with `DuplicateIdentity` when the identity is already bound to
    /// another connection; binding it again to the same connection changes
    /// nothing.
    pub fn register(&mut self, identity: &str, connection: ConnectionId) -> (r: Result<
        (),
        RegistryError,
    >)
        requires
            old(self).wf(),
        ensures
            final(self).wf(),
            final(self).partners() == old(self).partners(),
            match r {
                Ok(()) => {
                    &&& !old(self).connections().contains_key(identity@)
                        || old(self).connections()[identity@] == connection
                    &&& final(self).connections() == old(self).connections().insert(
                        identity@,
                        connection,
                    )
                },
                Err(e) => {
                    &&& e == RegistryError::DuplicateIdentity
                    &&& old(self).connections().contains_key(identity@)
                    &&& old(self).connections()[identity@] != connection
                    &&& final(self).connections() == old(self).connections()
                },
            },
    {
        match self.find(identity) {
            Some(i) => {
                if self.peers[i].connection == connection {
                    proof {
                        assert(self.conns@.insert(identity@, connection) =~= self.conns@);
                    }
                    Ok(())
                } else {
                    Err(RegistryError::DuplicateIdentity)
                }
            },
            None => {
                let ghost old_peers = self.peers@;
                let n = self.peers.len();
                self.peers.push(Peer { identity: identity.to_owned(), connection, partner: None });
                self.conns = Ghost(self.conns@.insert(identity@, connection));
                self.index = Ghost(self.index@.insert(identity@, n as int));
                proof {
                    assert forall|i: int| 0 <= i < self.peers@.len() implies #[trigger] self.peer_ok(
                        i,
                    ) by {
                        if i < n {
                            assert(self.peers@[i] == old_peers[i]);
                            assert(old(self).peer_ok(i));
                        }
                    }
                }
                Ok(())
            },
        }
    }

    /// The partner of `identity`, if it has one.
    pub fn lookup_partner(&self, identity: &str) -> (r: Option<String>)
        requires
            self.wf(),
        ensures
            match r {
                Some(p) => self.partners().contains_key(identity@) && p@ == self.partners()[identity@],
                None => !self.partners().contains_key(identity@),
            },
    {
        match self.find(identity) {
            Some(i) => match &self.peers[i].partner {
                Some(p) => Some(p.clone()),
                None => None,
            },
            None => None,
        }
    }

    /// The connection bound to `identity`, if it is registered.
    pub fn connection_of(&self, identity: &str) -> (r: Option<ConnectionId>)
        requires
            self.wf(),
        ensures
            match r {
                Some(c) => self.connections().contains_key(identity@) && c == self.connections()[identity@],
                None => !self.connections().contains_key(identity@),
            },
    {
        match self.find(identity) {
            Some(i) => Some(self.peers[i].connection),
            None => None,
        }
    }

    /// Pairs `a` with `b`, on both sides.
    ///
    /// Fails with `UnknownIdentity` when either side is not registered, and
    /// otherwise with `AlreadyPaired` when either side has a partner.
    pub fn pair(&mut self, a: &str, b: &str) -> (r: Result<(), RegistryError>)
        requires
            old(self).wf(),
        ensures
            final(self).wf(),
            final(self).connections() == old(self).connections(),
            match r {
                Ok(()) => {
                    &&& old(self).connections().contains_key(a@)
                    &&& old(self).connections().contains_key(b@)
                    &&& !old(self).partners().contains_key(a@)
                    &&& !old(self).partners().contains_key(b@)
                    &&& final(self).partners() == old(self).partners().insert(a@, b@).insert(
                        b@,
                        a@,
                    )
                },
                Err(e) => {
                    &&& final(self).partners() == old(self).partners()
                    &&& if !old(self).connections().contains_key(a@)
                        || !old(self).connections().contains_key(b@) {
                        e == RegistryError::UnknownIdentity
                    } else {
                        &&& e == RegistryError::AlreadyPaired
                        &&& (old(self).partners().contains_key(a@) || old(self).partners().contains_key(
                            b@,
                        ))
                    }
                },
            },
    {
        let ia = match self.find(a) {
            Some(i) => i,
            None => {
                return Err(RegistryError::UnknownIdentity);
            },
        };
        let ib = match self.find(b) {
            Some(i) => i,
            None => {
                return Err(RegistryError::UnknownIdentity);
            },
        };
        if self.peers[ia].partner.is_some() || self.peers[ib].partner.is_some() {
            return Err(RegistryError::AlreadyPaired);
        }
        let ghost old_peers = self.peers@;
        let ghost old_pairs = self.pairs@;
        self.peers[ia].partner = Some(b.to_owned());
        self.peers[ib].partner = Some(a.to_owned());
        self.pairs = Ghost(self.pairs@.insert(a@, b@).insert(b@, a@));
        proof {
            assert(old(self).peer_ok(ia as int));
            assert(old(self).peer_ok(ib as int));
            assert forall|i: int| 0 <= i < self.peers@.len() implies #[trigger] self.peer_ok(i) by {
                assert(old(self).peer_ok(i));
                if i != ia && i != ib {
                    assert(self.peers@[i] == old_peers[i]);
                }
            }
            assert forall|k: Seq<char>| #[trigger] self.pairs@.contains_key(k) implies {
                &&& self.conns@.contains_key(k)
                &&& self.pairs@.contains_key(self.pairs@[k])
                &&& self.pairs@[self.pairs@[k]] == k
            } by {
                if k != a@ && k != b@ {
                    assert(old_pairs.contains_key(k));
                    assert(old_pairs[k] != a@);
                    assert(old_pairs[k] != b@);
                }
            }
        }
        Ok(())
    }

    /// `pairs` without the pairing of `k`, on both sides.
    pub open spec fn without_pair(pairs: Map<Seq<char>, Seq<char>>, k: Seq<char>) -> Map<
        Seq<char>,
        Seq<char>,
    > {
        if pairs.contains_key(k) {
            pairs.remove(k).remove(pairs[k])
        } else {
            pairs
        }
    }

    /// Removes the pairing of `identity` on both sides; does nothing when it
    /// has no partner.
    pub fn unpair(&mut self, identity: &str)
        requires
            old(self).wf(),
        ensures
            final(self).wf(),
            final(self).connections() == old(self).connections(),
            final(self).partners() == Self::without_pair(old(self).partners(), identity@),
    {
        let i = match self.find(identity) {
            Some(i) => i,
            None => {
                return;
            },
        };
        let p = match &self.peers[i].partner {
            Some(p) => p.clone(),
            None => {
                return;
            },
        };
        let j = match self.find(p.as_str()) {
            Some(j) => j,
            None => {
                return;
            },
        };
        let ghost old_peers = self.peers@;
        let ghost old_pairs = self.pairs@;
        self.peers[i].partner = None;
        self.peers[j].partner = None;
        self.pairs = Ghost(Self::without_pair(self.pairs@, identity@));
        proof {
            assert(old(self).peer_ok(j as int));
            assert forall|x: int| 0 <= x < self.peers@.len() implies #[trigger] self.peer_ok(x) by {
                assert(old(self).peer_ok(x));
                if x != i && x != j {
                    assert(self.peers@[x] == old_peers[x]);
                }
            }
            assert forall|k: Seq<char>| #[trigger] self.pairs@.contains_key(k) implies {
                &&& self.conns@.contains_key(k)
                &&& self.pairs@.contains_key(self.pairs@[k])
                &&& self.pairs@[self.pairs@[k]] == k
            } by {
                assert(old_pairs.contains_key(k));
                assert(old_pairs[k] != identity@);
                assert(old_pairs[k] != p@);
            }
        }
    }

    /// Removes `identity` and, if it was paired, the pairing on both sides.
    /// Does nothing for an identity that is not registered.
    pub fn deregister(&mut self, identity: &str)
        requires
            old(self).wf(),
        ensures
            final(self).wf(),
            final(self).connections() == old(self).connections().remove(identity@),
            final(self).partners() == Self::without_pair(old(self).partners(), identity@),
    {
        self.unpair(identity);
        match self.find(identity) {
            None => {
                proof {
                    assert(self.conns@.remove(identity@) =~= self.conns@);
                }
            },
            Some(i) => {
                let ghost old_peers = self.peers@;
                let ghost old_index = self.index@;
                let ghost mid = *self;
                self.peers.remove(i);
                let ghost conns = self.conns@.remove(identity@);
                self.conns = Ghost(conns);
                self.index = Ghost(
                    Map::new(
                        |k: Seq<char>| conns.contains_key(k),
                        |k: Seq<char>|
                            if old_index[k] > i {
                                old_index[k] - 1
                            } else {
                                old_index[k]
                            },
                    ),
                );
                proof {
                    assert(!self.pairs@.contains_key(identity@));
                    assert forall|x: int| 0 <= x < self.peers@.len() implies #[trigger] self.peer_ok(
                        x,
                    ) by {
                        let o = if x < i {
                            x
                        } else {
                            x + 1
                        };
                        assert(self.peers@[x] == old_peers[o]);
                        assert(mid.peer_ok(o));
                    }
                    assert forall|k: Seq<char>| #[trigger] self.conns@.contains_key(k) implies {
                        &&& self.index@.contains_key(k)
                        &&& 0 <= self.index@[k] < self.peers@.len()
                        &&& self.peers@[self.index@[k]].identity@ == k
                    } by {
                        let o = old_index[k];
                        assert(mid.conns@.contains_key(k));
                        assert(mid.peer_ok(o));
                        assert(o != i);
                    }
                    assert forall|k: Seq<char>| #[trigger] self.pairs@.contains_key(k) implies {
                        &&& self.conns@.contains_key(k)
                        &&& self.pairs@.contains_key(self.pairs@[k])
                        &&& self.pairs@[self.pairs@[k]] == k
                    } by {
                        assert(mid.pairs@.contains_key(k));
                    }
                }
            },
        }
    }

    /// The connection of the partner of `from`, where a payload of `from` is
    /// to be delivered.
    ///
    /// Fails with `NotPaired` when `from` has no partner.
    pub fn route(&self, from: &str) -> (r: Result<ConnectionId, RegistryError>)
        requires
            self.wf(),
        ensures
            match r {
                Ok(c) => {
                    &&& self.partners().contains_key(from@)
                    &&& c == self.connections()[self.partners()[from@]]
                },
                Err(e) => e == RegistryError::NotPaired && !self.partners().contains_key(from@),
            },
    {
        let i = match self.find(from) {
            Some(i) => i,
            None => {
                return Err(RegistryError::NotPaired);
            },
        };
        match &self.peers[i].partner {
            Some(p) => match self.find(p.as_str()) {
                Some(j) => Ok(self.peers[j].connection),
                None => Err(RegistryError::NotPaired),
            },
            None => Err(RegistryError::NotPaired),
        }
    }

    /// Every partner's partner is the identity itself.
    pub proof fn lemma_pairing_symmetric(&self)
        requires
            self.wf(),
        ensures
            forall|x: Seq<char>| #[trigger]
                self.partners().contains_key(x) ==> {
                    &&& self.partners().contains_key(self.partners()[x])
                    &&& self.partners()[self.partners()[x]] == x
                },
    {
    }

    /// Once `x`, paired with `y`, is removed, neither of them has a partner
    /// left: `y` is not left pointing at an identity that is gone.
    pub proof fn lemma_no_dangling_partner(before: &Self, after: &Self, x: Seq<char>, y: Seq<char>)
        requires
            before.wf(),
            before.partners().contains_key(x),
            before.partners()[x] == y,
            after.partners() == Self::without_pair(before.partners(), x),
        ensures
            !after.partners().contains_key(y),
            !after.partners().contains_key(x),
    {
    }
}

} // verus!
