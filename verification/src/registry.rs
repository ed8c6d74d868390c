//! The client registry: allocation, lookup and release of sessions.
//!
//! The registry keys every live session by its packed identifier.  The
//! two secondary views — host IP to the sessions connected from it, and
//! voice-transport address to the one session it routes to — are read
//! straight off the primary map, so no observer can ever see a session
//! in one view and not the other: the "all-or-nothing publish" of an
//! allocation holds by construction.  Sessions of other cluster nodes
//! appear only through the primary map.  The local node's id space is
//! enumerated by a monotonic counter together with a free set: a
//! released local id enters the free set and is preferred over
//! advancing the counter.
//!
//! One voice address routes to at most one live session; that
//! distinctness is part of the registry's invariant, and an allocation
//! therefore declines to register a voice address that is already
//! routed.

use vstd::prelude::*;
use crate::client::Client;
use crate::net::{IpAddress, SocketAddress};
use crate::user_info::UserInfo;
use crate::session_id::{
    ClientSessionIdentifier,
    MAX_LOCAL_SESSION_ID,
    MAX_NODE_ID,
    lemma_pack_injective,
    spec_pack,
};

verus! {

/// Why a registry operation was refused.
#[derive(Debug, Clone, Copy, PartialEq, Eq, Structural)]
pub enum RegistryError {
    /// The local session-id space is exhausted; the allocation failed
    /// rather than wrapping around.
    CapacityExhausted,
    /// A cluster operation named the local node: registering a remote
    /// client under the local node id, or bulk-clearing the local node.
    ClusterInvariantViolation,
}

/// The first client stored under `k`, if any.
pub open spec fn spec_find_client(s: Seq<(u32, Client)>, k: u32) -> Option<Client>
    decreases s.len(),
{
    if s.len() == 0 {
        None
    } else if s[0].0 == k {
        Some(s[0].1)
    } else {
        spec_find_client(s.drop_first(), k)
    }
}

/// A prefix without the key does not influence the find.
proof fn lemma_find_skip(s: Seq<(u32, Client)>, k: u32, i: int)
    requires
        0 <= i <= s.len(),
        forall|j: int| 0 <= j < i ==> s[j].0 != k,
    ensures
        spec_find_client(s, k) == spec_find_client(s.skip(i), k),
    decreases i,
{
    if i > 0 {
        assert(s.drop_first() =~= s.skip(1));
        lemma_find_skip(s.skip(1), k, i - 1);
        assert(s.skip(1).skip(i - 1) =~= s.skip(i));
    } else {
        assert(s.skip(0) =~= s);
    }
}

/// Finding in a concatenation: the left part wins when it has the key.
proof fn lemma_find_concat(a: Seq<(u32, Client)>, b: Seq<(u32, Client)>, k: u32)
    ensures
        spec_find_client(a + b, k) == (if spec_find_client(a, k) is Some {
            spec_find_client(a, k)
        } else {
            spec_find_client(b, k)
        }),
    decreases a.len(),
{
    if a.len() == 0 {
        assert(a + b =~= b);
    } else {
        assert((a + b)[0] == a[0]);
        assert((a + b).drop_first() =~= a.drop_first() + b);
        lemma_find_concat(a.drop_first(), b, k);
    }
}

/// The find fails exactly when no entry carries the key.
proof fn lemma_find_absent(s: Seq<(u32, Client)>, k: u32)
    ensures
        (spec_find_client(s, k) is None) <==> (forall|i: int| 0 <= i < s.len() ==> s[i].0 != k),
    decreases s.len(),
{
    if s.len() > 0 {
        lemma_find_absent(s.drop_first(), k);
        assert forall|i: int|
            0 <= i < s.len() && (spec_find_client(s, k) is None) implies s[i].0 != k by {
            if i > 0 {
                assert(s.drop_first()[i - 1] == s[i]);
            }
        }
        if forall|i: int| 0 <= i < s.len() ==> s[i].0 != k {
            assert forall|i: int|
                0 <= i < s.drop_first().len() implies s.drop_first()[i].0 != k by {
                assert(s.drop_first()[i] == s[i + 1]);
            }
        }
    }
}

/// With unique keys, the entry at any index is what the find returns
/// for its key.
proof fn lemma_find_at(s: Seq<(u32, Client)>, i: int)
    requires
        0 <= i < s.len(),
        forall|a: int, b: int| 0 <= a < b < s.len() ==> s[a].0 != s[b].0,
    ensures
        spec_find_client(s, s[i].0) == Some(s[i].1),
{
    lemma_find_skip(s, s[i].0, i);
    assert(s.skip(i)[0] == s[i]);
}

/// A successful find names some entry of the sequence.
proof fn lemma_find_present(s: Seq<(u32, Client)>, k: u32)
    ensures
        spec_find_client(s, k) matches Some(c) ==> exists|i: int|
            0 <= i < s.len() && s[i] == (k, c),
    decreases s.len(),
{
    if s.len() > 0 {
        if s[0].0 == k {
            assert(s[0] == (k, s[0].1));
        } else {
            lemma_find_present(s.drop_first(), k);
            match spec_find_client(s, k) {
                Some(c) => {
                    let i = choose|i: int|
                        0 <= i < s.drop_first().len() && s.drop_first()[i] == (k, c);
                    assert(s[i + 1] == (k, c));
                },
                None => {},
            }
        }
    }
}

/// Removing the entry at one index removes its key and nothing else,
/// when keys are unique.
proof fn lemma_find_remove(s: Seq<(u32, Client)>, i: int, k: u32)
    requires
        0 <= i < s.len(),
        forall|a: int, b: int| 0 <= a < b < s.len() ==> s[a].0 != s[b].0,
    ensures
        k == s[i].0 ==> spec_find_client(s.remove(i), k) is None,
        k != s[i].0 ==> spec_find_client(s.remove(i), k) == spec_find_client(s, k),
{
    let lo = s.subrange(0, i);
    let hi = s.subrange(i + 1, s.len() as int);
    assert(s.remove(i) == lo + hi);
    assert(s =~= lo + (seq![s[i]] + hi));
    lemma_find_concat(lo, hi, k);
    lemma_find_concat(lo, seq![s[i]] + hi, k);
    lemma_find_concat(seq![s[i]], hi, k);
    assert(seq![s[i]].drop_first() =~= Seq::<(u32, Client)>::empty());
    assert(spec_find_client(Seq::<(u32, Client)>::empty(), k) is None);
    assert(spec_find_client(seq![s[i]], k) == (if s[i].0 == k {
        Some(s[i].1)
    } else {
        None
    }));
    if k == s[i].0 {
        lemma_find_absent(lo, k);
        lemma_find_absent(hi, k);
        assert forall|j: int| 0 <= j < lo.len() implies lo[j].0 != k by {
            assert(lo[j] == s[j]);
        }
        assert forall|j: int| 0 <= j < hi.len() implies hi[j].0 != k by {
            assert(hi[j] == s[j + i + 1]);
        }
    }
}

/// Pushing a pair changes the find at its key alone, when the key was
/// not present before.
proof fn lemma_find_push(s: Seq<(u32, Client)>, x: (u32, Client), k: u32)
    ensures
        k == x.0 && spec_find_client(s, k) is None ==> spec_find_client(s.push(x), k) == Some(
            x.1,
        ),
        k != x.0 ==> spec_find_client(s.push(x), k) == spec_find_client(s, k),
        k == x.0 && spec_find_client(s, k) is Some ==> spec_find_client(s.push(x), k)
            == spec_find_client(s, k),
{
    assert(s.push(x) =~= s + seq![x]);
    lemma_find_concat(s, seq![x], k);
    assert(seq![x].drop_first() =~= Seq::<(u32, Client)>::empty());
    assert(spec_find_client(Seq::<(u32, Client)>::empty(), k) is None);
    assert(spec_find_client(seq![x], k) == (if x.0 == k {
        Some(x.1)
    } else {
        None
    }));
}

/// Replacing an entry under its own key changes the find at that key
/// alone, when keys are unique.
proof fn lemma_find_update(s: Seq<(u32, Client)>, i: int, x: (u32, Client), k: u32)
    requires
        0 <= i < s.len(),
        x.0 == s[i].0,
        forall|a: int, b: int| 0 <= a < b < s.len() ==> s[a].0 != s[b].0,
    ensures
        k == x.0 ==> spec_find_client(s.update(i, x), k) == Some(x.1),
        k != x.0 ==> spec_find_client(s.update(i, x), k) == spec_find_client(s, k),
{
    let lo = s.subrange(0, i);
    let hi = s.subrange(i + 1, s.len() as int);
    assert(s.update(i, x) =~= lo + (seq![x] + hi));
    assert(s =~= lo + (seq![s[i]] + hi));
    lemma_find_concat(lo, seq![x] + hi, k);
    lemma_find_concat(lo, seq![s[i]] + hi, k);
    lemma_find_concat(seq![x], hi, k);
    lemma_find_concat(seq![s[i]], hi, k);
    assert(seq![x].drop_first() =~= Seq::<(u32, Client)>::empty());
    assert(seq![s[i]].drop_first() =~= Seq::<(u32, Client)>::empty());
    assert(spec_find_client(Seq::<(u32, Client)>::empty(), k) is None);
    assert(spec_find_client(seq![x], k) == (if x.0 == k {
        Some(x.1)
    } else {
        None
    }));
    assert(spec_find_client(seq![s[i]], k) == (if s[i].0 == k {
        Some(s[i].1)
    } else {
        None
    }));
    if k == x.0 {
        lemma_find_absent(lo, k);
        assert forall|j: int| 0 <= j < lo.len() implies lo[j].0 != k by {
            assert(lo[j] == s[j]);
        }
    }
}

/// The concurrent client registry of one server node.
#[derive(Debug)]
pub struct ClientRepository {
    local_node_id: u16,
    clients: Vec<(u32, Client)>,
    allocation_pointer: u32,
    free_ids: Vec<u32>,
}

impl ClientRepository {
    /// The node this registry allocates for.
    pub closed spec fn spec_node_id(self) -> u16 {
        self.local_node_id
    }

    /// The primary map, as a key/value sequence.
    pub closed spec fn clients_seq(self) -> Seq<(u32, Client)> {
        self.clients@
    }

    /// The released local ids awaiting reuse.
    pub closed spec fn free_seq(self) -> Seq<u32> {
        self.free_ids@
    }

    /// The next never-used local id.
    pub closed spec fn spec_counter(self) -> u32 {
        self.allocation_pointer
    }

    /// The client live under a packed identifier, if any.
    pub open spec fn spec_get_client(self, k: u32) -> Option<Client> {
        spec_find_client(self.clients_seq(), k)
    }

    /// The entry at `i` is a live local session.
    pub open spec fn spec_local_at(self, i: int) -> bool {
        self.clients_seq()[i].1.session_id.node_id == self.spec_node_id()
    }

    /// Some live local client registered this voice address.
    pub open spec fn spec_udp_taken(self, a: SocketAddress) -> bool {
        exists|i: int|
            0 <= i < self.clients_seq().len() && (#[trigger] self.clients_seq()[i]).1.session_id.node_id
                == self.spec_node_id() && self.clients_seq()[i].1.udp_address == Some(a)
    }

    /// Two registry values that cannot be told apart: every observable
    /// part agrees.
    pub open spec fn same_state(self, other: ClientRepository) -> bool {
        &&& self.spec_node_id() == other.spec_node_id()
        &&& self.clients_seq() == other.clients_seq()
        &&& self.free_seq() == other.free_seq()
        &&& self.spec_counter() == other.spec_counter()
    }

    /// The registry's invariant.
    pub open spec fn wf(self) -> bool {
        &&& self.spec_node_id() <= MAX_NODE_ID
        // primary map: unique keys, each the packed form of its client's
        // identifier
        &&& (forall|a: int, b: int|
            0 <= a < b < self.clients_seq().len() ==> (#[trigger] self.clients_seq()[a]).0 != (
            #[trigger] self.clients_seq()[b]).0)
        &&& (forall|i: int|
            0 <= i < self.clients_seq().len() ==> (#[trigger] self.clients_seq()[i]).0
                == spec_pack(self.clients_seq()[i].1.session_id)
                && self.clients_seq()[i].1.session_id.wf())
        // the local id space: counter bounded, free ids unique, below
        // the counter, and not live
        &&& self.spec_counter() <= 0x100000
        &&& (forall|i: int|
            0 <= i < self.free_seq().len() ==> #[trigger] self.free_seq()[i]
                < self.spec_counter())
        &&& (forall|a: int, b: int|
            0 <= a < b < self.free_seq().len() ==> #[trigger] self.free_seq()[a]
                != #[trigger] self.free_seq()[b])
        &&& (forall|i: int, j: int|
            0 <= i < self.free_seq().len() && 0 <= j < self.clients_seq().len() ==> !((
            #[trigger] self.clients_seq()[j]).1.session_id.node_id == self.spec_node_id()
                && self.clients_seq()[j].1.session_id.local_session_id
                == #[trigger] self.free_seq()[i]))
        &&& (forall|j: int|
            0 <= j < self.clients_seq().len() && (#[trigger] self.clients_seq()[j]).1.session_id.node_id
                == self.spec_node_id() ==> self.clients_seq()[j].1.session_id.local_session_id
                < self.spec_counter())
        // one voice address routes to at most one live local session
        &&& (forall|a: int, b: int|
            0 <= a < b < self.clients_seq().len() && (#[trigger] self.clients_seq()[a]).1.session_id.node_id
                == self.spec_node_id() && (#[trigger] self.clients_seq()[b]).1.session_id.node_id
                == self.spec_node_id() && self.clients_seq()[a].1.udp_address is Some ==> self.clients_seq()[a].1.udp_address
                != self.clients_seq()[b].1.udp_address)
    }

    /// A fresh registry for one node: empty, with the whole local id
    /// space ahead of the counter.
    pub fn new(local_node_id: u16) -> (r: ClientRepository)
        requires
            local_node_id <= MAX_NODE_ID,
        ensures
            r.wf(),
            r.spec_node_id() == local_node_id,
            r.clients_seq().len() == 0,
            r.free_seq().len() == 0,
            r.spec_counter() == 0,
    {
        ClientRepository {
            local_node_id,
            clients: Vec::new(),
            allocation_pointer: 0,
            free_ids: Vec::new(),
        }
    }

    /// The node this registry allocates for.
    pub fn local_node_id(&self) -> (r: u16)
        ensures
            r == self.spec_node_id(),
    {
        self.local_node_id
    }

    /// Is this voice address already routed to a live local session?
    fn udp_taken(&self, a: &SocketAddress) -> (r: bool)
        ensures
            r == self.spec_udp_taken(*a),
    {
        let n = self.clients.len();
        let mut i: usize = 0;
        while i < n
            invariant
                0 <= i <= n,
                n == self.clients_seq().len(),
                forall|j: int|
                    0 <= j < i ==> !((#[trigger] self.clients_seq()[j]).1.session_id.node_id
                        == self.spec_node_id() && self.clients_seq()[j].1.udp_address == Some(*a)),
            decreases n - i,
        {
            let c = &self.clients[i].1;
            let hit = if c.session_id.node_id == self.local_node_id {
                match &c.udp_address {
                    Some(x) => *x == *a,
                    None => false,
                }
            } else {
                false
            };
            if hit {
                return true;
            }
            i += 1;
        }
        false
    }

    /// The position of a packed identifier in the primary map.
    fn find_client_index(&self, packed: u32) -> (r: Option<usize>)
        ensures
            match r {
                Some(i) => i < self.clients_seq().len() && self.clients_seq()[i as int].0 == packed
                    && spec_find_client(self.clients_seq(), packed) == Some(
                    self.clients_seq()[i as int].1,
                ),
                None => spec_find_client(self.clients_seq(), packed) is None,
            },
    {
        let n = self.clients.len();
        let mut i: usize = 0;
        while i < n
            invariant
                0 <= i <= n,
                n == self.clients_seq().len(),
                forall|j: int| 0 <= j < i ==> self.clients_seq()[j].0 != packed,
            decreases n - i,
        {
            if self.clients[i].0 == packed {
                proof {
                    lemma_find_skip(self.clients_seq(), packed, i as int);
                    assert(self.clients_seq().skip(i as int)[0] == self.clients_seq()[i as int]);
                }
                return Some(i);
            }
            i += 1;
        }
        proof {
            lemma_find_absent(self.clients_seq(), packed);
        }
        None
    }

    /// Allocate a session for a locally connected client.
    ///
    /// The local id is an arbitrary member of the free set when one
    /// exists — the one this registry pops is the most recently
    /// released — and only otherwise the counter's value, advancing it;
    /// the allocation fails with a capacity error, mutating nothing,
    /// exactly when the free set is empty and the 20-bit space is used
    /// up.  On success the returned packed identifier was not live
    /// before, the new client is stored under it with the given
    /// endpoints, and every other session is untouched.  A voice
    /// address already routed to a live session is not registered
    /// again: each address routes to at most one session.
    pub fn allocate_local_client(
        &mut self,
        real_ip_address: IpAddress,
        tcp_address: SocketAddress,
        udp_address: Option<SocketAddress>,
        local_address: SocketAddress,
        peer_certificate: Option<Vec<u8>>,
    ) -> (r: Result<u32, RegistryError>)
        requires
            old(self).wf(),
        ensures
            final(self).wf(),
            final(self).spec_node_id() == old(self).spec_node_id(),
            r is Err <==> old(self).free_seq().len() == 0 && old(self).spec_counter()
                > MAX_LOCAL_SESSION_ID,
            r matches Err(e) ==> e == RegistryError::CapacityExhausted && final(self).same_state(
                *old(self),
            ),
            r matches Ok(id) ==> {
                let sid = ClientSessionIdentifier {
                    node_id: old(self).spec_node_id(),
                    local_session_id: crate::session_id::spec_unpack(id).local_session_id,
                };
                &&& id == spec_pack(sid)
                &&& crate::session_id::spec_unpack(id).node_id == old(self).spec_node_id()
                &&& (old(self).free_seq().len() > 0 ==> sid.local_session_id == old(
                    self,
                ).free_seq().last() && final(self).free_seq() == old(self).free_seq().drop_last()
                    && final(self).spec_counter() == old(self).spec_counter())
                &&& (old(self).free_seq().len() == 0 ==> sid.local_session_id == old(
                    self,
                ).spec_counter() && final(self).spec_counter() == old(self).spec_counter() + 1
                    && final(self).free_seq() == old(self).free_seq())
                &&& old(self).spec_get_client(id) is None
                &&& (final(self).spec_get_client(id) matches Some(c) && c.session_id == sid
                    && c.real_ip_address == real_ip_address && c.tcp_address == tcp_address
                    && c.local_address == local_address && c.udp_address == (match udp_address {
                    Some(a) => if old(self).spec_udp_taken(a) {
                        None
                    } else {
                        Some(a)
                    },
                    None => None,
                }) && (match peer_certificate {
                    Some(der) => c.certificate_hash matches Some(h) && h@
                        == crate::client::sha1_of(der@),
                    None => c.certificate_hash is None,
                }))
                &&& (forall|k: u32|
                    k != id ==> final(self).spec_get_client(k) == old(self).spec_get_client(k))
            },
    {
        let local: u32;
        if self.free_ids.len() > 0 {
            local = match self.free_ids.pop() {
                Some(f) => f,
                None => 0,
            };
        } else {
            if self.allocation_pointer > MAX_LOCAL_SESSION_ID {
                return Err(RegistryError::CapacityExhausted);
            }
            local = self.allocation_pointer;
            self.allocation_pointer = self.allocation_pointer + 1;
        }
        let sid = ClientSessionIdentifier { node_id: self.local_node_id, local_session_id: local };
        proof {
            assert(sid.wf());
        }
        let packed = sid.to_u32();
        proof {
            assert forall|j: int|
                0 <= j < self.clients_seq().len() implies self.clients_seq()[j].0 != packed by {
                if self.clients_seq()[j].0 == packed {
                    lemma_pack_injective(self.clients_seq()[j].1.session_id, sid);
                }
            }
            lemma_find_absent(self.clients_seq(), packed);
        }
        let udp_effective: Option<SocketAddress> = match udp_address {
            Some(a) => {
                if self.udp_taken(&a) {
                    None
                } else {
                    Some(a)
                }
            },
            None => None,
        };
        let client = Client::new_local(
            sid,
            real_ip_address,
            tcp_address,
            udp_effective,
            local_address,
            peer_certificate,
        );
        let ghost old_clients = self.clients_seq();
        self.clients.push((packed, client));
        proof {
            let news = self.clients_seq();
            assert(news.drop_last() =~= old_clients);
            assert forall|k: u32| spec_find_client(news, k) == (if k == packed {
                Some(client)
            } else {
                spec_find_client(old_clients, k)
            }) by {
                lemma_find_push(old_clients, (packed, client), k);
                if k == packed {
                    lemma_find_absent(old_clients, k);
                }
            }
            crate::session_id::lemma_pack_unpack_roundtrip(sid);
            if old(self).free_seq().len() > 0 {
                assert(self.free_seq() =~= old(self).free_seq().drop_last());
            }
        }
        Ok(packed)
    }

    /// Register a session owned by another cluster node.  Refused,
    /// mutating nothing, when the identifier carries the local node id:
    /// remote registration must never shadow local id ownership.  A
    /// session already stored under the identifier is replaced.
    pub fn add_remote_client(&mut self, id: ClientSessionIdentifier, client: Client) -> (r: Result<
        (),
        RegistryError,
    >)
        requires
            old(self).wf(),
            id.wf(),
            client.session_id == id,
        ensures
            final(self).wf(),
            final(self).spec_node_id() == old(self).spec_node_id(),
            r is Err <==> id.node_id == old(self).spec_node_id(),
            r matches Err(e) ==> e == RegistryError::ClusterInvariantViolation && final(self).same_state(*old(self)),
            r is Ok ==> {
                &&& final(self).spec_get_client(spec_pack(id)) == Some(client)
                &&& (forall|k: u32|
                    k != spec_pack(id) ==> final(self).spec_get_client(k) == old(
                        self,
                    ).spec_get_client(k))
                &&& final(self).free_seq() == old(self).free_seq()
                &&& final(self).spec_counter() == old(self).spec_counter()
            },
    {
        if id.get_node_id() == self.local_node_id {
            return Err(RegistryError::ClusterInvariantViolation);
        }
        let packed = id.to_u32();
        let ghost pre_clients = self.clients_seq();
        // drop any session already stored under this identifier
        match self.find_client_index(packed) {
            Some(i) => {
                proof {
                    lemma_find_remove(pre_clients, i as int, packed);
                    pre_clients.remove_ensures(i as int);
                    assert forall|k: u32| k != packed implies spec_find_client(
                        pre_clients.remove(i as int),
                        k,
                    ) == spec_find_client(pre_clients, k) by {
                        lemma_find_remove(pre_clients, i as int, k);
                    }
                }
                let _ = self.clients.remove(i);
                proof {
                    let mids = self.clients_seq();
                    assert forall|a: int, b: int|
                        0 <= a < b < mids.len() implies (#[trigger] mids[a]).0 != (
                    #[trigger] mids[b]).0 by {
                        let a0: int = if a < i {
                            a
                        } else {
                            a + 1
                        };
                        let b0: int = if b < i {
                            b
                        } else {
                            b + 1
                        };
                        assert(mids[a] == pre_clients[a0] && mids[b] == pre_clients[b0]);
                    }
                    assert forall|j: int| 0 <= j < mids.len() implies (#[trigger] mids[j]).0
                        == spec_pack(mids[j].1.session_id) && mids[j].1.session_id.wf() by {
                        let j0: int = if j < i {
                            j
                        } else {
                            j + 1
                        };
                        assert(mids[j] == pre_clients[j0]);
                    }
                    assert forall|x: int, j: int|
                        0 <= x < self.free_seq().len() && 0 <= j < mids.len() implies !((
                    #[trigger] mids[j]).1.session_id.node_id == self.spec_node_id()
                        && mids[j].1.session_id.local_session_id
                        == #[trigger] self.free_seq()[x]) by {
                        let j0: int = if j < i {
                            j
                        } else {
                            j + 1
                        };
                        assert(mids[j] == pre_clients[j0]);
                        assert(old(self).free_seq()[x] == self.free_seq()[x]);
                        assert(old(self).clients_seq()[j0] == pre_clients[j0]);
                    }
                    assert forall|j: int|
                        0 <= j < mids.len() && (#[trigger] mids[j]).1.session_id.node_id
                            == self.spec_node_id() implies mids[j].1.session_id.local_session_id
                        < self.spec_counter() by {
                        let j0: int = if j < i {
                            j
                        } else {
                            j + 1
                        };
                        assert(mids[j] == pre_clients[j0]);
                    }
                    assert forall|a: int, b: int|
                        0 <= a < b < mids.len() && (#[trigger] mids[a]).1.session_id.node_id
                            == self.spec_node_id() && (#[trigger] mids[b]).1.session_id.node_id
                            == self.spec_node_id() && mids[a].1.udp_address
                            is Some implies mids[a].1.udp_address != mids[b].1.udp_address by {
                        let a0: int = if a < i {
                            a
                        } else {
                            a + 1
                        };
                        let b0: int = if b < i {
                            b
                        } else {
                            b + 1
                        };
                        assert(mids[a] == pre_clients[a0] && mids[b] == pre_clients[b0]);
                    }
                }
            },
            None => {},
        }
        let ghost mid_clients = self.clients_seq();
        proof {
            lemma_find_absent(mid_clients, packed);
        }
        self.clients.push((packed, client));
        proof {
            let news = self.clients_seq();
            assert(news.drop_last() =~= mid_clients);
            assert forall|k: u32| spec_find_client(news, k) == (if k == packed {
                Some(client)
            } else {
                spec_find_client(mid_clients, k)
            }) by {
                lemma_find_push(mid_clients, (packed, client), k);
            }
        }
        Ok(())
    }

    /// Release a session.  A local session returns its local id to the
    /// free set; a remote one only leaves the map.  Nothing happens
    /// when the identifier is not live.
    pub fn remove_client(&mut self, id: ClientSessionIdentifier) -> (r: Option<Client>)
        requires
            old(self).wf(),
        ensures
            final(self).wf(),
            final(self).spec_node_id() == old(self).spec_node_id(),
            final(self).spec_counter() == old(self).spec_counter(),
            match r {
                None => final(self).same_state(*old(self)) && old(self).spec_get_client(
                    spec_pack(id),
                ) is None,
                Some(c) => {
                    &&& old(self).spec_get_client(spec_pack(id)) == Some(c)
                    &&& final(self).spec_get_client(spec_pack(id)) is None
                    &&& (forall|k: u32|
                        k != spec_pack(id) ==> final(self).spec_get_client(k) == old(
                            self,
                        ).spec_get_client(k))
                    &&& (c.session_id.node_id == old(self).spec_node_id() ==> final(self).free_seq() == old(self).free_seq().push(c.session_id.local_session_id))
                    &&& (c.session_id.node_id != old(self).spec_node_id() ==> final(self).free_seq() == old(self).free_seq())
                },
            },
    {
        let packed = id.to_u32();
        let idx = match self.find_client_index(packed) {
            Some(i) => i,
            None => {
                return None;
            },
        };
        let ghost pre_clients = self.clients_seq();
        let (key, client) = self.clients.remove(idx);
        proof {
            pre_clients.remove_ensures(idx as int);
            lemma_find_remove(pre_clients, idx as int, packed);
            assert forall|k: u32| k != packed implies spec_find_client(self.clients_seq(), k)
                == spec_find_client(pre_clients, k) by {
                lemma_find_remove(pre_clients, idx as int, k);
            }
            assert(client == pre_clients[idx as int].1);
            let news = self.clients_seq();
            assert forall|a: int, b: int|
                0 <= a < b < news.len() implies (#[trigger] news[a]).0 != (
            #[trigger] news[b]).0 by {
                let a0: int = if a < idx {
                    a
                } else {
                    a + 1
                };
                let b0: int = if b < idx {
                    b
                } else {
                    b + 1
                };
                assert(news[a] == pre_clients[a0] && news[b] == pre_clients[b0]);
            }
            assert forall|j: int| 0 <= j < news.len() implies (#[trigger] news[j]).0 == spec_pack(
                news[j].1.session_id,
            ) && news[j].1.session_id.wf() && news[j].1.session_id.local_session_id < (if news[j].1.session_id.node_id
                == self.spec_node_id() {
                self.spec_counter() as int
            } else {
                0x100000000
            }) by {
                let j0: int = if j < idx {
                    j
                } else {
                    j + 1
                };
                assert(news[j] == pre_clients[j0]);
            }
            assert forall|a: int, b: int|
                0 <= a < b < news.len() && (#[trigger] news[a]).1.session_id.node_id
                    == self.spec_node_id() && (#[trigger] news[b]).1.session_id.node_id
                    == self.spec_node_id() && news[a].1.udp_address
                    is Some implies news[a].1.udp_address != news[b].1.udp_address by {
                let a0: int = if a < idx {
                    a
                } else {
                    a + 1
                };
                let b0: int = if b < idx {
                    b
                } else {
                    b + 1
                };
                assert(news[a] == pre_clients[a0] && news[b] == pre_clients[b0]);
            }
        }
        let is_local = client.get_node_id() == self.local_node_id;
        if is_local {
            proof {
                let news = self.clients_seq();
                // the freed id is not live: a client with the same
                // local id would have carried the removed key
                assert forall|j: int|
                    0 <= j < news.len() implies !((#[trigger] news[j]).1.session_id.node_id
                    == self.spec_node_id() && news[j].1.session_id.local_session_id
                    == client.session_id.local_session_id) by {
                    if news[j].1.session_id.node_id == self.spec_node_id()
                        && news[j].1.session_id.local_session_id
                        == client.session_id.local_session_id {
                        lemma_pack_injective(news[j].1.session_id, client.session_id);
                        let j0: int = if j < idx {
                            j
                        } else {
                            j + 1
                        };
                        assert(news[j] == pre_clients[j0]);
                    }
                }
                // and it is not already free, since it was live
                assert forall|x: int|
                    0 <= x < self.free_seq().len() implies #[trigger] self.free_seq()[x]
                    != client.session_id.local_session_id by {
                    assert(old(self).free_seq()[x] == self.free_seq()[x]);
                    assert(old(self).clients_seq()[idx as int] == pre_clients[idx as int]);
                    assert(!(pre_clients[idx as int].1.session_id.node_id == self.spec_node_id()
                        && pre_clients[idx as int].1.session_id.local_session_id
                        == self.free_seq()[x]));
                }
            }
            self.free_ids.push(client.get_local_session_id());
            proof {
                assert forall|x: int, j: int|
                    0 <= x < self.free_seq().len() && 0 <= j < self.clients_seq().len() implies !((
                #[trigger] self.clients_seq()[j]).1.session_id.node_id == self.spec_node_id()
                    && self.clients_seq()[j].1.session_id.local_session_id
                    == #[trigger] self.free_seq()[x]) by {
                    if x < self.free_seq().len() - 1 {
                        let j0: int = if j < idx {
                            j
                        } else {
                            j + 1
                        };
                        assert(self.clients_seq()[j] == pre_clients[j0]);
                        assert(old(self).clients_seq()[j0] == pre_clients[j0]);
                        assert(old(self).free_seq()[x] == self.free_seq()[x]);
                    }
                }
            }
        } else {
            proof {
                assert forall|x: int, j: int|
                    0 <= x < self.free_seq().len() && 0 <= j < self.clients_seq().len() implies !((
                #[trigger] self.clients_seq()[j]).1.session_id.node_id == self.spec_node_id()
                    && self.clients_seq()[j].1.session_id.local_session_id
                    == #[trigger] self.free_seq()[x]) by {
                    let j0: int = if j < idx {
                        j
                    } else {
                        j + 1
                    };
                    assert(self.clients_seq()[j] == pre_clients[j0]);
                    assert(old(self).clients_seq()[j0] == pre_clients[j0]);
                    assert(old(self).free_seq()[x] == self.free_seq()[x]);
                }
            }
        }
        Some(client)
    }

    /// Bulk-remove every session owned by one cluster node, when a peer
    /// is declared departed.  Refused, mutating nothing, when the node
    /// named is the local one: a node never mass-evicts its own
    /// sessions through this path.  No local id is recycled: the
    /// departed sessions were never in the local id space.
    pub fn clear_clients_from_node(&mut self, node_id: u16) -> (r: Result<(), RegistryError>)
        requires
            old(self).wf(),
        ensures
            final(self).wf(),
            final(self).spec_node_id() == old(self).spec_node_id(),
            r is Err <==> node_id == old(self).spec_node_id(),
            r matches Err(e) ==> e == RegistryError::ClusterInvariantViolation && final(self).same_state(*old(self)),
            r is Ok ==> {
                &&& final(self).free_seq() == old(self).free_seq()
                &&& final(self).spec_counter() == old(self).spec_counter()
                &&& (forall|k: u32|
                    #[trigger] final(self).spec_get_client(k) == (
                    match old(self).spec_get_client(k) {
                        Some(c) => if c.session_id.node_id == node_id {
                            None::<Client>
                        } else {
                            Some(c)
                        },
                        None => None::<Client>,
                    }))
            },
    {
        if node_id == self.local_node_id {
            return Err(RegistryError::ClusterInvariantViolation);
        }
        let ghost before = *self;
        let mut i: usize = 0;
        while i < self.clients.len()
            invariant
                self.wf(),
                0 <= i <= self.clients_seq().len(),
                self.spec_node_id() == before.spec_node_id(),
                self.spec_counter() == before.spec_counter(),
                self.free_seq() == before.free_seq(),
                node_id != before.spec_node_id(),
                before.wf(),
                forall|j: int|
                    0 <= j < i ==> (#[trigger] self.clients_seq()[j]).1.session_id.node_id
                        != node_id,
                forall|k: u32|
                    #[trigger] self.spec_get_client(k) == before.spec_get_client(k) || (
                    self.spec_get_client(k) is None && (match before.spec_get_client(k) {
                        Some(c) => c.session_id.node_id == node_id,
                        None => false,
                    })),
            decreases self.clients_seq().len() - i,
        {
            let matches_node = self.clients[i].1.session_id.node_id == node_id;
            if matches_node {
                let ghost pre_clients = self.clients_seq();
                let ghost removed_key = pre_clients[i as int].0;
                proof {
                    lemma_find_at(pre_clients, i as int);
                    pre_clients.remove_ensures(i as int);
                    lemma_find_remove(pre_clients, i as int, removed_key);
                    // restate the running relation over the snapshot, so
                    // it survives the removal below
                    assert forall|k: u32| #![trigger spec_find_client(pre_clients, k)]
                        spec_find_client(pre_clients, k) == before.spec_get_client(k) || (
                        spec_find_client(pre_clients, k) is None && (
                        match before.spec_get_client(k) {
                            Some(c) => c.session_id.node_id == node_id,
                            None => false,
                        })) by {
                        assert(self.spec_get_client(k) == spec_find_client(pre_clients, k));
                    }
                }
                let _ = self.clients.remove(i);
                proof {
                    let news = self.clients_seq();
                    assert forall|k: u32| k != removed_key implies spec_find_client(news, k)
                        == spec_find_client(pre_clients, k) by {
                        lemma_find_remove(pre_clients, i as int, k);
                    }
                    assert forall|a: int, b: int|
                        0 <= a < b < news.len() implies (#[trigger] news[a]).0 != (
                    #[trigger] news[b]).0 by {
                        let a0: int = if a < i {
                            a
                        } else {
                            a + 1
                        };
                        let b0: int = if b < i {
                            b
                        } else {
                            b + 1
                        };
                        assert(news[a] == pre_clients[a0] && news[b] == pre_clients[b0]);
                    }
                    assert forall|j: int| 0 <= j < news.len() implies (#[trigger] news[j]).0
                        == spec_pack(news[j].1.session_id) && news[j].1.session_id.wf() && (
                    news[j].1.session_id.node_id == self.spec_node_id()
                        ==> news[j].1.session_id.local_session_id < self.spec_counter()) by {
                        let j0: int = if j < i {
                            j
                        } else {
                            j + 1
                        };
                        assert(news[j] == pre_clients[j0]);
                    }
                    assert forall|x: int, j: int|
                        0 <= x < self.free_seq().len() && 0 <= j < news.len() implies !((
                    #[trigger] news[j]).1.session_id.node_id == self.spec_node_id()
                        && news[j].1.session_id.local_session_id
                        == #[trigger] self.free_seq()[x]) by {
                        let j0: int = if j < i {
                            j
                        } else {
                            j + 1
                        };
                        assert(news[j] == pre_clients[j0]);
                    }
                    assert forall|a: int, b: int|
                        0 <= a < b < news.len() && (#[trigger] news[a]).1.session_id.node_id
                            == self.spec_node_id() && (#[trigger] news[b]).1.session_id.node_id
                            == self.spec_node_id() && news[a].1.udp_address
                            is Some implies news[a].1.udp_address != news[b].1.udp_address by {
                        let a0: int = if a < i {
                            a
                        } else {
                            a + 1
                        };
                        let b0: int = if b < i {
                            b
                        } else {
                            b + 1
                        };
                        assert(news[a] == pre_clients[a0] && news[b] == pre_clients[b0]);
                    }
                    assert forall|j: int|
                        0 <= j < i implies (#[trigger] news[j]).1.session_id.node_id
                        != node_id by {
                        assert(news[j] == pre_clients[j]);
                    }
                    // the pointwise relation to the starting state
                    assert forall|k: u32|
                        #[trigger] spec_find_client(news, k) == before.spec_get_client(k) || (
                        spec_find_client(news, k) is None && (match before.spec_get_client(k) {
                            Some(c) => c.session_id.node_id == node_id,
                            None => false,
                        })) by {
                        if k == removed_key {
                            assert(spec_find_client(pre_clients, k) == Some(
                                pre_clients[i as int].1,
                            ));
                        }
                    }
                }
            } else {
                i += 1;
            }
        }
        proof {
            assert forall|k: u32|
                #[trigger] self.spec_get_client(k) == (match before.spec_get_client(k) {
                    Some(c) => if c.session_id.node_id == node_id {
                        None::<Client>
                    } else {
                        Some(c)
                    },
                    None => None::<Client>,
                }) by {
                match before.spec_get_client(k) {
                    Some(c) => {
                        if c.session_id.node_id == node_id {
                            // a surviving entry for this key would be a
                            // departed-node session past the clean prefix
                            match self.spec_get_client(k) {
                                Some(c2) => {
                                    lemma_find_present(self.clients_seq(), k);
                                    let j = choose|j: int|
                                        0 <= j < self.clients_seq().len()
                                            && self.clients_seq()[j] == (k, c2);
                                    assert(self.clients_seq()[j].1.session_id.node_id != node_id);
                                    assert(c2 == c);
                                },
                                None => {},
                            }
                        }
                    },
                    None => {},
                }
            }
        }
        Ok(())
    }


    /// Move a live session to a channel.  Nothing happens when the
    /// identifier is not live; every other part of the session and
    /// every other session stay as they were.
    pub fn set_client_channel(&mut self, id: ClientSessionIdentifier, channel_id: u32) -> (r:
        bool)
        requires
            old(self).wf(),
        ensures
            final(self).wf(),
            final(self).spec_node_id() == old(self).spec_node_id(),
            final(self).free_seq() == old(self).free_seq(),
            final(self).spec_counter() == old(self).spec_counter(),
            r == (old(self).spec_get_client(spec_pack(id)) is Some),
            !r ==> final(self).same_state(*old(self)),
            r ==> (match old(self).spec_get_client(spec_pack(id)) {
                Some(c) => final(self).spec_get_client(spec_pack(id)) matches Some(c2)
                    && c2.global_state.spec_current_channel_id() == channel_id
                    && c2.global_state.spec_user_id() == c.global_state.spec_user_id()
                    && c2.global_state.spec_listening() == c.global_state.spec_listening()
                    && c2.session_id == c.session_id && c2.real_ip_address == c.real_ip_address
                    && c2.tcp_address == c.tcp_address && c2.udp_address == c.udp_address
                    && c2.certificate_hash == c.certificate_hash && c2.user_info == c.user_info
                    && c2.connection_state == c.connection_state,
                None => false,
            }),
            forall|k: u32|
                k != spec_pack(id) ==> final(self).spec_get_client(k) == old(self).spec_get_client(
                    k,
                ),
    {
        let packed = id.to_u32();
        let idx = match self.find_client_index(packed) {
            Some(i) => i,
            None => {
                return false;
            },
        };
        let ghost pre_clients = self.clients_seq();
        let entry = &mut self.clients[idx];
        entry.1.set_current_channel_id(channel_id);
        proof {
            let news = self.clients_seq();
            assert(news == pre_clients.update(idx as int, news[idx as int]));
            assert(news[idx as int].0 == packed);
            assert forall|k: u32| spec_find_client(news, k) == (if k == packed {
                Some(news[idx as int].1)
            } else {
                spec_find_client(pre_clients, k)
            }) by {
                lemma_find_update(pre_clients, idx as int, news[idx as int], k);
            }
            assert forall|a: int, b: int|
                0 <= a < b < news.len() implies (#[trigger] news[a]).0 != (
            #[trigger] news[b]).0 by {
                assert(news[a].0 == pre_clients[a].0 && news[b].0 == pre_clients[b].0);
            }
            assert(self.free_seq() == old(self).free_seq());
            assert forall|x: int|
                0 <= x < self.free_seq().len() implies #[trigger] self.free_seq()[x]
                < self.spec_counter() by {
                assert(old(self).free_seq()[x] == self.free_seq()[x]);
            }
            assert forall|a: int, b: int|
                0 <= a < b < self.free_seq().len() implies #[trigger] self.free_seq()[a]
                != #[trigger] self.free_seq()[b] by {
                assert(old(self).free_seq()[a] == self.free_seq()[a]);
                assert(old(self).free_seq()[b] == self.free_seq()[b]);
            }
            assert forall|x: int, j: int|
                0 <= x < self.free_seq().len() && 0 <= j < news.len() implies !((
            #[trigger] news[j]).1.session_id.node_id == self.spec_node_id()
                && news[j].1.session_id.local_session_id == #[trigger] self.free_seq()[x]) by {
                assert(news[j].1.session_id == pre_clients[j].1.session_id);
                assert(old(self).clients_seq()[j] == pre_clients[j]);
                assert(old(self).free_seq()[x] == self.free_seq()[x]);
            }
            assert forall|j: int| 0 <= j < news.len() implies (#[trigger] news[j]).0 == spec_pack(
                news[j].1.session_id,
            ) && news[j].1.session_id.wf() by {
                assert(news[j].1.session_id == pre_clients[j].1.session_id);
                assert(news[j].0 == pre_clients[j].0);
            }
            assert forall|j: int|
                0 <= j < news.len() && (#[trigger] news[j]).1.session_id.node_id
                    == self.spec_node_id() implies news[j].1.session_id.local_session_id
                < self.spec_counter() by {
                assert(news[j].1.session_id == pre_clients[j].1.session_id);
            }
            assert forall|a: int, b: int|
                0 <= a < b < news.len() && (#[trigger] news[a]).1.session_id.node_id
                    == self.spec_node_id() && (#[trigger] news[b]).1.session_id.node_id
                    == self.spec_node_id() && news[a].1.udp_address
                    is Some implies news[a].1.udp_address != news[b].1.udp_address by {
                assert(news[a].1.session_id == pre_clients[a].1.session_id);
                assert(news[b].1.session_id == pre_clients[b].1.session_id);
                assert(news[a].1.udp_address == pre_clients[a].1.udp_address);
                assert(news[b].1.udp_address == pre_clients[b].1.udp_address);
            }
        }
        true
    }

    /// Attach registered-user data to a live session, once it has
    /// authenticated.  Nothing happens when the identifier is not
    /// live; every other part of the session and every other session
    /// stay as they were.
    pub fn set_client_user_info(&mut self, id: ClientSessionIdentifier, info: UserInfo) -> (r:
        bool)
        requires
            old(self).wf(),
        ensures
            final(self).wf(),
            final(self).spec_node_id() == old(self).spec_node_id(),
            final(self).free_seq() == old(self).free_seq(),
            final(self).spec_counter() == old(self).spec_counter(),
            r == (old(self).spec_get_client(spec_pack(id)) is Some),
            !r ==> final(self).same_state(*old(self)),
            r ==> (match old(self).spec_get_client(spec_pack(id)) {
                Some(c) => final(self).spec_get_client(spec_pack(id)) matches Some(c2)
                    && c2.user_info == Some(info) && c2.global_state == c.global_state
                    && c2.session_id == c.session_id && c2.real_ip_address == c.real_ip_address
                    && c2.tcp_address == c.tcp_address && c2.udp_address == c.udp_address
                    && c2.certificate_hash == c.certificate_hash && c2.connection_state
                    == c.connection_state,
                None => false,
            }),
            forall|k: u32|
                k != spec_pack(id) ==> final(self).spec_get_client(k) == old(self).spec_get_client(
                    k,
                ),
    {
        let packed = id.to_u32();
        let idx = match self.find_client_index(packed) {
            Some(i) => i,
            None => {
                return false;
            },
        };
        let ghost pre_clients = self.clients_seq();
        let entry = &mut self.clients[idx];
        entry.1.set_user_info(info);
        proof {
            let news = self.clients_seq();
            assert(news == pre_clients.update(idx as int, news[idx as int]));
            assert(news[idx as int].0 == packed);
            assert forall|k: u32| spec_find_client(news, k) == (if k == packed {
                Some(news[idx as int].1)
            } else {
                spec_find_client(pre_clients, k)
            }) by {
                lemma_find_update(pre_clients, idx as int, news[idx as int], k);
            }
            assert forall|a: int, b: int|
                0 <= a < b < news.len() implies (#[trigger] news[a]).0 != (
            #[trigger] news[b]).0 by {
                assert(news[a].0 == pre_clients[a].0 && news[b].0 == pre_clients[b].0);
            }
            assert(self.free_seq() == old(self).free_seq());
            assert forall|x: int|
                0 <= x < self.free_seq().len() implies #[trigger] self.free_seq()[x]
                < self.spec_counter() by {
                assert(old(self).free_seq()[x] == self.free_seq()[x]);
            }
            assert forall|a: int, b: int|
                0 <= a < b < self.free_seq().len() implies #[trigger] self.free_seq()[a]
                != #[trigger] self.free_seq()[b] by {
                assert(old(self).free_seq()[a] == self.free_seq()[a]);
                assert(old(self).free_seq()[b] == self.free_seq()[b]);
            }
            assert forall|x: int, j: int|
                0 <= x < self.free_seq().len() && 0 <= j < news.len() implies !((
            #[trigger] news[j]).1.session_id.node_id == self.spec_node_id()
                && news[j].1.session_id.local_session_id == #[trigger] self.free_seq()[x]) by {
                assert(news[j].1.session_id == pre_clients[j].1.session_id);
                assert(old(self).clients_seq()[j] == pre_clients[j]);
                assert(old(self).free_seq()[x] == self.free_seq()[x]);
            }
            assert forall|j: int| 0 <= j < news.len() implies (#[trigger] news[j]).0 == spec_pack(
                news[j].1.session_id,
            ) && news[j].1.session_id.wf() by {
                assert(news[j].1.session_id == pre_clients[j].1.session_id);
                assert(news[j].0 == pre_clients[j].0);
            }
            assert forall|j: int|
                0 <= j < news.len() && (#[trigger] news[j]).1.session_id.node_id
                    == self.spec_node_id() implies news[j].1.session_id.local_session_id
                < self.spec_counter() by {
                assert(news[j].1.session_id == pre_clients[j].1.session_id);
            }
            assert forall|a: int, b: int|
                0 <= a < b < news.len() && (#[trigger] news[a]).1.session_id.node_id
                    == self.spec_node_id() && (#[trigger] news[b]).1.session_id.node_id
                    == self.spec_node_id() && news[a].1.udp_address
                    is Some implies news[a].1.udp_address != news[b].1.udp_address by {
                assert(news[a].1.session_id == pre_clients[a].1.session_id);
                assert(news[b].1.session_id == pre_clients[b].1.session_id);
                assert(news[a].1.udp_address == pre_clients[a].1.udp_address);
                assert(news[b].1.udp_address == pre_clients[b].1.udp_address);
            }
        }
        true
    }

    /// Point lookup of a live session.
    pub fn get_client(&self, id: ClientSessionIdentifier) -> (r: Option<&Client>)
        ensures
            match r {
                Some(c) => self.spec_get_client(spec_pack(id)) == Some(*c),
                None => self.spec_get_client(spec_pack(id)) is None,
            },
    {
        let packed = id.to_u32();
        match self.find_client_index(packed) {
            Some(i) => Some(&self.clients[i].1),
            None => None,
        }
    }

    /// The session a voice datagram from this address routes to, if
    /// any: the one live local session that registered the address.
    pub fn get_client_id_by_udp(&self, address: &SocketAddress) -> (r: Option<u32>)
        requires
            self.wf(),
        ensures
            match r {
                Some(k) => self.spec_get_client(k) matches Some(c) && c.session_id.node_id
                    == self.spec_node_id() && c.udp_address == Some(*address),
                None => !self.spec_udp_taken(*address),
            },
    {
        let n = self.clients.len();
        let mut i: usize = 0;
        while i < n
            invariant
                0 <= i <= n,
                n == self.clients_seq().len(),
                self.wf(),
                forall|j: int|
                    0 <= j < i ==> !((#[trigger] self.clients_seq()[j]).1.session_id.node_id
                        == self.spec_node_id() && self.clients_seq()[j].1.udp_address == Some(
                        *address,
                    )),
            decreases n - i,
        {
            let c = &self.clients[i].1;
            let hit = if c.session_id.node_id == self.local_node_id {
                match &c.udp_address {
                    Some(x) => *x == *address,
                    None => false,
                }
            } else {
                false
            };
            if hit {
                proof {
                    lemma_find_at(self.clients_seq(), i as int);
                }
                return Some(self.clients[i].0);
            }
            i += 1;
        }
        None
    }

    /// The packed identifiers of every live local session connected
    /// from this host, in allocation order.
    pub fn session_ids_for_host(&self, host: &IpAddress) -> (r: Vec<u32>)
        requires
            self.wf(),
        ensures
            r@ == spec_host_sessions(self.clients_seq(), self.spec_node_id(), *host),
    {
        let mut out: Vec<u32> = Vec::new();
        let n = self.clients.len();
        let mut i: usize = 0;
        proof {
            assert(self.clients_seq().take(0) =~= Seq::<(u32, Client)>::empty());
        }
        while i < n
            invariant
                0 <= i <= n,
                n == self.clients_seq().len(),
                out@ == spec_host_sessions(
                    self.clients_seq().take(i as int),
                    self.spec_node_id(),
                    *host,
                ),
            decreases n - i,
        {
            let c = &self.clients[i].1;
            let hit = c.session_id.node_id == self.local_node_id && match &c.real_ip_address {
                _ => c.tcp_address.ip == *host,
            };
            proof {
                assert(self.clients_seq().take(i + 1).drop_last() =~= self.clients_seq().take(
                    i as int,
                ));
                assert(self.clients_seq().take(i + 1).last() == self.clients_seq()[i as int]);
            }
            if hit {
                out.push(self.clients[i].0);
            }
            i += 1;
        }
        proof {
            assert(self.clients_seq().take(n as int) =~= self.clients_seq());
        }
        out
    }
}

/// No two live sessions of a well-formed registry share a packed id or
/// a session identifier, whatever order allocations and removals
/// interleaved in: an allocation hands out an id that was not live, and
/// every operation keeps the registry well formed.
pub proof fn lemma_live_sessions_distinct(repo: ClientRepository, i: int, j: int)
    requires
        repo.wf(),
        0 <= i < j < repo.clients_seq().len(),
    ensures
        repo.clients_seq()[i].0 != repo.clients_seq()[j].0,
        repo.clients_seq()[i].1.session_id != repo.clients_seq()[j].1.session_id,
{
    assert(repo.clients_seq()[i].0 == spec_pack(repo.clients_seq()[i].1.session_id));
    assert(repo.clients_seq()[j].0 == spec_pack(repo.clients_seq()[j].1.session_id));
}

/// The keys of the live local sessions connected from `host`, in map
/// order.
pub open spec fn spec_host_sessions(s: Seq<(u32, Client)>, node: u16, host: IpAddress) -> Seq<u32>
    decreases s.len(),
{
    if s.len() == 0 {
        Seq::empty()
    } else if s.last().1.session_id.node_id == node && s.last().1.tcp_address.ip == host {
        spec_host_sessions(s.drop_last(), node, host).push(s.last().0)
    } else {
        spec_host_sessions(s.drop_last(), node, host)
    }
}

} // verus!
