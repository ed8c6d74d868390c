//! The packed session identifier shared by all cluster nodes.
//!
//! A session identifier is a (node id, local session id) pair packed into a
//! single 32-bit value: the node id occupies the top 12 bits, the per-node
//! local session id the low 20 bits.  Construction validates both fields;
//! decoding a wire-level integer never fails and instead masks off-range
//! bits, because an arbitrary `u32` always denotes *some* syntactically
//! valid identifier.

use vstd::prelude::*;

verus! {

/// Largest valid node id: the field is 12 bits wide.
pub const MAX_NODE_ID: u16 = 0xFFF;

/// Largest valid local session id: the field is 20 bits wide.
pub const MAX_LOCAL_SESSION_ID: u32 = 0xFFFFF;

/// Identifies one connected client across the whole cluster.
#[derive(Debug, Clone, Copy, PartialEq, Eq, Structural, Hash)]
pub struct ClientSessionIdentifier {
    /// 12-bit field (0 ..= 0xFFF).
    pub node_id: u16,
    /// 20-bit field (0 ..= 0xFFFFF).
    pub local_session_id: u32,
}

/// Why a session identifier could not be constructed.
#[derive(Debug, Clone, Copy, PartialEq, Eq, Structural)]
pub enum ClientSessionIdentifierError {
    /// The node id does not fit in 12 bits.
    NodeIdOutOfRange,
    /// The local session id does not fit in 20 bits.
    LocalSessionIdOutOfRange,
}

/// The packed form of an identifier: node id in bits 31..20, local session
/// id in bits 19..0.
pub open spec fn spec_pack(id: ClientSessionIdentifier) -> u32 {
    ((id.node_id as u32) << 20) | (id.local_session_id & MAX_LOCAL_SESSION_ID)
}

/// The identifier denoted by a packed 32-bit value; off-range bits are
/// masked away, so every `u32` denotes an identifier.
pub open spec fn spec_unpack(v: u32) -> ClientSessionIdentifier {
    ClientSessionIdentifier {
        node_id: ((v >> 20) & (MAX_NODE_ID as u32)) as u16,
        local_session_id: v & MAX_LOCAL_SESSION_ID,
    }
}

impl ClientSessionIdentifier {
    /// Both fields fit their bit widths.
    pub open spec fn wf(self) -> bool {
        self.node_id <= MAX_NODE_ID && self.local_session_id <= MAX_LOCAL_SESSION_ID
    }

    /// Create a new identifier, rejecting either part that does not fit its
    /// bit width; the node id is checked first.
    pub fn new(node_id: u16, local_session_id: u32) -> (r: Result<
        Self,
        ClientSessionIdentifierError,
    >)
        ensures
            node_id > MAX_NODE_ID ==> r == Err::<Self, _>(
                ClientSessionIdentifierError::NodeIdOutOfRange,
            ),
            node_id <= MAX_NODE_ID && local_session_id > MAX_LOCAL_SESSION_ID ==> r == Err::<
                Self,
                _,
            >(ClientSessionIdentifierError::LocalSessionIdOutOfRange),
            node_id <= MAX_NODE_ID && local_session_id <= MAX_LOCAL_SESSION_ID ==> r == Ok::<_, ClientSessionIdentifierError>(
                ClientSessionIdentifier { node_id, local_session_id },
            ),
    {
        if node_id > MAX_NODE_ID {
            return Err(ClientSessionIdentifierError::NodeIdOutOfRange);
        }
        if local_session_id > MAX_LOCAL_SESSION_ID {
            return Err(ClientSessionIdentifierError::LocalSessionIdOutOfRange);
        }
        Ok(Self { node_id, local_session_id })
    }

    /// Pack the two parts into a single `u32`.
    /// Layout: `[ node_id (bits 31..20) | local_session_id (bits 19..0) ]`.
    pub fn to_u32(self) -> (r: u32)
        ensures
            r == spec_pack(self),
    {
        ((self.node_id as u32) << 20) | (self.local_session_id & MAX_LOCAL_SESSION_ID)
    }

    /// Unpack a `u32`.  Decoding masks rather than validates: any 32-bit
    /// value maps to some syntactically valid identifier, so this never
    /// fails, unlike [`ClientSessionIdentifier::new`].
    pub fn from_u32(v: u32) -> (r: Self)
        ensures
            r == spec_unpack(v),
            r.wf(),
    {
        proof {
            lemma_unpack_wf(v);
        }
        ClientSessionIdentifier {
            node_id: ((v >> 20) & (MAX_NODE_ID as u32)) as u16,
            local_session_id: v & MAX_LOCAL_SESSION_ID,
        }
    }

    /// The node that owns this session.
    pub fn get_node_id(self) -> (r: u16)
        ensures
            r == self.node_id,
    {
        self.node_id
    }

    /// The node-scoped sequence number of this session.
    pub fn get_local_session_id(self) -> (r: u32)
        ensures
            r == self.local_session_id,
    {
        self.local_session_id
    }
}

/// Any unpacked identifier has both fields within their bit widths.
pub proof fn lemma_unpack_wf(v: u32)
    ensures
        spec_unpack(v).wf(),
{
    assert(((v >> 20) & 0xFFFu32) <= 0xFFFu32) by (bit_vector);
    assert((v & 0xFFFFFu32) <= 0xFFFFFu32) by (bit_vector);
}

/// Packing then unpacking returns the identifier unchanged, for every
/// identifier whose fields fit their bit widths.
pub proof fn lemma_pack_unpack_roundtrip(id: ClientSessionIdentifier)
    requires
        id.wf(),
    ensures
        spec_unpack(spec_pack(id)) == id,
{
    let n = id.node_id;
    let l = id.local_session_id;
    assert((((((n as u32) << 20) | (l & 0xFFFFFu32)) >> 20) & 0xFFFu32) == (n as u32)
        && ((((n as u32) << 20) | (l & 0xFFFFFu32)) & 0xFFFFFu32) == l) by (bit_vector)
        requires
            n <= 0xFFFu16 && l <= 0xFFFFFu32,
    ;
    assert(spec_unpack(spec_pack(id)).node_id == id.node_id);
    assert(spec_unpack(spec_pack(id)).local_session_id == id.local_session_id);
}

/// Two well-formed identifiers that pack to the same value are the same
/// identifier: within the packed space, no two live sessions can collide.
pub proof fn lemma_pack_injective(a: ClientSessionIdentifier, b: ClientSessionIdentifier)
    requires
        a.wf(),
        b.wf(),
        spec_pack(a) == spec_pack(b),
    ensures
        a == b,
{
    lemma_pack_unpack_roundtrip(a);
    lemma_pack_unpack_roundtrip(b);
}

} // verus!
