//! Core session and authorization engine for a multi-node voice/text chat
//! server speaking a Mumble-style wire protocol.
//!
//! The crate covers the pieces with real invariants: the packed session
//! identifier shared across cluster nodes, the client registry that
//! allocates, indexes and releases sessions, the channel tree with its
//! ACL evaluation algorithm, the textual group-match language used by ACL
//! rules, and the length-prefixed message framing.  Transport encryption,
//! payload schemas and the connection event loop are left to the embedding
//! program; the registry and the evaluators here work on plain values.

pub mod acl;
pub mod channels;
pub mod client;
pub mod client_certificate_verifier;
pub mod client_state;
pub mod constants;
pub mod framing;
pub mod group_match;
pub mod net;
pub mod options;
pub mod protocol_version;
pub mod proxy;
pub mod registry;
pub mod session_id;
pub mod states;
pub mod text;
pub mod user_info;
pub mod voice;
pub mod voice_target;
