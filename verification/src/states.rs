//! Connection life-cycle states and per-session voice state.

use vstd::prelude::*;
use std::collections::HashSet;

verus! {

/// Where a connection stands in its handshake and life cycle.
#[derive(Debug, Clone, Copy, PartialEq, Eq, Structural, Hash)]
pub enum ConnectionState {
    /// The transport is up, nothing exchanged yet.
    Connected,
    /// The server has sent its version message.
    ServerSentVersion,
    /// The client has sent its version message.
    ClientSentVersion,
    /// Authentication has completed.
    Authenticated,
    /// The session is fully set up.
    Ready,
    /// The connection is being torn down.
    Dead,
}

impl Default for ConnectionState {
    /// A fresh connection starts in `Connected`.
    fn default() -> (r: Self)
        ensures
            r == ConnectionState::Connected,
    {
        ConnectionState::Connected
    }
}

/// The synchronized voice and presence state of one session.
#[derive(Debug)]
pub struct SessionStates {
    /// The channel the session is in.
    pub channel_id: u32,
    /// The user muted themself.
    pub self_mute: bool,
    /// The user deafened themself.
    pub self_deaf: bool,
    /// An administrator muted the user.
    pub mute: bool,
    /// An administrator deafened the user.
    pub deaf: bool,
    /// The server suppresses the user's voice.
    pub suppress: bool,
    /// The user is a priority speaker.
    pub priority_speaker: bool,
    /// The user is recording.
    pub recording: bool,
    /// Opaque positional-audio plugin context.
    pub plugin_context: Vec<u8>,
    /// Opaque positional-audio plugin identity.
    pub plugin_identity: String,
    /// The channels the session listens into.
    pub listening_channel_id: HashSet<u32>,
}

} // verus!
