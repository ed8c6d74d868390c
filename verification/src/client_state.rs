//! Mutable per-session state blocks.
//!
//! The global block is synchronized across the cluster, the local block
//! stays on the owning node, and the session block carries the channel
//! and listening state during session setup.  Timestamps are plain tick
//! counts supplied by the embedding program.

use vstd::prelude::*;
use std::collections::HashSet;

verus! {

broadcast use vstd::std_specs::hash::group_hash_axioms;

/// The version and platform a client announced.
#[derive(Debug)]
pub struct UserVersion {
    /// The encoded protocol version.
    pub version: u32,
    /// The client software's name.
    pub client_name: String,
    /// The operating system's name.
    pub os_name: String,
    /// The operating system's version.
    pub os_version: String,
    /// The negotiated voice crypto mode.
    pub crypto_mode: String,
}

/// Session state synchronized across the cluster.
#[derive(Debug)]
pub struct ClientGlobalState {
    user_id: Option<u32>,
    user_version: Option<UserVersion>,
    current_channel_id: u32,
    last_active_ticks: Option<u64>,
    listening_channel_id: HashSet<u32>,
}

impl ClientGlobalState {
    /// The registered-user id, when authenticated as one.
    pub closed spec fn spec_user_id(self) -> Option<u32> {
        self.user_id
    }

    /// The channel the session is in.
    pub closed spec fn spec_current_channel_id(self) -> u32 {
        self.current_channel_id
    }

    /// The channels the session listens into.
    pub closed spec fn spec_listening(self) -> Set<u32> {
        self.listening_channel_id@
    }

    /// A fresh state: unregistered, in the root channel, listening
    /// nowhere.
    pub fn new() -> (r: Self)
        ensures
            r.spec_user_id() is None,
            r.spec_current_channel_id() == 0,
            r.spec_listening() == Set::<u32>::empty(),
    {
        ClientGlobalState {
            user_id: None,
            user_version: None,
            current_channel_id: 0,
            last_active_ticks: None,
            listening_channel_id: HashSet::new(),
        }
    }

    /// The registered-user id, when there is one.
    pub fn get_user_id(&self) -> (r: Option<u32>)
        ensures
            r == self.spec_user_id(),
    {
        self.user_id
    }

    /// Set or clear the registered-user id.
    pub fn set_user_id(&mut self, user_id: Option<u32>)
        ensures
            final(self).spec_user_id() == user_id,
            final(self).spec_current_channel_id() == old(self).spec_current_channel_id(),
            final(self).spec_listening() == old(self).spec_listening(),
    {
        self.user_id = user_id;
    }

    /// Move the session to a channel.
    pub fn set_current_channel_id(&mut self, channel_id: u32)
        ensures
            final(self).spec_current_channel_id() == channel_id,
            final(self).spec_user_id() == old(self).spec_user_id(),
            final(self).spec_listening() == old(self).spec_listening(),
    {
        self.current_channel_id = channel_id;
    }

    /// The channel the session is in.
    pub fn get_current_channel_id(&self) -> (r: u32)
        ensures
            r == self.spec_current_channel_id(),
    {
        self.current_channel_id
    }

    /// The listened channels, shared.
    pub fn get_listening_channel_id(&self) -> (r: &HashSet<u32>)
        ensures
            r@ == self.spec_listening(),
    {
        &self.listening_channel_id
    }

    /// Start listening into a channel.
    pub fn listen_channel(&mut self, channel_id: u32)
        ensures
            final(self).spec_listening() == old(self).spec_listening().insert(channel_id),
            final(self).spec_user_id() == old(self).spec_user_id(),
            final(self).spec_current_channel_id() == old(self).spec_current_channel_id(),
    {
        self.listening_channel_id.insert(channel_id);
    }

    /// Stop listening into a channel.
    pub fn unlisten_channel(&mut self, channel_id: u32)
        ensures
            final(self).spec_listening() == old(self).spec_listening().remove(channel_id),
            final(self).spec_user_id() == old(self).spec_user_id(),
            final(self).spec_current_channel_id() == old(self).spec_current_channel_id(),
    {
        self.listening_channel_id.remove(&channel_id);
    }

    /// Is the session listening into the channel?
    pub fn is_listening_channel(&self, channel_id: u32) -> (r: bool)
        ensures
            r == self.spec_listening().contains(channel_id),
    {
        self.listening_channel_id.contains(&channel_id)
    }
}

/// Session state kept on the owning node only.
#[derive(Debug)]
pub struct ClientLocalState {
    /// The session has completed its initial synchronization.
    pub synced: bool,
    /// The session has authenticated.
    pub authenticated: bool,
    /// Ticks of the last activity, when known.
    pub last_active_ticks: Option<u64>,
}

impl ClientLocalState {
    /// A fresh local state: not synced, not authenticated.
    pub fn new() -> (r: Self)
        ensures
            !r.synced,
            !r.authenticated,
            r.last_active_ticks is None,
    {
        ClientLocalState { synced: false, authenticated: false, last_active_ticks: None }
    }
}

/// Channel and listening state during session setup.
#[derive(Debug)]
pub struct ClientSessionState {
    current_channel_id: u32,
    last_active_ticks: Option<u64>,
    listening_channel_id: HashSet<u32>,
}

impl ClientSessionState {
    /// The channel the session is in.
    pub closed spec fn spec_current_channel_id(self) -> u32 {
        self.current_channel_id
    }

    /// The channels the session listens into.
    pub closed spec fn spec_listening(self) -> Set<u32> {
        self.listening_channel_id@
    }

    /// A fresh state in the given channel, listening nowhere.
    pub fn new(initial_channel_id: u32) -> (r: Self)
        ensures
            r.spec_current_channel_id() == initial_channel_id,
            r.spec_listening() == Set::<u32>::empty(),
    {
        ClientSessionState {
            current_channel_id: initial_channel_id,
            last_active_ticks: None,
            listening_channel_id: HashSet::new(),
        }
    }

    /// Move the session to a channel.
    pub fn set_current_channel_id(&mut self, channel_id: u32)
        ensures
            final(self).spec_current_channel_id() == channel_id,
            final(self).spec_listening() == old(self).spec_listening(),
    {
        self.current_channel_id = channel_id;
    }

    /// The channel the session is in.
    pub fn get_current_channel_id(&self) -> (r: u32)
        ensures
            r == self.spec_current_channel_id(),
    {
        self.current_channel_id
    }

    /// The listened channels, shared.
    pub fn get_listening_channel_id(&self) -> (r: &HashSet<u32>)
        ensures
            r@ == self.spec_listening(),
    {
        &self.listening_channel_id
    }

    /// Start listening into a channel.
    pub fn listen_channel(&mut self, channel_id: u32)
        ensures
            final(self).spec_listening() == old(self).spec_listening().insert(channel_id),
            final(self).spec_current_channel_id() == old(self).spec_current_channel_id(),
    {
        self.listening_channel_id.insert(channel_id);
    }

    /// Stop listening into a channel.
    pub fn unlisten_channel(&mut self, channel_id: u32)
        ensures
            final(self).spec_listening() == old(self).spec_listening().remove(channel_id),
            final(self).spec_current_channel_id() == old(self).spec_current_channel_id(),
    {
        self.listening_channel_id.remove(&channel_id);
    }

    /// Is the session listening into the channel?
    pub fn is_listening_channel(&self, channel_id: u32) -> (r: bool)
        ensures
            r == self.spec_listening().contains(channel_id),
    {
        self.listening_channel_id.contains(&channel_id)
    }
}

} // verus!
