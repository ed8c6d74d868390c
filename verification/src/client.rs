//! One connected session's record.
//!
//! The registry owns one `Client` per live session.  The record holds
//! plain values only: the authenticated byte stream stays with the
//! embedding program, which hands over the peer's certificate bytes (if
//! any) and the resolved addresses when the handshake completes.

use vstd::prelude::*;
use crate::client_state::{ClientGlobalState, ClientLocalState};
use crate::net::{IpAddress, SocketAddress};
use crate::options::ClientOptions;
use crate::session_id::{ClientSessionIdentifier, spec_pack};
use crate::states::ConnectionState;
use crate::user_info::UserInfo;

verus! {

/// The SHA-1 digest of a byte string.
pub uninterp spec fn sha1_of(bytes: Seq<u8>) -> Seq<u8>;

/// Relies on `aws_lc_rs::digest::digest` with the legacy SHA-1
/// algorithm: the digest depends on the input bytes alone and is twenty
/// bytes long.
#[verifier::external_body]
fn sha1_digest(bytes: &Vec<u8>) -> (r: Vec<u8>)
    ensures
        r@ == sha1_of(bytes@),
        r@.len() == 20,
{
    aws_lc_rs::digest::digest(&aws_lc_rs::digest::SHA1_FOR_LEGACY_USE_ONLY, bytes.as_slice())
        .as_ref()
        .to_vec()
}

/// One connected session.
#[derive(Debug)]
pub struct Client {
    /// The session's cluster-wide identifier.
    pub session_id: ClientSessionIdentifier,
    /// The client's IP address after optional proxy unwrapping.
    pub real_ip_address: IpAddress,
    /// The TCP peer address.
    pub tcp_address: SocketAddress,
    /// The negotiated voice-transport address, when one is known.
    pub udp_address: Option<SocketAddress>,
    /// The local address the connection arrived on.
    pub local_address: SocketAddress,
    /// The SHA-1 fingerprint of the peer certificate, when one was
    /// presented.
    pub certificate_hash: Option<Vec<u8>>,
    /// Registered-user data, once authenticated.
    pub user_info: Option<UserInfo>,
    /// The client's own toggles.
    pub options: ClientOptions,
    /// State synchronized across the cluster.
    pub global_state: ClientGlobalState,
    /// State kept on the owning node; absent for remote sessions.
    pub local_state: Option<ClientLocalState>,
    /// Where the connection stands in its life cycle.
    pub connection_state: ConnectionState,
}

impl Client {
    /// Build the record for a locally connected session.  The
    /// certificate fingerprint is the SHA-1 digest of the presented
    /// peer certificate, when there is one.
    pub fn new_local(
        session_id: ClientSessionIdentifier,
        real_ip_address: IpAddress,
        tcp_address: SocketAddress,
        udp_address: Option<SocketAddress>,
        local_address: SocketAddress,
        peer_certificate: Option<Vec<u8>>,
    ) -> (r: Client)
        ensures
            r.session_id == session_id,
            r.real_ip_address == real_ip_address,
            r.tcp_address == tcp_address,
            r.udp_address == udp_address,
            r.local_address == local_address,
            match peer_certificate {
                Some(der) => r.certificate_hash matches Some(h) && h@ == sha1_of(der@),
                None => r.certificate_hash is None,
            },
            r.user_info is None,
            r.global_state.spec_user_id() is None,
            r.global_state.spec_current_channel_id() == 0,
            r.local_state is Some,
            r.connection_state == ConnectionState::Connected,
    {
        let certificate_hash = match peer_certificate {
            Some(der) => Some(sha1_digest(&der)),
            None => None,
        };
        Client {
            session_id,
            real_ip_address,
            tcp_address,
            udp_address,
            local_address,
            certificate_hash,
            user_info: None,
            options: ClientOptions::new(),
            global_state: ClientGlobalState::new(),
            local_state: Some(ClientLocalState::new()),
            connection_state: ConnectionState::Connected,
        }
    }

    /// Has the session authenticated as a registered user?
    pub fn is_registered(&self) -> (r: bool)
        ensures
            r == (self.global_state.spec_user_id() is Some),
    {
        self.global_state.get_user_id().is_some()
    }

    /// Did the peer present a certificate?
    pub fn has_certificate(&self) -> (r: bool)
        ensures
            r == (self.certificate_hash is Some),
    {
        self.certificate_hash.is_some()
    }

    /// The certificate fingerprint, when one was presented.
    pub fn get_certificate_hash(&self) -> (r: Option<&Vec<u8>>)
        ensures
            match r {
                Some(h) => self.certificate_hash == Some(*h),
                None => self.certificate_hash is None,
            },
    {
        self.certificate_hash.as_ref()
    }

    /// The packed session identifier.
    pub fn get_session_id(&self) -> (r: u32)
        ensures
            r == spec_pack(self.session_id),
    {
        self.session_id.to_u32()
    }

    /// The node that owns the session.
    pub fn get_node_id(&self) -> (r: u16)
        ensures
            r == self.session_id.node_id,
    {
        self.session_id.get_node_id()
    }

    /// The node-scoped part of the session identifier.
    pub fn get_local_session_id(&self) -> (r: u32)
        ensures
            r == self.session_id.local_session_id,
    {
        self.session_id.get_local_session_id()
    }

    /// A copy of the user's groups, when registered-user data is
    /// attached.
    pub fn get_groups_clone(&self) -> (r: Option<Vec<String>>)
        ensures
            match r {
                Some(v) => self.user_info matches Some(info) && v@ == info.spec_groups(),
                None => self.user_info is None,
            },
    {
        match &self.user_info {
            Some(info) => Some(clone_strings(info.get_groups())),
            None => None,
        }
    }

    /// Does the user belong to `group`?  A session without user data
    /// belongs to no group.
    pub fn has_group(&self, group: &str) -> (r: bool)
        ensures
            r == match self.user_info {
                Some(info) => exists|i: int|
                    0 <= i < info.spec_groups().len() && info.spec_groups()[i]@ == group@,
                None => false,
            },
    {
        match &self.user_info {
            Some(info) => info.has_group(group),
            None => false,
        }
    }

    /// A copy of the user's access tokens, when registered-user data is
    /// attached.
    pub fn get_tokens(&self) -> (r: Option<Vec<String>>)
        ensures
            match r {
                Some(v) => self.user_info matches Some(info) && v@ == info.spec_tokens(),
                None => self.user_info is None,
            },
    {
        match &self.user_info {
            Some(info) => Some(clone_strings(info.get_tokens())),
            None => None,
        }
    }

    /// Does the user hold `token`?  A session without user data holds
    /// no token.
    pub fn has_token(&self, token: &str) -> (r: bool)
        ensures
            r == match self.user_info {
                Some(info) => exists|i: int|
                    0 <= i < info.spec_tokens().len() && info.spec_tokens()[i]@ == token@,
                None => false,
            },
    {
        match &self.user_info {
            Some(info) => info.has_token(token),
            None => false,
        }
    }

    /// The channel the session is in.
    pub fn get_current_channel_id(&self) -> (r: u32)
        ensures
            r == self.global_state.spec_current_channel_id(),
    {
        self.global_state.get_current_channel_id()
    }

    /// Move the session to a channel.
    pub fn set_current_channel_id(&mut self, channel_id: u32)
        ensures
            final(self).global_state.spec_current_channel_id() == channel_id,
            final(self).global_state.spec_user_id() == old(self).global_state.spec_user_id(),
            final(self).global_state.spec_listening() == old(self).global_state.spec_listening(),
            final(self).session_id == old(self).session_id,
            final(self).real_ip_address == old(self).real_ip_address,
            final(self).tcp_address == old(self).tcp_address,
            final(self).udp_address == old(self).udp_address,
            final(self).local_address == old(self).local_address,
            final(self).certificate_hash == old(self).certificate_hash,
            final(self).user_info == old(self).user_info,
            final(self).options == old(self).options,
            final(self).local_state == old(self).local_state,
            final(self).connection_state == old(self).connection_state,
    {
        self.global_state.set_current_channel_id(channel_id);
    }

    /// The registered-user id, when authenticated as one.
    pub fn get_user_id(&self) -> (r: Option<u32>)
        ensures
            r == self.global_state.spec_user_id(),
    {
        self.global_state.get_user_id()
    }

    /// Attach registered-user data to the session.
    pub fn set_user_info(&mut self, info: UserInfo)
        ensures
            final(self).user_info == Some(info),
            final(self).session_id == old(self).session_id,
            final(self).real_ip_address == old(self).real_ip_address,
            final(self).tcp_address == old(self).tcp_address,
            final(self).udp_address == old(self).udp_address,
            final(self).local_address == old(self).local_address,
            final(self).certificate_hash == old(self).certificate_hash,
            final(self).options == old(self).options,
            final(self).global_state == old(self).global_state,
            final(self).local_state == old(self).local_state,
            final(self).connection_state == old(self).connection_state,
    {
        self.user_info = Some(info);
    }

    /// The TCP peer address.
    pub fn get_tcp_address(&self) -> (r: SocketAddress)
        ensures
            r == self.tcp_address,
    {
        self.tcp_address
    }

    /// The voice-transport address, when one is registered.
    pub fn get_udp_address(&self) -> (r: Option<SocketAddress>)
        ensures
            r == self.udp_address,
    {
        self.udp_address
    }

    /// Where the connection stands in its life cycle.
    pub fn get_connection_state(&self) -> (r: ConnectionState)
        ensures
            r == self.connection_state,
    {
        self.connection_state
    }

    /// Advance the connection's life cycle.
    pub fn set_connection_state(&mut self, state: ConnectionState)
        ensures
            final(self).connection_state == state,
            final(self).session_id == old(self).session_id,
            final(self).tcp_address == old(self).tcp_address,
            final(self).udp_address == old(self).udp_address,
            final(self).user_info == old(self).user_info,
            final(self).global_state == old(self).global_state,
    {
        self.connection_state = state;
    }
}

/// An element-wise copy of a string vector.
fn clone_strings(v: &Vec<String>) -> (r: Vec<String>)
    ensures
        r@ == v@,
{
    let mut r: Vec<String> = Vec::new();
    let n = v.len();
    let mut i: usize = 0;
    while i < n
        invariant
            0 <= i <= n,
            n == v@.len(),
            r@ == v@.subrange(0, i as int),
        decreases n - i,
    {
        r.push(v[i].clone());
        proof {
            assert(v@.subrange(0, i + 1) =~= v@.subrange(0, i as int).push(v@[i as int]));
        }
        i += 1;
    }
    proof {
        assert(r@ =~= v@);
    }
    r
}

} // verus!
