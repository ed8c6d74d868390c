//! Voice-target routing rules: the recipients of a shouted transmission.

use vstd::prelude::*;

verus! {

/// One channel entry of a voice target.
#[derive(Debug)]
pub struct VoiceTargetChannel {
    /// The channel shouted into.
    pub id: u32,
    /// Include the channel's sub-channels.
    pub sub_channels: bool,
    /// Include the channel's linked channels.
    pub links: bool,
    /// Restrict recipients to this group, when non-empty.
    pub only_group: String,
}

/// A voice target: a set of sessions and channels to route a
/// transmission to.
#[derive(Debug)]
pub struct VoiceTarget {
    sessions: Vec<u32>,
    channels: Vec<VoiceTargetChannel>,
}

impl VoiceTarget {
    /// The targeted sessions, in addition order.
    pub closed spec fn spec_sessions(self) -> Seq<u32> {
        self.sessions@
    }

    /// The targeted channels, in addition order.
    pub closed spec fn spec_channels(self) -> Seq<VoiceTargetChannel> {
        self.channels@
    }

    /// An empty target.
    pub fn new() -> (r: Self)
        ensures
            r.spec_sessions() == Seq::<u32>::empty(),
            r.spec_channels() == Seq::<VoiceTargetChannel>::empty(),
    {
        VoiceTarget { sessions: Vec::new(), channels: Vec::new() }
    }

    /// Add one session to the target.
    pub fn add_session(&mut self, session: u32)
        ensures
            final(self).spec_sessions() == old(self).spec_sessions().push(session),
            final(self).spec_channels() == old(self).spec_channels(),
    {
        self.sessions.push(session);
    }

    /// Add one channel entry to the target.
    pub fn add_channel(&mut self, channel: VoiceTargetChannel)
        ensures
            final(self).spec_channels() == old(self).spec_channels().push(channel),
            final(self).spec_sessions() == old(self).spec_sessions(),
    {
        self.channels.push(channel);
    }

    /// Does the target route to nothing at all?
    pub fn is_empty(&self) -> (r: bool)
        ensures
            r == (self.spec_sessions().len() == 0 && self.spec_channels().len() == 0),
    {
        self.sessions.is_empty() && self.channels.is_empty()
    }
}

} // verus!
