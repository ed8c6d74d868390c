//! Per-client toggles.

use vstd::prelude::*;

verus! {

/// Options a client can set for itself.
#[derive(Debug, Clone, Copy, PartialEq, Eq, Structural)]
pub struct ClientOptions {
    block_group_shouts: bool,
    promiscuous_mode: bool,
}

impl Default for ClientOptions {
    /// Both options start switched off.
    fn default() -> (r: Self)
        ensures
            !r.spec_block_group_shouts(),
            !r.spec_promiscuous_mode(),
    {
        ClientOptions { block_group_shouts: false, promiscuous_mode: false }
    }
}

impl ClientOptions {
    /// Whether group shouts are blocked.
    pub closed spec fn spec_block_group_shouts(self) -> bool {
        self.block_group_shouts
    }

    /// Whether promiscuous mode is on.
    pub closed spec fn spec_promiscuous_mode(self) -> bool {
        self.promiscuous_mode
    }

    /// Fresh options, with everything switched off.
    pub fn new() -> (r: Self)
        ensures
            !r.spec_block_group_shouts(),
            !r.spec_promiscuous_mode(),
    {
        ClientOptions { block_group_shouts: false, promiscuous_mode: false }
    }

    /// Whether group shouts are blocked.
    pub fn block_group_shouts(&self) -> (r: bool)
        ensures
            r == self.spec_block_group_shouts(),
    {
        self.block_group_shouts
    }

    /// Switch blocking of group shouts.
    pub fn set_block_group_shouts(&mut self, value: bool)
        ensures
            final(self).spec_block_group_shouts() == value,
            final(self).spec_promiscuous_mode() == old(self).spec_promiscuous_mode(),
    {
        self.block_group_shouts = value;
    }

    /// Whether promiscuous mode is on.
    pub fn promiscuous_mode(&self) -> (r: bool)
        ensures
            r == self.spec_promiscuous_mode(),
    {
        self.promiscuous_mode
    }

    /// Switch promiscuous mode.
    pub fn set_promiscuous_mode(&mut self, value: bool)
        ensures
            final(self).spec_promiscuous_mode() == value,
            final(self).spec_block_group_shouts() == old(self).spec_block_group_shouts(),
    {
        self.promiscuous_mode = value;
    }
}

} // verus!
