//! The channel tree.
//!
//! Channels form a tree through `parent_id`: the sole channel without a
//! parent is the root.  An id with the top bit set marks a temporary
//! channel.  This table is read-only for the engine; ACL evaluation walks
//! it upward from a target channel.

use vstd::prelude::*;

verus! {

/// One channel of the tree.
#[derive(Debug)]
pub struct Channel {
    /// The channel id; the top bit marks a temporary channel.
    pub id: u32,
    /// The display name.
    pub name: String,
    /// Sort position among siblings.
    pub position: i32,
    /// How many clients the channel admits; zero means no limit.
    pub max_users: u32,
    /// The parent channel, absent only for the root.
    pub parent_id: Option<u32>,
    /// Whether ACL evaluation continues above this channel.
    pub inherit_acl: bool,
    /// A linked channel, if any.
    pub link: Option<u32>,
    /// The description, if one was set.
    pub description_blob: Option<String>,
}

impl Clone for Channel {
    /// A clone keeps every field.
    fn clone(&self) -> (r: Self)
        ensures
            r == *self,
    {
        Channel {
            id: self.id,
            name: self.name.clone(),
            position: self.position,
            max_users: self.max_users,
            parent_id: self.parent_id,
            inherit_acl: self.inherit_acl,
            link: self.link,
            description_blob: match &self.description_blob {
                Some(d) => Some(d.clone()),
                None => None,
            },
        }
    }
}

impl Channel {
    /// Assemble a channel from its fields.
    pub fn new(
        id: u32,
        name: String,
        position: i32,
        max_users: u32,
        parent_id: Option<u32>,
        inherit_acl: bool,
        link: Option<u32>,
        description_blob: Option<String>,
    ) -> (r: Channel)
        ensures
            r.id == id,
            r.name == name,
            r.position == position,
            r.max_users == max_users,
            r.parent_id == parent_id,
            r.inherit_acl == inherit_acl,
            r.link == link,
            r.description_blob == description_blob,
    {
        Channel { id, name, position, max_users, parent_id, inherit_acl, link, description_blob }
    }

    /// A non-empty description was set.
    pub open spec fn spec_has_description(self) -> bool {
        match self.description_blob {
            Some(d) => d@.len() > 0,
            None => false,
        }
    }

    /// Does the channel carry a non-empty description?
    pub fn has_description(&self) -> (r: bool)
        ensures
            r == self.spec_has_description(),
    {
        match &self.description_blob {
            Some(desc) => !desc.as_str().is_empty(),
            None => false,
        }
    }

    /// Is the channel temporary (id's top bit set)?
    pub fn is_temporary(&self) -> (r: bool)
        ensures
            r == (self.id & 0x8000_0000u32 != 0),
    {
        (self.id & 0x8000_0000u32) != 0
    }

    /// Is the channel the root (no parent)?
    pub fn is_root(&self) -> (r: bool)
        ensures
            r == (self.parent_id is None),
    {
        self.parent_id.is_none()
    }
}

/// The first channel in `s` carrying `id`, if any.
pub open spec fn spec_find_channel(s: Seq<Channel>, id: u32) -> Option<Channel>
    decreases s.len(),
{
    if s.len() == 0 {
        None
    } else if s[0].id == id {
        Some(s[0])
    } else {
        spec_find_channel(s.drop_first(), id)
    }
}

/// A prefix without the id does not influence the find.
proof fn lemma_find_channel_skip(s: Seq<Channel>, id: u32, i: int)
    requires
        0 <= i <= s.len(),
        forall|j: int| 0 <= j < i ==> s[j].id != id,
    ensures
        spec_find_channel(s, id) == spec_find_channel(s.skip(i), id),
    decreases i,
{
    if i > 0 {
        assert(s.drop_first() =~= s.skip(1));
        lemma_find_channel_skip(s.skip(1), id, i - 1);
        assert(s.skip(1).skip(i - 1) =~= s.skip(i));
    } else {
        assert(s.skip(0) =~= s);
    }
}

/// The channel table.
#[derive(Debug)]
pub struct Channels {
    /// The channels, in table order.
    channel_list: Vec<Channel>,
}

impl Channels {
    /// The channels, as a sequence.
    pub closed spec fn view(self) -> Seq<Channel> {
        self.channel_list@
    }

    /// Each id names at most one channel.
    pub open spec fn wf(self) -> bool {
        forall|i: int, j: int| 0 <= i < j < self@.len() ==> self@[i].id != self@[j].id
    }

    /// The channel carrying `id`, if any.
    pub open spec fn spec_get(self, id: u32) -> Option<Channel> {
        spec_find_channel(self@, id)
    }

    /// An empty table.
    pub fn new() -> (r: Channels)
        ensures
            r@ == Seq::<Channel>::empty(),
            r.wf(),
    {
        Channels { channel_list: Vec::new() }
    }

    /// Add a channel.  Fails, leaving the table unchanged, when the id is
    /// already taken; so a well-formed table stays well-formed.
    pub fn add_channel(&mut self, channel: Channel) -> (r: bool)
        ensures
            r == (old(self).spec_get(channel.id) is None),
            r ==> final(self)@ == old(self)@.push(channel),
            !r ==> final(self)@ == old(self)@,
            old(self).wf() ==> final(self).wf(),
    {
        let taken = self.get_channel(channel.id).is_some();
        if taken {
            false
        } else {
            proof {
                lemma_find_channel_absent(self@, channel.id);
            }
            self.channel_list.push(channel);
            proof {
                if old(self).wf() {
                    assert forall|i: int, j: int| 0 <= i < j < self@.len() implies self@[i].id
                        != self@[j].id by {
                        if j < self@.len() - 1 {
                            assert(old(self)@[i].id != old(self)@[j].id);
                        }
                    }
                }
            }
            true
        }
    }

    /// How many channels the table holds.
    pub fn channel_count(&self) -> (r: usize)
        ensures
            r == self@.len(),
    {
        self.channel_list.len()
    }

    /// Look a channel up by id.
    pub fn get_channel(&self, channel_id: u32) -> (r: Option<&Channel>)
        ensures
            match r {
                Some(c) => self.spec_get(channel_id) == Some(*c),
                None => self.spec_get(channel_id) is None,
            },
    {
        let n = self.channel_list.len();
        let mut i: usize = 0;
        while i < n
            invariant
                0 <= i <= n,
                n == self@.len(),
                forall|j: int| 0 <= j < i ==> self@[j].id != channel_id,
            decreases n - i,
        {
            if self.channel_list[i].id == channel_id {
                proof {
                    lemma_find_channel_skip(self@, channel_id, i as int);
                    assert(self@.skip(i as int)[0] == self@[i as int]);
                }
                return Some(&self.channel_list[i]);
            }
            i += 1;
        }
        proof {
            lemma_find_channel_skip(self@, channel_id, n as int);
            assert(self@.skip(n as int) =~= Seq::<Channel>::empty());
        }
        None
    }

    /// The parent of a channel, if there is one.
    pub open spec fn spec_parent(self, channel: Channel) -> Option<Channel> {
        match channel.parent_id {
            Some(p) => self.spec_get(p),
            None => None,
        }
    }

    /// Look a channel's parent up.
    pub fn get_parent(&self, channel: &Channel) -> (r: Option<&Channel>)
        ensures
            match r {
                Some(c) => self.spec_parent(*channel) == Some(*c),
                None => self.spec_parent(*channel) is None,
            },
    {
        match channel.parent_id {
            Some(parent_id) => self.get_channel(parent_id),
            None => None,
        }
    }

    /// The children of a channel, in table order.
    pub fn get_children(&self, channel: &Channel) -> (r: Vec<Channel>)
        ensures
            r@ == spec_children(self@, channel.id),
    {
        let mut out: Vec<Channel> = Vec::new();
        let n = self.channel_list.len();
        let mut i: usize = 0;
        proof {
            assert(self@.take(0) =~= Seq::<Channel>::empty());
        }
        while i < n
            invariant
                0 <= i <= n,
                n == self@.len(),
                out@ == spec_children(self@.take(i as int), channel.id),
            decreases n - i,
        {
            let c = &self.channel_list[i];
            let keep = match c.parent_id {
                Some(p) => p == channel.id,
                None => false,
            };
            proof {
                assert(self@.take(i + 1).drop_last() =~= self@.take(i as int));
                assert(self@.take(i + 1).last() == self@[i as int]);
            }
            if keep {
                out.push(c.clone());
            }
            i += 1;
        }
        proof {
            assert(self@.take(n as int) =~= self@);
        }
        out
    }
}

/// The channels of `s` whose parent is `parent`, in order.
pub open spec fn spec_children(s: Seq<Channel>, parent: u32) -> Seq<Channel>
    decreases s.len(),
{
    if s.len() == 0 {
        Seq::empty()
    } else if s.last().parent_id == Some(parent) {
        spec_children(s.drop_last(), parent).push(s.last())
    } else {
        spec_children(s.drop_last(), parent)
    }
}

/// A found channel carries the id it was found under.
pub proof fn lemma_find_channel_id(s: Seq<Channel>, id: u32)
    ensures
        spec_find_channel(s, id) matches Some(c) ==> c.id == id,
    decreases s.len(),
{
    if s.len() > 0 && s[0].id != id {
        lemma_find_channel_id(s.drop_first(), id);
    }
}

/// When no entry carries the id, the find returns nothing.
proof fn lemma_find_channel_absent(s: Seq<Channel>, id: u32)
    ensures
        (spec_find_channel(s, id) is None) ==> (forall|i: int| 0 <= i < s.len() ==> s[i].id != id),
        (forall|i: int| 0 <= i < s.len() ==> s[i].id != id) ==> (spec_find_channel(s, id) is None),
    decreases s.len(),
{
    if s.len() > 0 {
        lemma_find_channel_absent(s.drop_first(), id);
        assert forall|i: int| 0 <= i < s.len() && (spec_find_channel(s, id) is None) implies s[i].id
            != id by {
            if i > 0 {
                assert(s.drop_first()[i - 1] == s[i]);
            }
        }
    }
}

} // verus!
