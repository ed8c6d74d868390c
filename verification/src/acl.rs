//! ACL rules and their evaluation over the channel tree.
//!
//! A rule is scoped either to a user id or to a group-match expression,
//! carries allow and deny bit masks, and applies to the channel it is
//! attached to (`apply_here`) and/or that channel's descendants
//! (`apply_subs`).  Evaluation ascends from a target channel toward the
//! root: for each permission bit the nearest channel carrying an
//! applicable matching rule that mentions the bit decides it, a deny
//! match beating an allow match at the same channel; the ascent stops at
//! the first channel that does not inherit ACLs.  Five permissions are
//! meaningful only at the root and resolve from the root's rules alone.

use vstd::prelude::*;
use crate::channels::{Channel, Channels, lemma_find_channel_id};
use crate::group_match::{ClientMembershipQuery, is_member_in_group, spec_is_member};

verus! {

/// The permission bits ACL rules grant or deny.
#[derive(Debug, Clone, Copy, PartialEq, Eq, Structural)]
pub enum ACLPermissions {
    /// Edit the channel's ACL.
    Write,
    /// Pass through the channel.
    Traverse,
    /// Enter the channel.
    Enter,
    /// Speak in the channel.
    Speak,
    /// Mute or deafen others.
    MuteDeafen,
    /// Move other users.
    Move,
    /// Create sub-channels.
    MakeChannel,
    /// Link the channel.
    LinkChannel,
    /// Whisper into the channel.
    Whisper,
    /// Send text messages.
    TextMessage,
    /// Create temporary sub-channels.
    TempChannel,
    /// Listen into the channel.
    Listen,
    /// Kick users; root only.
    Kick,
    /// Ban users; root only.
    Ban,
    /// Register users; root only.
    Register,
    /// Register oneself; root only.
    SelfRegister,
    /// Reset a user's content; root only.
    ResetUserContent,
}

impl ACLPermissions {
    /// The bit this permission occupies in the allow and deny masks.
    pub open spec fn spec_mask(self) -> u32 {
        match self {
            ACLPermissions::Write => 0x1,
            ACLPermissions::Traverse => 0x2,
            ACLPermissions::Enter => 0x4,
            ACLPermissions::Speak => 0x8,
            ACLPermissions::MuteDeafen => 0x10,
            ACLPermissions::Move => 0x20,
            ACLPermissions::MakeChannel => 0x40,
            ACLPermissions::LinkChannel => 0x80,
            ACLPermissions::Whisper => 0x100,
            ACLPermissions::TextMessage => 0x200,
            ACLPermissions::TempChannel => 0x400,
            ACLPermissions::Listen => 0x800,
            ACLPermissions::Kick => 0x10000,
            ACLPermissions::Ban => 0x20000,
            ACLPermissions::Register => 0x40000,
            ACLPermissions::SelfRegister => 0x80000,
            ACLPermissions::ResetUserContent => 0x100000,
        }
    }

    /// The bit this permission occupies in the allow and deny masks.
    pub fn mask(self) -> (r: u32)
        ensures
            r == self.spec_mask(),
    {
        match self {
            ACLPermissions::Write => 0x1,
            ACLPermissions::Traverse => 0x2,
            ACLPermissions::Enter => 0x4,
            ACLPermissions::Speak => 0x8,
            ACLPermissions::MuteDeafen => 0x10,
            ACLPermissions::Move => 0x20,
            ACLPermissions::MakeChannel => 0x40,
            ACLPermissions::LinkChannel => 0x80,
            ACLPermissions::Whisper => 0x100,
            ACLPermissions::TextMessage => 0x200,
            ACLPermissions::TempChannel => 0x400,
            ACLPermissions::Listen => 0x800,
            ACLPermissions::Kick => 0x10000,
            ACLPermissions::Ban => 0x20000,
            ACLPermissions::Register => 0x40000,
            ACLPermissions::SelfRegister => 0x80000,
            ACLPermissions::ResetUserContent => 0x100000,
        }
    }

    /// Whether the permission is meaningful only at the root channel.
    pub open spec fn spec_is_root_only(self) -> bool {
        match self {
            ACLPermissions::Kick => true,
            ACLPermissions::Ban => true,
            ACLPermissions::Register => true,
            ACLPermissions::SelfRegister => true,
            ACLPermissions::ResetUserContent => true,
            _ => false,
        }
    }

    /// Whether the permission is meaningful only at the root channel.
    pub fn is_root_only(self) -> (r: bool)
        ensures
            r == self.spec_is_root_only(),
    {
        match self {
            ACLPermissions::Kick => true,
            ACLPermissions::Ban => true,
            ACLPermissions::Register => true,
            ACLPermissions::SelfRegister => true,
            ACLPermissions::ResetUserContent => true,
            _ => false,
        }
    }
}

/// One ACL rule, attached to a channel.
#[derive(Debug, PartialEq)]
pub struct ACL {
    /// The user the rule is scoped to; a rule with a user id is a user
    /// rule, whatever `group` holds.
    pub user_id: Option<i32>,
    /// The group-match expression the rule is scoped to otherwise.
    pub group: Option<String>,
    /// The rule applies to the channel it is attached to.
    pub apply_here: bool,
    /// The rule applies to the channel's descendants.
    pub apply_subs: bool,
    /// The permission bits the rule grants.
    pub allow: u32,
    /// The permission bits the rule denies.
    pub deny: u32,
}

/// A group rule matches when the client is a member of its expression;
/// a rule without a group never matches as a group rule.
pub open spec fn spec_acl_group_match(
    acl: ACL,
    current_channel_id: u32,
    target_channel_id: Option<u32>,
    passwords: Seq<String>,
    q: ClientMembershipQuery,
) -> bool {
    match acl.group {
        Some(g) => spec_is_member(g@, current_channel_id, target_channel_id, passwords, q),
        None => false,
    }
}

impl Clone for ACL {
    /// A clone keeps every field.
    fn clone(&self) -> (r: Self)
        ensures
            r == *self,
    {
        ACL {
            user_id: self.user_id,
            group: match &self.group {
                Some(g) => Some(g.clone()),
                None => None,
            },
            apply_here: self.apply_here,
            apply_subs: self.apply_subs,
            allow: self.allow,
            deny: self.deny,
        }
    }
}

impl ACL {
    /// An empty rule: unscoped, applying nowhere, granting and denying
    /// nothing.
    pub fn new() -> (r: Self)
        ensures
            r.user_id is None,
            r.group is None,
            !r.apply_here,
            !r.apply_subs,
            r.allow == 0,
            r.deny == 0,
    {
        ACL {
            user_id: None,
            group: None,
            apply_here: false,
            apply_subs: false,
            allow: 0,
            deny: 0,
        }
    }

    /// Is the rule scoped to a user id?
    pub fn is_user_acl(&self) -> (r: bool)
        ensures
            r == (self.user_id is Some),
    {
        self.user_id.is_some()
    }

    /// Is the rule scoped to a group expression?
    pub fn is_channel_acl(&self) -> (r: bool)
        ensures
            r == (self.user_id is None),
    {
        self.user_id.is_none()
    }

    /// Does the rule's bound user id equal `user_id`?  A rule without a
    /// user id matches no user.
    pub fn match_user(&self, user_id: i32) -> (r: bool)
        ensures
            r == (self.user_id == Some(user_id)),
    {
        match self.user_id {
            Some(id) => id == user_id,
            None => false,
        }
    }

    /// Evaluate the rule's group expression against a client; a rule
    /// without a group expression matches no client.
    pub fn match_group(
        &self,
        current_channel_id: u32,
        target_channel_id: Option<u32>,
        join_passwords: &Vec<String>,
        client: &ClientMembershipQuery,
    ) -> (r: bool)
        ensures
            r == spec_acl_group_match(
                *self,
                current_channel_id,
                target_channel_id,
                join_passwords@,
                *client,
            ),
    {
        match &self.group {
            Some(group_name) => is_member_in_group(
                group_name.as_str(),
                current_channel_id,
                target_channel_id,
                join_passwords,
                client,
            ),
            None => false,
        }
    }
}

/// The ACL rules attached to one channel.
#[derive(Debug)]
pub struct ChannelAcls {
    /// The channel the rules are attached to.
    pub channel_id: u32,
    /// The rules, in attachment order.
    pub rules: Vec<ACL>,
}

/// The first entry for `id`, if any.
pub open spec fn spec_find_acls(s: Seq<ChannelAcls>, id: u32) -> Option<ChannelAcls>
    decreases s.len(),
{
    if s.len() == 0 {
        None
    } else if s[0].channel_id == id {
        Some(s[0])
    } else {
        spec_find_acls(s.drop_first(), id)
    }
}

/// The rules attached to channel `id`: the first entry's rules, or none.
pub open spec fn spec_rules_for(s: Seq<ChannelAcls>, id: u32) -> Seq<ACL> {
    match spec_find_acls(s, id) {
        Some(e) => e.rules@,
        None => Seq::empty(),
    }
}

/// A prefix without the id does not influence the find.
proof fn lemma_find_acls_skip(s: Seq<ChannelAcls>, id: u32, i: int)
    requires
        0 <= i <= s.len(),
        forall|j: int| 0 <= j < i ==> s[j].channel_id != id,
    ensures
        spec_find_acls(s, id) == spec_find_acls(s.skip(i), id),
    decreases i,
{
    if i > 0 {
        assert(s.drop_first() =~= s.skip(1));
        lemma_find_acls_skip(s.skip(1), id, i - 1);
        assert(s.skip(1).skip(i - 1) =~= s.skip(i));
    } else {
        assert(s.skip(0) =~= s);
    }
}

/// How one permission bit resolved.
#[derive(Debug, Clone, Copy, PartialEq, Eq, Structural)]
pub enum PermissionResolution {
    /// The nearest deciding rule grants the permission.
    Allowed,
    /// The nearest deciding rule denies the permission.
    Denied,
    /// No rule in reach decides the permission.
    Unset,
}

/// Whether a rule applies at the visited depth: `apply_here` at the
/// target channel itself, `apply_subs` at an ancestor.
pub open spec fn spec_rule_applicable(rule: ACL, at_target: bool) -> bool {
    if at_target {
        rule.apply_here
    } else {
        rule.apply_subs
    }
}

/// Whether a rule matches the requesting client: a user rule by exact id
/// equality, a group rule through the group-match engine, evaluated at
/// the visited channel with the target channel supplied.
pub open spec fn spec_rule_matches(
    rule: ACL,
    visited_channel_id: u32,
    target_channel_id: u32,
    user_id: Option<i32>,
    passwords: Seq<String>,
    q: ClientMembershipQuery,
) -> bool {
    match rule.user_id {
        Some(rid) => user_id == Some(rid),
        None => spec_acl_group_match(
            rule,
            visited_channel_id,
            Some(target_channel_id),
            passwords,
            q,
        ),
    }
}

/// Some applicable matching rule at this channel mentions the bit, in its
/// allow or deny mask.
pub open spec fn spec_channel_mentions(
    rules: Seq<ACL>,
    at_target: bool,
    visited_channel_id: u32,
    target_channel_id: u32,
    user_id: Option<i32>,
    passwords: Seq<String>,
    q: ClientMembershipQuery,
    mask: u32,
) -> bool {
    exists|i: int|
        0 <= i < rules.len() && spec_rule_applicable(rules[i], at_target) && spec_rule_matches(
            rules[i],
            visited_channel_id,
            target_channel_id,
            user_id,
            passwords,
            q,
        ) && ((rules[i].allow | rules[i].deny) & mask) != 0
}

/// Some applicable matching rule at this channel denies the bit.
pub open spec fn spec_channel_denies(
    rules: Seq<ACL>,
    at_target: bool,
    visited_channel_id: u32,
    target_channel_id: u32,
    user_id: Option<i32>,
    passwords: Seq<String>,
    q: ClientMembershipQuery,
    mask: u32,
) -> bool {
    exists|i: int|
        0 <= i < rules.len() && spec_rule_applicable(rules[i], at_target) && spec_rule_matches(
            rules[i],
            visited_channel_id,
            target_channel_id,
            user_id,
            passwords,
            q,
        ) && (rules[i].deny & mask) != 0
}

/// The channels ACL evaluation visits, nearest first: the target, then
/// its ancestors, stopping after the first channel that does not inherit
/// ACLs, at the root, at a dangling parent id, or when the fuel runs out.
pub open spec fn spec_acl_chain(channels: Channels, id: u32, fuel: nat) -> Seq<Channel>
    decreases fuel,
{
    if fuel == 0 {
        Seq::empty()
    } else {
        match channels.spec_get(id) {
            None => Seq::empty(),
            Some(c) => if !c.inherit_acl {
                seq![c]
            } else {
                match c.parent_id {
                    None => seq![c],
                    Some(p) => seq![c] + spec_acl_chain(channels, p, (fuel - 1) as nat),
                }
            },
        }
    }
}

/// Resolve one permission bit along a chain of channels: the first
/// channel carrying an applicable matching rule that mentions the bit
/// decides it, denying when any such rule denies it; otherwise the rest
/// of the chain decides; an exhausted chain leaves the bit unset.
pub open spec fn spec_resolve_chain(
    chain: Seq<Channel>,
    at_target: bool,
    table: Seq<ChannelAcls>,
    target_channel_id: u32,
    user_id: Option<i32>,
    passwords: Seq<String>,
    q: ClientMembershipQuery,
    mask: u32,
) -> PermissionResolution
    decreases chain.len(),
{
    if chain.len() == 0 {
        PermissionResolution::Unset
    } else if spec_channel_mentions(
        spec_rules_for(table, chain[0].id),
        at_target,
        chain[0].id,
        target_channel_id,
        user_id,
        passwords,
        q,
        mask,
    ) {
        if spec_channel_denies(
            spec_rules_for(table, chain[0].id),
            at_target,
            chain[0].id,
            target_channel_id,
            user_id,
            passwords,
            q,
            mask,
        ) {
            PermissionResolution::Denied
        } else {
            PermissionResolution::Allowed
        }
    } else {
        spec_resolve_chain(
            chain.drop_first(),
            false,
            table,
            target_channel_id,
            user_id,
            passwords,
            q,
            mask,
        )
    }
}

/// The root above a channel: follow parent ids until a channel without
/// one; nothing when the start is unknown or the fuel runs out first.
pub open spec fn spec_root_of(channels: Channels, id: u32, fuel: nat) -> Option<Channel>
    decreases fuel,
{
    if fuel == 0 {
        None
    } else {
        match channels.spec_get(id) {
            None => None,
            Some(c) => match c.parent_id {
                None => Some(c),
                Some(p) => spec_root_of(channels, p, (fuel - 1) as nat),
            },
        }
    }
}

/// The fuel every evaluation walk starts with: enough to visit each
/// channel of a well-formed tree once.
pub open spec fn spec_walk_fuel(channels: Channels) -> nat {
    channels@.len()
}

/// How `permission` resolves for the requesting client at the target
/// channel.  A root-only permission resolves from the root channel's own
/// rules, whatever the target's rules say; every other permission
/// resolves along the ancestor chain of the target.
pub open spec fn spec_evaluate(
    channels: Channels,
    table: Seq<ChannelAcls>,
    target_channel_id: u32,
    user_id: Option<i32>,
    passwords: Seq<String>,
    q: ClientMembershipQuery,
    permission: ACLPermissions,
) -> PermissionResolution {
    if permission.spec_is_root_only() {
        match spec_root_of(channels, target_channel_id, spec_walk_fuel(channels)) {
            Some(root) => spec_resolve_chain(
                seq![root],
                true,
                table,
                target_channel_id,
                user_id,
                passwords,
                q,
                permission.spec_mask(),
            ),
            None => PermissionResolution::Unset,
        }
    } else {
        spec_resolve_chain(
            spec_acl_chain(channels, target_channel_id, spec_walk_fuel(channels)),
            true,
            table,
            target_channel_id,
            user_id,
            passwords,
            q,
            permission.spec_mask(),
        )
    }
}

/// Find the rules attached to a channel.
fn find_rules<'a>(table: &'a Vec<ChannelAcls>, id: u32) -> (r: Option<&'a Vec<ACL>>)
    ensures
        match r {
            Some(rules) => spec_rules_for(table@, id) == rules@,
            None => spec_rules_for(table@, id) == Seq::<ACL>::empty(),
        },
{
    let n = table.len();
    let mut i: usize = 0;
    while i < n
        invariant
            0 <= i <= n,
            n == table@.len(),
            forall|j: int| 0 <= j < i ==> table@[j].channel_id != id,
        decreases n - i,
    {
        if table[i].channel_id == id {
            proof {
                lemma_find_acls_skip(table@, id, i as int);
                assert(table@.skip(i as int)[0] == table@[i as int]);
            }
            return Some(&table[i].rules);
        }
        i += 1;
    }
    proof {
        lemma_find_acls_skip(table@, id, n as int);
        assert(table@.skip(n as int) =~= Seq::<ChannelAcls>::empty());
    }
    None
}

/// Whether one rule applies at this depth and matches the client.
fn rule_applies_and_matches(
    rule: &ACL,
    at_target: bool,
    visited_channel_id: u32,
    target_channel_id: u32,
    user_id: Option<i32>,
    join_passwords: &Vec<String>,
    client: &ClientMembershipQuery,
) -> (r: bool)
    ensures
        r == (spec_rule_applicable(*rule, at_target) && spec_rule_matches(
            *rule,
            visited_channel_id,
            target_channel_id,
            user_id,
            join_passwords@,
            *client,
        )),
{
    let applicable = if at_target {
        rule.apply_here
    } else {
        rule.apply_subs
    };
    if !applicable {
        return false;
    }
    match rule.user_id {
        Some(rid) => match user_id {
            Some(uid) => rid == uid,
            None => false,
        },
        None => rule.match_group(
            visited_channel_id,
            Some(target_channel_id),
            join_passwords,
            client,
        ),
    }
}

/// Scan one channel's rules: does any applicable matching rule mention
/// the bit, and does any deny it?
fn channel_decision(
    rules: &Vec<ACL>,
    at_target: bool,
    visited_channel_id: u32,
    target_channel_id: u32,
    user_id: Option<i32>,
    join_passwords: &Vec<String>,
    client: &ClientMembershipQuery,
    mask: u32,
) -> (r: (bool, bool))
    ensures
        r.0 == spec_channel_mentions(
            rules@,
            at_target,
            visited_channel_id,
            target_channel_id,
            user_id,
            join_passwords@,
            *client,
            mask,
        ),
        r.1 == spec_channel_denies(
            rules@,
            at_target,
            visited_channel_id,
            target_channel_id,
            user_id,
            join_passwords@,
            *client,
            mask,
        ),
{
    let n = rules.len();
    let mut mentions = false;
    let mut denies = false;
    let mut i: usize = 0;
    while i < n
        invariant
            0 <= i <= n,
            n == rules@.len(),
            mentions == exists|j: int|
                0 <= j < i && spec_rule_applicable(rules@[j], at_target) && spec_rule_matches(
                    rules@[j],
                    visited_channel_id,
                    target_channel_id,
                    user_id,
                    join_passwords@,
                    *client,
                ) && ((rules@[j].allow | rules@[j].deny) & mask) != 0,
            denies == exists|j: int|
                0 <= j < i && spec_rule_applicable(rules@[j], at_target) && spec_rule_matches(
                    rules@[j],
                    visited_channel_id,
                    target_channel_id,
                    user_id,
                    join_passwords@,
                    *client,
                ) && (rules@[j].deny & mask) != 0,
        decreases n - i,
    {
        let hit = rule_applies_and_matches(
            &rules[i],
            at_target,
            visited_channel_id,
            target_channel_id,
            user_id,
            join_passwords,
            client,
        );
        if hit {
            if ((rules[i].allow | rules[i].deny) & mask) != 0 {
                mentions = true;
            }
            if (rules[i].deny & mask) != 0 {
                denies = true;
            }
        }
        i += 1;
    }
    (mentions, denies)
}

/// Walk the ancestor chain from channel `id`, resolving one bit.
fn resolve_from(
    channels: &Channels,
    table: &Vec<ChannelAcls>,
    id: u32,
    at_target: bool,
    target_channel_id: u32,
    user_id: Option<i32>,
    join_passwords: &Vec<String>,
    client: &ClientMembershipQuery,
    mask: u32,
    fuel: usize,
) -> (r: PermissionResolution)
    ensures
        r == spec_resolve_chain(
            spec_acl_chain(*channels, id, fuel as nat),
            at_target,
            table@,
            target_channel_id,
            user_id,
            join_passwords@,
            *client,
            mask,
        ),
    decreases fuel,
{
    if fuel == 0 {
        proof {
            assert(spec_acl_chain(*channels, id, fuel as nat) =~= Seq::<Channel>::empty());
        }
        return PermissionResolution::Unset;
    }
    match channels.get_channel(id) {
        None => {
            proof {
                assert(spec_acl_chain(*channels, id, fuel as nat) =~= Seq::<Channel>::empty());
            }
            PermissionResolution::Unset
        },
        Some(c) => {
            proof {
                lemma_find_channel_id(channels@, id);
            }
            let ghost chain = spec_acl_chain(*channels, id, fuel as nat);
            let (mentions, denies) = match find_rules(table, id) {
                Some(rules) => channel_decision(
                    rules,
                    at_target,
                    id,
                    target_channel_id,
                    user_id,
                    join_passwords,
                    client,
                    mask,
                ),
                None => (false, false),
            };
            proof {
                if !c.inherit_acl {
                    assert(chain =~= seq![*c]);
                } else {
                    match c.parent_id {
                        None => {
                            assert(chain =~= seq![*c]);
                        },
                        Some(p) => {
                            assert(chain =~= seq![*c] + spec_acl_chain(
                                *channels,
                                p,
                                (fuel - 1) as nat,
                            ));
                        },
                    }
                }
                assert(chain.len() >= 1);
                assert(chain[0] == *c);
                assert(mentions == spec_channel_mentions(
                    spec_rules_for(table@, chain[0].id),
                    at_target,
                    chain[0].id,
                    target_channel_id,
                    user_id,
                    join_passwords@,
                    *client,
                    mask,
                ));
                assert(denies == spec_channel_denies(
                    spec_rules_for(table@, chain[0].id),
                    at_target,
                    chain[0].id,
                    target_channel_id,
                    user_id,
                    join_passwords@,
                    *client,
                    mask,
                ));
            }
            if mentions {
                proof {
                    assert(spec_resolve_chain(
                        chain,
                        at_target,
                        table@,
                        target_channel_id,
                        user_id,
                        join_passwords@,
                        *client,
                        mask,
                    ) == if denies {
                        PermissionResolution::Denied
                    } else {
                        PermissionResolution::Allowed
                    });
                }
                if denies {
                    PermissionResolution::Denied
                } else {
                    PermissionResolution::Allowed
                }
            } else if c.inherit_acl {
                match c.parent_id {
                    Some(p) => {
                        let r = resolve_from(
                            channels,
                            table,
                            p,
                            false,
                            target_channel_id,
                            user_id,
                            join_passwords,
                            client,
                            mask,
                            fuel - 1,
                        );
                        proof {
                            assert(chain.drop_first() =~= spec_acl_chain(
                                *channels,
                                p,
                                (fuel - 1) as nat,
                            ));
                            assert(spec_resolve_chain(
                                chain,
                                at_target,
                                table@,
                                target_channel_id,
                                user_id,
                                join_passwords@,
                                *client,
                                mask,
                            ) == r);
                        }
                        r
                    },
                    None => {
                        proof {
                            assert(chain.drop_first() =~= Seq::<Channel>::empty());
                            assert(spec_resolve_chain(
                                chain,
                                at_target,
                                table@,
                                target_channel_id,
                                user_id,
                                join_passwords@,
                                *client,
                                mask,
                            ) == spec_resolve_chain(
                                chain.drop_first(),
                                false,
                                table@,
                                target_channel_id,
                                user_id,
                                join_passwords@,
                                *client,
                                mask,
                            ));
                            assert(spec_resolve_chain(
                                chain.drop_first(),
                                false,
                                table@,
                                target_channel_id,
                                user_id,
                                join_passwords@,
                                *client,
                                mask,
                            ) == PermissionResolution::Unset);
                        }
                        PermissionResolution::Unset
                    },
                }
            } else {
                proof {
                    assert(chain.drop_first() =~= Seq::<Channel>::empty());
                    assert(spec_resolve_chain(
                        chain,
                        at_target,
                        table@,
                        target_channel_id,
                        user_id,
                        join_passwords@,
                        *client,
                        mask,
                    ) == spec_resolve_chain(
                        chain.drop_first(),
                        false,
                        table@,
                        target_channel_id,
                        user_id,
                        join_passwords@,
                        *client,
                        mask,
                    ));
                    assert(spec_resolve_chain(
                        chain.drop_first(),
                        false,
                        table@,
                        target_channel_id,
                        user_id,
                        join_passwords@,
                        *client,
                        mask,
                    ) == PermissionResolution::Unset);
                }
                PermissionResolution::Unset
            }
        },
    }
}

/// Follow parent ids up to the root channel, returning its id.
fn find_root_id(channels: &Channels, id: u32, fuel: usize) -> (r: Option<u32>)
    ensures
        match spec_root_of(*channels, id, fuel as nat) {
            Some(c) => r == Some(c.id),
            None => r is None,
        },
    decreases fuel,
{
    if fuel == 0 {
        return None;
    }
    match channels.get_channel(id) {
        None => None,
        Some(c) => {
            proof {
                lemma_find_channel_id(channels@, id);
            }
            match c.parent_id {
                None => Some(id),
                Some(p) => find_root_id(channels, p, fuel - 1),
            }
        },
    }
}

/// How `permission` resolves for the requesting client at the target
/// channel: the nearest ancestor (stopping where ACL inheritance is cut
/// off) carrying an applicable matching rule that mentions the bit
/// decides it, a deny match winning over an allow match at the same
/// channel; a root-only permission resolves from the root channel's own
/// rules instead, whatever the target's rules say.
pub fn evaluate_permission(
    channels: &Channels,
    acl_table: &Vec<ChannelAcls>,
    target_channel_id: u32,
    user_id: Option<i32>,
    join_passwords: &Vec<String>,
    client: &ClientMembershipQuery,
    permission: ACLPermissions,
) -> (r: PermissionResolution)
    ensures
        r == spec_evaluate(
            *channels,
            acl_table@,
            target_channel_id,
            user_id,
            join_passwords@,
            *client,
            permission,
        ),
{
    let fuel = channels.channel_count();
    let mask = permission.mask();
    if permission.is_root_only() {
        match find_root_id(channels, target_channel_id, fuel) {
            Some(root_id) => {
                let ghost root = spec_root_of(
                    *channels,
                    target_channel_id,
                    spec_walk_fuel(*channels),
                )->Some_0;
                let (mentions, denies) = match find_rules(acl_table, root_id) {
                    Some(rules) => channel_decision(
                        rules,
                        true,
                        root_id,
                        target_channel_id,
                        user_id,
                        join_passwords,
                        client,
                        mask,
                    ),
                    None => (false, false),
                };
                proof {
                    lemma_root_of_id(*channels, target_channel_id, spec_walk_fuel(*channels));
                    let chain = seq![root];
                    assert(chain.len() == 1);
                    assert(chain[0] == root);
                    assert(root.id == root_id);
                    assert(mentions == spec_channel_mentions(
                        spec_rules_for(acl_table@, chain[0].id),
                        true,
                        chain[0].id,
                        target_channel_id,
                        user_id,
                        join_passwords@,
                        *client,
                        mask,
                    ));
                    assert(denies == spec_channel_denies(
                        spec_rules_for(acl_table@, chain[0].id),
                        true,
                        chain[0].id,
                        target_channel_id,
                        user_id,
                        join_passwords@,
                        *client,
                        mask,
                    ));
                    assert(chain.drop_first() =~= Seq::<Channel>::empty());
                    if !mentions {
                        assert(spec_resolve_chain(
                            chain,
                            true,
                            acl_table@,
                            target_channel_id,
                            user_id,
                            join_passwords@,
                            *client,
                            mask,
                        ) == spec_resolve_chain(
                            chain.drop_first(),
                            false,
                            acl_table@,
                            target_channel_id,
                            user_id,
                            join_passwords@,
                            *client,
                            mask,
                        ));
                        assert(spec_resolve_chain(
                            chain.drop_first(),
                            false,
                            acl_table@,
                            target_channel_id,
                            user_id,
                            join_passwords@,
                            *client,
                            mask,
                        ) == PermissionResolution::Unset);
                    }
                }
                if mentions {
                    if denies {
                        PermissionResolution::Denied
                    } else {
                        PermissionResolution::Allowed
                    }
                } else {
                    PermissionResolution::Unset
                }
            },
            None => PermissionResolution::Unset,
        }
    } else {
        resolve_from(
            channels,
            acl_table,
            target_channel_id,
            true,
            target_channel_id,
            user_id,
            join_passwords,
            client,
            mask,
            fuel,
        )
    }
}

/// Is the permission granted?  Only an explicit allow grants; an unset
/// bit is not a grant.
pub fn has_permission(
    channels: &Channels,
    acl_table: &Vec<ChannelAcls>,
    target_channel_id: u32,
    user_id: Option<i32>,
    join_passwords: &Vec<String>,
    client: &ClientMembershipQuery,
    permission: ACLPermissions,
) -> (r: bool)
    ensures
        r == (spec_evaluate(
            *channels,
            acl_table@,
            target_channel_id,
            user_id,
            join_passwords@,
            *client,
            permission,
        ) == PermissionResolution::Allowed),
{
    let resolution = evaluate_permission(
        channels,
        acl_table,
        target_channel_id,
        user_id,
        join_passwords,
        client,
        permission,
    );
    match resolution {
        PermissionResolution::Allowed => true,
        PermissionResolution::Denied => false,
        PermissionResolution::Unset => false,
    }
}

/// The root the walk finds is a channel of the table reachable under its
/// own id.
proof fn lemma_root_of_id(channels: Channels, id: u32, fuel: nat)
    ensures
        spec_root_of(channels, id, fuel) matches Some(c) ==> channels.spec_get(c.id) == Some(c),
    decreases fuel,
{
    if fuel > 0 {
        match channels.spec_get(id) {
            None => {},
            Some(c) => {
                lemma_find_channel_id(channels@, id);
                match c.parent_id {
                    None => {},
                    Some(p) => {
                        lemma_root_of_id(channels, p, (fuel - 1) as nat);
                    },
                }
            },
        }
    }
}

/// Cutting off ACL inheritance removes every ancestor's influence: when
/// the target channel does not inherit ACLs and none of its own
/// applicable rules matches the client and mentions a (non-root-only)
/// permission's bit, that permission resolves unset, whatever rules the
/// ancestors carry.
pub proof fn lemma_no_inherit_no_rule_unset(
    channels: Channels,
    table: Seq<ChannelAcls>,
    target_channel_id: u32,
    user_id: Option<i32>,
    passwords: Seq<String>,
    q: ClientMembershipQuery,
    permission: ACLPermissions,
)
    requires
        !permission.spec_is_root_only(),
        channels.spec_get(target_channel_id) matches Some(c) && !c.inherit_acl,
        !spec_channel_mentions(
            spec_rules_for(table, target_channel_id),
            true,
            target_channel_id,
            target_channel_id,
            user_id,
            passwords,
            q,
            permission.spec_mask(),
        ),
    ensures
        spec_evaluate(channels, table, target_channel_id, user_id, passwords, q, permission)
            == PermissionResolution::Unset,
{
    let c = channels.spec_get(target_channel_id)->Some_0;
    lemma_find_channel_id(channels@, target_channel_id);
    lemma_get_some_nonempty(channels, target_channel_id);
    let m = permission.spec_mask();
    let fuelv = spec_walk_fuel(channels);
    assert(fuelv > 0);
    let chain = spec_acl_chain(channels, target_channel_id, fuelv);
    assert(channels.spec_get(target_channel_id) == Some(c));
    assert(!c.inherit_acl);
    assert(chain =~= seq![c]);
    assert(chain.len() == 1);
    assert(chain[0] == c);
    assert(c.id == target_channel_id);
    assert(!spec_channel_mentions(
        spec_rules_for(table, chain[0].id),
        true,
        chain[0].id,
        target_channel_id,
        user_id,
        passwords,
        q,
        m,
    ));
    assert(spec_resolve_chain(chain, true, table, target_channel_id, user_id, passwords, q, m)
        == spec_resolve_chain(
        chain.drop_first(),
        false,
        table,
        target_channel_id,
        user_id,
        passwords,
        q,
        m,
    ));
    assert(chain.drop_first().len() == 0);
    assert(spec_resolve_chain(
        chain.drop_first(),
        false,
        table,
        target_channel_id,
        user_id,
        passwords,
        q,
        m,
    ) == PermissionResolution::Unset);
}

/// A successful lookup means the table is not empty.
proof fn lemma_get_some_nonempty(channels: Channels, id: u32)
    ensures
        channels.spec_get(id) is Some ==> channels@.len() > 0,
{
}

} // verus!
