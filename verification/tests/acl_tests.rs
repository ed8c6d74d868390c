use chatcore::acl::{
    ACL, ACLPermissions, ChannelAcls, PermissionResolution, evaluate_permission, has_permission,
};
use chatcore::channels::{Channel, Channels};
use chatcore::group_match::ClientMembershipQuery;

fn query_in_groups(groups: &[&str]) -> ClientMembershipQuery {
    ClientMembershipQuery {
        groups: groups.iter().map(|g| g.to_string()).collect(),
        authenticated: false,
        access_tokens: Vec::new(),
        cert_hash: None,
        has_verified_cert_chain: false,
        ip_address: None,
        asn: None,
        country_code: None,
    }
}

fn channel(id: u32, parent: Option<u32>, inherit_acl: bool) -> Channel {
    Channel::new(id, format!("channel-{}", id), 0, 0, parent, inherit_acl, None, None)
}

fn group_rule(group: &str, apply_here: bool, apply_subs: bool, allow: u32, deny: u32) -> ACL {
    let mut rule = ACL::new();
    rule.group = Some(group.to_string());
    rule.apply_here = apply_here;
    rule.apply_subs = apply_subs;
    rule.allow = allow;
    rule.deny = deny;
    rule
}

/// Root 0 with children 1 (the restricted one) and 2 (the sibling).
fn tree(child_inherits: bool) -> Channels {
    let mut channels = Channels::new();
    assert!(channels.add_channel(channel(0, None, true)));
    assert!(channels.add_channel(channel(1, Some(0), child_inherits)));
    assert!(channels.add_channel(channel(2, Some(0), true)));
    channels
}

fn speak_rules() -> Vec<ChannelAcls> {
    let speak = ACLPermissions::Speak.mask();
    vec![
        ChannelAcls { channel_id: 0, rules: vec![group_rule("all", true, true, speak, 0)] },
        ChannelAcls { channel_id: 1, rules: vec![group_rule("restricted", true, true, 0, speak)] },
    ]
}

#[test]
fn deny_at_child_beats_allow_at_root() {
    let channels = tree(true);
    let acls = speak_rules();
    let passwords: Vec<String> = Vec::new();
    let q = query_in_groups(&["all", "restricted"]);
    assert!(!has_permission(&channels, &acls, 1, None, &passwords, &q, ACLPermissions::Speak));
    assert_eq!(
        evaluate_permission(&channels, &acls, 1, None, &passwords, &q, ACLPermissions::Speak),
        PermissionResolution::Denied
    );
    // the sibling lacks the deny rule, so the root's allow wins there
    assert!(has_permission(&channels, &acls, 2, None, &passwords, &q, ACLPermissions::Speak));
}

#[test]
fn unrestricted_client_is_allowed_in_the_child() {
    let channels = tree(true);
    let acls = speak_rules();
    let passwords: Vec<String> = Vec::new();
    let q = query_in_groups(&["all"]);
    assert!(has_permission(&channels, &acls, 1, None, &passwords, &q, ACLPermissions::Speak));
}

#[test]
fn cutting_inheritance_leaves_the_bit_unset() {
    let channels = tree(false);
    // only the root carries rules; the child inherits nothing
    let speak = ACLPermissions::Speak.mask();
    let acls = vec![ChannelAcls {
        channel_id: 0,
        rules: vec![group_rule("all", true, true, speak, 0)],
    }];
    let passwords: Vec<String> = Vec::new();
    let q = query_in_groups(&["all"]);
    assert_eq!(
        evaluate_permission(&channels, &acls, 1, None, &passwords, &q, ACLPermissions::Speak),
        PermissionResolution::Unset
    );
    assert!(!has_permission(&channels, &acls, 1, None, &passwords, &q, ACLPermissions::Speak));
    // the root itself still resolves
    assert!(has_permission(&channels, &acls, 0, None, &passwords, &q, ACLPermissions::Speak));
}

#[test]
fn root_only_permission_resolves_from_the_root_alone() {
    let channels = tree(true);
    let kick = ACLPermissions::Kick.mask();
    let acls = vec![
        ChannelAcls { channel_id: 0, rules: vec![group_rule("mods", true, false, kick, 0)] },
        // a kick rule on the child must not matter
        ChannelAcls { channel_id: 1, rules: vec![group_rule("mods", true, true, 0, kick)] },
    ];
    let passwords: Vec<String> = Vec::new();
    let q = query_in_groups(&["mods"]);
    assert!(has_permission(&channels, &acls, 1, None, &passwords, &q, ACLPermissions::Kick));
    assert!(has_permission(&channels, &acls, 0, None, &passwords, &q, ACLPermissions::Kick));
}

#[test]
fn user_rules_match_by_exact_id() {
    let channels = tree(true);
    let speak = ACLPermissions::Speak.mask();
    let mut rule = ACL::new();
    rule.user_id = Some(7);
    rule.apply_here = true;
    rule.apply_subs = true;
    rule.allow = speak;
    let acls = vec![ChannelAcls { channel_id: 0, rules: vec![rule] }];
    let passwords: Vec<String> = Vec::new();
    let q = query_in_groups(&[]);
    assert!(has_permission(&channels, &acls, 1, Some(7), &passwords, &q, ACLPermissions::Speak));
    assert!(!has_permission(&channels, &acls, 1, Some(8), &passwords, &q, ACLPermissions::Speak));
    assert!(!has_permission(&channels, &acls, 1, None, &passwords, &q, ACLPermissions::Speak));
}

#[test]
fn rule_scope_flags_control_reach() {
    let channels = tree(true);
    let speak = ACLPermissions::Speak.mask();
    // applies at the root only, not to descendants
    let acls = vec![ChannelAcls {
        channel_id: 0,
        rules: vec![group_rule("all", true, false, speak, 0)],
    }];
    let passwords: Vec<String> = Vec::new();
    let q = query_in_groups(&["all"]);
    assert!(has_permission(&channels, &acls, 0, None, &passwords, &q, ACLPermissions::Speak));
    assert!(!has_permission(&channels, &acls, 1, None, &passwords, &q, ACLPermissions::Speak));
}

#[test]
fn acl_rule_helpers() {
    let mut rule = ACL::new();
    assert!(rule.is_channel_acl());
    assert!(!rule.is_user_acl());
    assert!(!rule.match_user(3));
    rule.user_id = Some(3);
    assert!(rule.is_user_acl());
    assert!(rule.match_user(3));
    assert!(!rule.match_user(4));
    let passwords: Vec<String> = Vec::new();
    let q = query_in_groups(&["ops"]);
    let grouped = group_rule("ops", true, true, 1, 0);
    assert!(grouped.match_group(0, None, &passwords, &q));
    assert!(!ACL::new().match_group(0, None, &passwords, &q));
}
