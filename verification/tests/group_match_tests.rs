use chatcore::group_match::{
    ClientMembershipQuery, GroupExpression, GroupMatchKind, is_member_in_group,
};
use chatcore::net::IpAddress;

fn plain_query() -> ClientMembershipQuery {
    ClientMembershipQuery {
        groups: Vec::new(),
        authenticated: false,
        access_tokens: Vec::new(),
        cert_hash: None,
        has_verified_cert_chain: false,
        ip_address: None,
        asn: None,
        country_code: None,
    }
}

#[test]
fn named_group_matches_trimmed_case_insensitively() {
    let mut q = plain_query();
    q.groups = vec!["  Admins ".to_string()];
    let none: Vec<String> = Vec::new();
    assert!(is_member_in_group("admins", 0, None, &none, &q));
    assert!(is_member_in_group(" ADMINS\t", 0, None, &none, &q));
    assert!(!is_member_in_group("users", 0, None, &none, &q));
}

#[test]
fn channel_password_matches_only_join_passwords() {
    let mut q = plain_query();
    q.access_tokens = vec!["secret1".to_string()];
    let with_password = vec!["secret1".to_string()];
    let without: Vec<String> = Vec::new();
    // the password form sees join passwords, not access tokens
    assert!(is_member_in_group("#$secret1", 0, None, &with_password, &plain_query()));
    assert!(!is_member_in_group("#$secret1", 0, None, &without, &q));
}

#[test]
fn access_token_matches_only_tokens() {
    let mut q = plain_query();
    q.access_tokens = vec!["secret1".to_string()];
    let with_password = vec!["secret1".to_string()];
    assert!(is_member_in_group("#@secret1", 0, None, &with_password, &q));
    assert!(!is_member_in_group("#@secret1", 0, None, &with_password, &plain_query()));
}

#[test]
fn bare_token_matches_either_credential() {
    let mut q = plain_query();
    q.access_tokens = vec!["open-sesame".to_string()];
    let none: Vec<String> = Vec::new();
    let password = vec![" OPEN-SESAME ".to_string()];
    // via the access token, exactly
    assert!(is_member_in_group("#open-sesame", 0, None, &none, &q));
    // via the join password, loosely
    assert!(is_member_in_group("#open-sesame", 0, None, &password, &plain_query()));
    assert!(!is_member_in_group("#open-sesame", 0, None, &none, &plain_query()));
}

#[test]
fn access_tokens_compare_exactly() {
    let mut q = plain_query();
    q.access_tokens = vec!["Secret".to_string()];
    let none: Vec<String> = Vec::new();
    assert!(!is_member_in_group("#@secret", 0, None, &none, &q));
    assert!(is_member_in_group("#@Secret", 0, None, &none, &q));
}

#[test]
fn invert_over_unparseable_is_true() {
    let none: Vec<String> = Vec::new();
    let q = plain_query();
    // the hex form fails to parse, so the base never matches; the
    // invert modifier still applies
    assert!(!is_member_in_group("$not-hex!!", 0, None, &none, &q));
    assert!(is_member_in_group("!$not-hex!!", 0, None, &none, &q));
}

#[test]
fn certificate_hash_matches_decoded_hex() {
    let mut q = plain_query();
    q.cert_hash = Some(vec![0xAB, 0xCD, 0xEF]);
    let none: Vec<String> = Vec::new();
    assert!(is_member_in_group("$abcdef", 0, None, &none, &q));
    assert!(is_member_in_group("$ABCDEF", 0, None, &none, &q));
    assert!(!is_member_in_group("$abcdee", 0, None, &none, &q));
    assert!(!is_member_in_group("$abcde", 0, None, &none, &q));
    assert!(!is_member_in_group("$abcdef", 0, None, &none, &plain_query()));
}

#[test]
fn ip_forms_match_the_client_address() {
    let mut q = plain_query();
    q.ip_address = Some(IpAddress::V4(0xC0A80001)); // 192.168.0.1
    let none: Vec<String> = Vec::new();
    assert!(is_member_in_group("%192.168.0.1", 0, None, &none, &q));
    assert!(!is_member_in_group("%192.168.0.2", 0, None, &none, &q));
    assert!(is_member_in_group("%!192.168.0.0/16", 0, None, &none, &q));
    assert!(!is_member_in_group("%!10.0.0.0/8", 0, None, &none, &q));
    // invalid CIDR syntax never matches
    assert!(!is_member_in_group("%!192.168.0.0/99", 0, None, &none, &q));
    assert!(is_member_in_group("!%!192.168.0.0/99", 0, None, &none, &q));
    // unparseable plain address never matches
    assert!(!is_member_in_group("%not.an.ip", 0, None, &none, &q));
}

#[test]
fn asn_and_country_forms() {
    let mut q = plain_query();
    q.asn = Some(64496);
    q.country_code = Some("de".to_string());
    let none: Vec<String> = Vec::new();
    assert!(is_member_in_group("%@64496", 0, None, &none, &q));
    assert!(!is_member_in_group("%@64497", 0, None, &none, &q));
    assert!(!is_member_in_group("%@banana", 0, None, &none, &q));
    assert!(is_member_in_group("%#DE", 0, None, &none, &q));
    assert!(!is_member_in_group("%#fr", 0, None, &none, &q));
}

#[test]
fn modifiers_parse_in_any_order_and_repeat() {
    let e = GroupExpression::parse("!~!admins");
    assert!(e.invert);
    assert!(e.use_target_channel);
    assert!(matches!(e.kind, GroupMatchKind::ClientGroup(ref g) if g == "admins"));
    let e2 = GroupExpression::parse("~speakers");
    assert!(!e2.invert);
    assert!(e2.use_target_channel);
}

#[test]
fn empty_token_reference_never_matches() {
    let none: Vec<String> = Vec::new();
    assert!(!is_member_in_group("#", 0, None, &none, &plain_query()));
    assert!(is_member_in_group("!#", 0, None, &none, &plain_query()));
}
