//! The textual group-match language used by ACL rules.
//!
//! A group reference is parsed once into a [`GroupExpression`] and then
//! evaluated against a client's attributes.  Leading `!` (invert) and `~`
//! (evaluate against the target channel) modifiers may repeat in any
//! order; the first other character selects the form: `#` token matches,
//! `$` a certificate-hash match, `%` an IP/ASN/country match, anything
//! else a named-group membership test.  A reference that fails to parse
//! evaluates to "never match", but the invert modifier still applies to
//! that result.

use vstd::prelude::*;
use vstd::string::StrSliceExecFns;
use vstd::string::StringExecFns;
use crate::net::{
    CidrBlock,
    IpAddress,
    cidr_contains,
    cidr_from_str,
    ip_from_str,
    parsed_cidr,
    parsed_ip,
};
use crate::text::{
    bytes_eq,
    chars_of,
    fold_eq_str,
    folded,
    hex_decode,
    hex_decoded,
    loose_eq,
    loose_eq_str,
    parse_u32_chars,
    parsed_u32,
};

verus! {

/// Which credential set a token expression matches against.
#[derive(Debug, Clone, PartialEq)]
pub enum TokenMatchKind {
    /// `#name`: a join password (loosely) or an access token (exactly).
    All(String),
    /// `#$name`: join passwords only, loosely.
    ChannelPassword(String),
    /// `#@name`: access tokens only, exactly.
    UserAccessToken(String),
}

/// Which network attribute an IP-mask expression tests.
#[derive(Debug, Clone, PartialEq)]
pub enum IpMaskKind {
    /// `%address`: exact equality with the client's IP address.
    FullMatch(IpAddress),
    /// `%!cidr`: the client's IP address falls inside the block.
    Cidr(CidrBlock),
    /// `%@number`: the client's autonomous-system number.
    Asn(u32),
    /// `%#code`: the client's country code, case-insensitively.
    CountryCode(String),
}

/// The base predicate of a parsed group reference, before modifiers.
#[derive(Debug, Clone, PartialEq)]
pub enum GroupMatchKind {
    /// Matches every client.
    All,
    /// Matches no client; also the result of an unparseable reference.
    Never,
    /// The client has authenticated.
    Authenticated,
    /// The client presented a verified certificate chain.
    HasVerifiedCertificateChain,
    /// The client's certificate fingerprint equals these bytes.
    CertificateHash(Vec<u8>),
    /// The effective channel equals this id.
    InChannel(u32),
    /// The effective channel differs from this id.
    OutOfChannel(u32),
    /// One of the client's groups equals this name, trimmed and
    /// case-insensitively.
    ClientGroup(String),
    /// A token match.
    Token(TokenMatchKind),
    /// A network-attribute match.
    IpMask(IpMaskKind),
}

/// A parsed group reference: the base predicate and the two independent
/// modifier flags.
#[derive(Debug, Clone, PartialEq)]
pub struct GroupExpression {
    /// The base predicate.
    pub kind: GroupMatchKind,
    /// Negate the result, whatever the base predicate yielded.
    pub invert: bool,
    /// Evaluate against the target channel instead of the current one.
    pub use_target_channel: bool,
}

/// The client attributes a group reference is evaluated against.
#[derive(Debug, Clone)]
pub struct ClientMembershipQuery {
    /// The names of the groups the client belongs to.
    pub groups: Vec<String>,
    /// The client has authenticated.
    pub authenticated: bool,
    /// The client's access tokens.
    pub access_tokens: Vec<String>,
    /// The client's certificate fingerprint, if it presented one.
    pub cert_hash: Option<Vec<u8>>,
    /// The client presented a verified certificate chain.
    pub has_verified_cert_chain: bool,
    /// The client's IP address, when known.
    pub ip_address: Option<IpAddress>,
    /// The autonomous-system number resolved for that address.
    pub asn: Option<u32>,
    /// The country code resolved for that address.
    pub country_code: Option<String>,
}

/// A modifier character: `!` inverts, `~` selects the target channel.
pub open spec fn is_modifier_char(c: char) -> bool {
    c == '!' || c == '~'
}

/// How many leading modifier characters `s` carries.
pub open spec fn modifier_len(s: Seq<char>) -> int
    decreases s.len(),
{
    if s.len() > 0 && is_modifier_char(s[0]) {
        1 + modifier_len(s.drop_first())
    } else {
        0
    }
}

/// The modifier prefix contains `!`.
pub open spec fn spec_invert(s: Seq<char>) -> bool {
    exists|j: int| 0 <= j < modifier_len(s) && s[j] == '!'
}

/// The modifier prefix contains `~`.
pub open spec fn spec_use_target(s: Seq<char>) -> bool {
    exists|j: int| 0 <= j < modifier_len(s) && s[j] == '~'
}

/// The reference with its modifier prefix removed.
pub open spec fn match_body(s: Seq<char>) -> Seq<char> {
    s.skip(modifier_len(s))
}

/// The channel a rule is evaluated against: the target channel when the
/// expression asks for it and one was supplied, else the current channel.
pub open spec fn spec_effective_channel(
    current: u32,
    target: Option<u32>,
    use_target: bool,
) -> u32 {
    if use_target {
        match target {
            Some(t) => t,
            None => current,
        }
    } else {
        current
    }
}

/// Some group of the client equals `name`, trimmed and case-insensitively.
pub open spec fn spec_group_name_match(name: Seq<char>, q: ClientMembershipQuery) -> bool {
    exists|i: int| 0 <= i < q.groups@.len() && loose_eq(q.groups@[i]@, name)
}

/// Some supplied join password equals `tok`, trimmed and
/// case-insensitively.
pub open spec fn spec_password_match(tok: Seq<char>, passwords: Seq<String>) -> bool {
    exists|i: int| 0 <= i < passwords.len() && loose_eq(passwords[i]@, tok)
}

/// Some access token of the client equals `tok` exactly.
pub open spec fn spec_access_token_match(tok: Seq<char>, q: ClientMembershipQuery) -> bool {
    exists|i: int| 0 <= i < q.access_tokens@.len() && q.access_tokens@[i]@ == tok
}

/// A `#` token body matches: `@` restricts to access tokens, `$` to join
/// passwords, anything else tries both; an empty body never matches.
pub open spec fn spec_token_match(
    t: Seq<char>,
    passwords: Seq<String>,
    q: ClientMembershipQuery,
) -> bool {
    if t.len() == 0 {
        false
    } else if t[0] == '@' {
        spec_access_token_match(t.skip(1), q)
    } else if t[0] == '$' {
        spec_password_match(t.skip(1), passwords)
    } else {
        spec_password_match(t, passwords) || spec_access_token_match(t, q)
    }
}

/// A `$` certificate-hash body matches: the hex-decoded bytes equal the
/// client's fingerprint; unparseable hex never matches.
pub open spec fn spec_cert_hash_match(h: Seq<char>, q: ClientMembershipQuery) -> bool {
    match hex_decoded(h) {
        Some(bytes) => match q.cert_hash {
            Some(ch) => ch@ == bytes,
            None => false,
        },
        None => false,
    }
}

/// A `%` IP-mask body matches; unparseable numbers, blocks and addresses
/// never match.
pub open spec fn spec_ip_mask_match(m: Seq<char>, q: ClientMembershipQuery) -> bool {
    if m.len() > 0 && m[0] == '#' {
        match q.country_code {
            Some(cc) => folded(cc@) == folded(m.skip(1)),
            None => false,
        }
    } else if m.len() > 0 && m[0] == '@' {
        match parsed_u32(m.skip(1)) {
            Some(n) => q.asn == Some(n),
            None => false,
        }
    } else if m.len() > 0 && m[0] == '!' {
        match parsed_cidr(m.skip(1)) {
            Some(c) => match q.ip_address {
                Some(a) => cidr_contains(c, a),
                None => false,
            },
            None => false,
        }
    } else {
        match parsed_ip(m) {
            Some(ip) => q.ip_address == Some(ip),
            None => false,
        }
    }
}

/// The base match of a reference body, before the invert modifier.
pub open spec fn spec_base_match(
    body: Seq<char>,
    passwords: Seq<String>,
    q: ClientMembershipQuery,
) -> bool {
    if body.len() > 0 && body[0] == '#' {
        spec_token_match(body.skip(1), passwords, q)
    } else if body.len() > 0 && body[0] == '$' {
        spec_cert_hash_match(body.skip(1), q)
    } else if body.len() > 0 && body[0] == '%' {
        spec_ip_mask_match(body.skip(1), q)
    } else {
        spec_group_name_match(body, q)
    }
}

/// Whether the client `q` is a member of the group reference `s`.
///
/// The invert modifier applies unconditionally, also over the
/// never-match result of an unparseable reference.  No surface syntax
/// reaches the in/out-of-channel forms, so the channel arguments do not
/// influence this string-level result; they are selected by the `~`
/// modifier only once such an expression exists.
pub open spec fn spec_is_member(
    s: Seq<char>,
    current: u32,
    target: Option<u32>,
    passwords: Seq<String>,
    q: ClientMembershipQuery,
) -> bool {
    if spec_invert(s) {
        !spec_base_match(match_body(s), passwords, q)
    } else {
        spec_base_match(match_body(s), passwords, q)
    }
}

/// The base predicate the body parses to.
pub open spec fn kind_parses_to(body: Seq<char>, k: GroupMatchKind) -> bool {
    if body.len() > 0 && body[0] == '#' {
        token_parses_to(body.skip(1), k)
    } else if body.len() > 0 && body[0] == '$' {
        match hex_decoded(body.skip(1)) {
            Some(h) => k matches GroupMatchKind::CertificateHash(v) && v@ == h,
            None => k == GroupMatchKind::Never,
        }
    } else if body.len() > 0 && body[0] == '%' {
        mask_parses_to(body.skip(1), k)
    } else {
        k matches GroupMatchKind::ClientGroup(g) && g@ == body
    }
}

/// The base predicate a `#` token body parses to.
pub open spec fn token_parses_to(t: Seq<char>, k: GroupMatchKind) -> bool {
    if t.len() == 0 {
        k == GroupMatchKind::Never
    } else if t[0] == '@' {
        k matches GroupMatchKind::Token(TokenMatchKind::UserAccessToken(x)) && x@ == t.skip(1)
    } else if t[0] == '$' {
        k matches GroupMatchKind::Token(TokenMatchKind::ChannelPassword(x)) && x@ == t.skip(1)
    } else {
        k matches GroupMatchKind::Token(TokenMatchKind::All(x)) && x@ == t
    }
}

/// The base predicate a `%` IP-mask body parses to.
pub open spec fn mask_parses_to(m: Seq<char>, k: GroupMatchKind) -> bool {
    if m.len() > 0 && m[0] == '#' {
        k matches GroupMatchKind::IpMask(IpMaskKind::CountryCode(x)) && x@ == m.skip(1)
    } else if m.len() > 0 && m[0] == '@' {
        match parsed_u32(m.skip(1)) {
            Some(n) => k == GroupMatchKind::IpMask(IpMaskKind::Asn(n)),
            None => k == GroupMatchKind::Never,
        }
    } else if m.len() > 0 && m[0] == '!' {
        match parsed_cidr(m.skip(1)) {
            Some(c) => k == GroupMatchKind::IpMask(IpMaskKind::Cidr(c)),
            None => k == GroupMatchKind::Never,
        }
    } else {
        match parsed_ip(m) {
            Some(ip) => k == GroupMatchKind::IpMask(IpMaskKind::FullMatch(ip)),
            None => k == GroupMatchKind::Never,
        }
    }
}

/// The expression `e` is the parse of the reference `s`.
pub open spec fn parses_to(s: Seq<char>, e: GroupExpression) -> bool {
    &&& e.invert == spec_invert(s)
    &&& e.use_target_channel == spec_use_target(s)
    &&& kind_parses_to(match_body(s), e.kind)
}

/// The base predicate `k`, evaluated against a client.
pub open spec fn spec_kind_matches(
    k: GroupMatchKind,
    channel_id: u32,
    passwords: Seq<String>,
    q: ClientMembershipQuery,
) -> bool {
    match k {
        GroupMatchKind::All => true,
        GroupMatchKind::Never => false,
        GroupMatchKind::Authenticated => q.authenticated,
        GroupMatchKind::HasVerifiedCertificateChain => q.has_verified_cert_chain,
        GroupMatchKind::CertificateHash(h) => match q.cert_hash {
            Some(ch) => ch@ == h@,
            None => false,
        },
        GroupMatchKind::InChannel(c) => channel_id == c,
        GroupMatchKind::OutOfChannel(c) => channel_id != c,
        GroupMatchKind::ClientGroup(name) => spec_group_name_match(name@, q),
        GroupMatchKind::Token(tk) => match tk {
            TokenMatchKind::All(x) => spec_password_match(x@, passwords)
                || spec_access_token_match(x@, q),
            TokenMatchKind::ChannelPassword(x) => spec_password_match(x@, passwords),
            TokenMatchKind::UserAccessToken(x) => spec_access_token_match(x@, q),
        },
        GroupMatchKind::IpMask(mk) => match mk {
            IpMaskKind::FullMatch(ip) => q.ip_address == Some(ip),
            IpMaskKind::Cidr(c) => match q.ip_address {
                Some(a) => cidr_contains(c, a),
                None => false,
            },
            IpMaskKind::Asn(n) => q.asn == Some(n),
            IpMaskKind::CountryCode(cc) => match q.country_code {
                Some(qc) => folded(qc@) == folded(cc@),
                None => false,
            },
        },
    }
}

/// The expression `e`, evaluated against a client: the base predicate over
/// the effective channel, then the invert modifier.
pub open spec fn spec_expr_matches(
    e: GroupExpression,
    current: u32,
    target: Option<u32>,
    passwords: Seq<String>,
    q: ClientMembershipQuery,
) -> bool {
    if e.invert {
        !spec_kind_matches(
            e.kind,
            spec_effective_channel(current, target, e.use_target_channel),
            passwords,
            q,
        )
    } else {
        spec_kind_matches(
            e.kind,
            spec_effective_channel(current, target, e.use_target_channel),
            passwords,
            q,
        )
    }
}

/// A maximal run of modifier characters has exactly the length
/// `modifier_len` gives.
proof fn lemma_modifier_prefix(s: Seq<char>, i: int)
    requires
        0 <= i <= s.len(),
        forall|j: int| 0 <= j < i ==> is_modifier_char(s[j]),
        i < s.len() ==> !is_modifier_char(s[i]),
    ensures
        modifier_len(s) == i,
    decreases i,
{
    if i > 0 {
        assert(s.drop_first() =~= s.skip(1));
        lemma_modifier_prefix(s.skip(1), i - 1);
    }
}

/// Parsing and evaluating an expression agrees with the direct
/// string-level membership predicate.
proof fn lemma_parse_eval_agree(
    s: Seq<char>,
    e: GroupExpression,
    current: u32,
    target: Option<u32>,
    passwords: Seq<String>,
    q: ClientMembershipQuery,
)
    requires
        parses_to(s, e),
    ensures
        spec_expr_matches(e, current, target, passwords, q) == spec_is_member(
            s,
            current,
            target,
            passwords,
            q,
        ),
{
    let body = match_body(s);
    let chan = spec_effective_channel(current, target, e.use_target_channel);
    assert(spec_kind_matches(e.kind, chan, passwords, q) == spec_base_match(body, passwords, q));
}

/// An unparseable reference never matches by itself, but the invert
/// modifier applies even over that result: an inverted reference whose
/// body parses to nothing matches every client.
pub proof fn lemma_invert_over_never_match(
    s: Seq<char>,
    current: u32,
    target: Option<u32>,
    passwords: Seq<String>,
    q: ClientMembershipQuery,
)
    requires
        spec_invert(s),
        kind_parses_to(match_body(s), GroupMatchKind::Never),
    ensures
        spec_is_member(s, current, target, passwords, q),
{
    let e = GroupExpression {
        kind: GroupMatchKind::Never,
        invert: true,
        use_target_channel: spec_use_target(s),
    };
    lemma_parse_eval_agree(s, e, current, target, passwords, q);
}

/// The two scoped token forms consult one credential set each: the
/// password form sees the supplied join passwords alone, whatever
/// access tokens the client holds, and the access-token form sees the
/// client's tokens alone, whatever join passwords were supplied.
pub proof fn lemma_token_form_scope(
    s: Seq<char>,
    current: u32,
    target: Option<u32>,
    passwords: Seq<String>,
    q: ClientMembershipQuery,
)
    requires
        !spec_invert(s),
        match_body(s).len() >= 2,
        match_body(s)[0] == '#',
    ensures
        match_body(s)[1] == '$' ==> spec_is_member(s, current, target, passwords, q)
            == spec_password_match(match_body(s).skip(2), passwords),
        match_body(s)[1] == '@' ==> spec_is_member(s, current, target, passwords, q)
            == spec_access_token_match(match_body(s).skip(2), q),
{
    let body = match_body(s);
    assert(body.skip(1)[0] == body[1]);
    assert(body.skip(1).skip(1) =~= body.skip(2));
}

impl GroupExpression {
    /// Parse a group reference.  Parsing never fails: an unparseable
    /// reference yields the never-match predicate, with the modifiers
    /// still applied.
    pub fn parse(group: &str) -> (e: GroupExpression)
        ensures
            parses_to(group@, e),
    {
        let ghost s = group@;
        let n = group.unicode_len();
        let mut i: usize = 0;
        let mut invert = false;
        let mut use_target = false;
        while i < n
            invariant_except_break
                0 <= i <= n,
                n == s.len(),
                s == group@,
                forall|j: int| 0 <= j < i ==> is_modifier_char(s[j]),
                invert == exists|j: int| 0 <= j < i && s[j] == '!',
                use_target == exists|j: int| 0 <= j < i && s[j] == '~',
            ensures
                0 <= i <= n,
                n == s.len(),
                s == group@,
                forall|j: int| 0 <= j < i ==> is_modifier_char(s[j]),
                invert == exists|j: int| 0 <= j < i && s[j] == '!',
                use_target == exists|j: int| 0 <= j < i && s[j] == '~',
                i < n ==> !is_modifier_char(s[i as int]),
            decreases n - i,
        {
            let c = group.get_char(i);
            if c == '!' {
                invert = true;
                i += 1;
            } else if c == '~' {
                use_target = true;
                i += 1;
            } else {
                break ;
            }
        }
        proof {
            lemma_modifier_prefix(s, i as int);
        }
        let ghost body = match_body(s);
        proof {
            assert(body =~= s.skip(i as int));
        }
        let kind = Self::parse_kind(group, i, n, Ghost(body));
        GroupExpression { kind, invert, use_target_channel: use_target }
    }

    /// Parse the body of a reference, after the modifier prefix.
    fn parse_kind(group: &str, i: usize, n: usize, Ghost(body): Ghost<Seq<char>>) -> (k:
        GroupMatchKind)
        requires
            i <= n,
            n == group@.len(),
            body == group@.skip(i as int),
        ensures
            kind_parses_to(body, k),
    {
        if i == n {
            let g = String::new();
            proof {
                assert(body =~= Seq::<char>::empty());
                assert(g@ =~= body);
            }
            return GroupMatchKind::ClientGroup(g);
        }
        let c0 = group.get_char(i);
        proof {
            assert(body[0] == c0);
        }
        if c0 == '#' {
            let ghost t = body.skip(1);
            proof {
                assert(t =~= group@.skip(i + 1));
            }
            if i + 1 == n {
                proof {
                    assert(t.len() == 0);
                }
                return GroupMatchKind::Never;
            }
            let c1 = group.get_char(i + 1);
            proof {
                assert(t[0] == c1);
            }
            if c1 == '@' {
                let x = String::from_str(group.substring_char(i + 2, n));
                proof {
                    assert(x@ =~= t.skip(1));
                }
                GroupMatchKind::Token(TokenMatchKind::UserAccessToken(x))
            } else if c1 == '$' {
                let x = String::from_str(group.substring_char(i + 2, n));
                proof {
                    assert(x@ =~= t.skip(1));
                }
                GroupMatchKind::Token(TokenMatchKind::ChannelPassword(x))
            } else {
                let x = String::from_str(group.substring_char(i + 1, n));
                proof {
                    assert(x@ =~= t);
                }
                GroupMatchKind::Token(TokenMatchKind::All(x))
            }
        } else if c0 == '$' {
            let rest = group.substring_char(i + 1, n);
            proof {
                assert(rest@ =~= body.skip(1));
            }
            match hex_decode(rest) {
                Some(h) => GroupMatchKind::CertificateHash(h),
                None => GroupMatchKind::Never,
            }
        } else if c0 == '%' {
            let ghost m = body.skip(1);
            proof {
                assert(m =~= group@.skip(i + 1));
            }
            if i + 1 < n && group.get_char(i + 1) == '#' {
                proof {
                    assert(m[0] == '#');
                }
                let x = String::from_str(group.substring_char(i + 2, n));
                proof {
                    assert(x@ =~= m.skip(1));
                }
                GroupMatchKind::IpMask(IpMaskKind::CountryCode(x))
            } else if i + 1 < n && group.get_char(i + 1) == '@' {
                proof {
                    assert(m[0] == '@');
                }
                let rest = group.substring_char(i + 2, n);
                proof {
                    assert(rest@ =~= m.skip(1));
                }
                let digits = chars_of(rest);
                match parse_u32_chars(&digits) {
                    Some(asn) => GroupMatchKind::IpMask(IpMaskKind::Asn(asn)),
                    None => GroupMatchKind::Never,
                }
            } else if i + 1 < n && group.get_char(i + 1) == '!' {
                proof {
                    assert(m[0] == '!');
                }
                let rest = group.substring_char(i + 2, n);
                proof {
                    assert(rest@ =~= m.skip(1));
                }
                match cidr_from_str(rest) {
                    Some(c) => GroupMatchKind::IpMask(IpMaskKind::Cidr(c)),
                    None => GroupMatchKind::Never,
                }
            } else {
                proof {
                    if m.len() > 0 {
                        assert(m[0] != '#' && m[0] != '@' && m[0] != '!');
                    }
                }
                let rest = group.substring_char(i + 1, n);
                proof {
                    assert(rest@ =~= m);
                }
                match ip_from_str(rest) {
                    Some(ip) => GroupMatchKind::IpMask(IpMaskKind::FullMatch(ip)),
                    None => GroupMatchKind::Never,
                }
            }
        } else {
            let x = String::from_str(group.substring_char(i, n));
            proof {
                assert(x@ =~= body);
            }
            GroupMatchKind::ClientGroup(x)
        }
    }

    /// Evaluate the expression against a client: compute the base match
    /// over the effective channel, then apply the invert modifier.
    pub fn evaluate(
        &self,
        current_channel_id: u32,
        target_channel_id: Option<u32>,
        join_passwords: &Vec<String>,
        client: &ClientMembershipQuery,
    ) -> (r: bool)
        ensures
            r == spec_expr_matches(
                *self,
                current_channel_id,
                target_channel_id,
                join_passwords@,
                *client,
            ),
    {
        let channel_id = if self.use_target_channel {
            match target_channel_id {
                Some(id) => id,
                None => current_channel_id,
            }
        } else {
            current_channel_id
        };
        let base = match &self.kind {
            GroupMatchKind::All => true,
            GroupMatchKind::Never => false,
            GroupMatchKind::Authenticated => client.authenticated,
            GroupMatchKind::HasVerifiedCertificateChain => client.has_verified_cert_chain,
            GroupMatchKind::CertificateHash(h) => match &client.cert_hash {
                Some(ch) => bytes_eq(ch, h),
                None => false,
            },
            GroupMatchKind::InChannel(c) => channel_id == *c,
            GroupMatchKind::OutOfChannel(c) => channel_id != *c,
            GroupMatchKind::ClientGroup(name) => group_name_match(name.as_str(), client),
            GroupMatchKind::Token(tk) => match tk {
                TokenMatchKind::All(x) => password_match(x.as_str(), join_passwords)
                    || access_token_match(x, client),
                TokenMatchKind::ChannelPassword(x) => password_match(x.as_str(), join_passwords),
                TokenMatchKind::UserAccessToken(x) => access_token_match(x, client),
            },
            GroupMatchKind::IpMask(mk) => match mk {
                IpMaskKind::FullMatch(ip) => match &client.ip_address {
                    Some(a) => *a == *ip,
                    None => false,
                },
                IpMaskKind::Cidr(c) => match &client.ip_address {
                    Some(a) => c.contains_ip(a),
                    None => false,
                },
                IpMaskKind::Asn(n) => match client.asn {
                    Some(x) => x == *n,
                    None => false,
                },
                IpMaskKind::CountryCode(cc) => match &client.country_code {
                    Some(qc) => fold_eq_str(qc.as_str(), cc.as_str()),
                    None => false,
                },
            },
        };
        if self.invert {
            !base
        } else {
            base
        }
    }
}

/// Some group of the client loosely equals `name`.
fn group_name_match(name: &str, q: &ClientMembershipQuery) -> (r: bool)
    ensures
        r == spec_group_name_match(name@, *q),
{
    let n = q.groups.len();
    let mut i: usize = 0;
    while i < n
        invariant
            0 <= i <= n,
            n == q.groups@.len(),
            forall|j: int| 0 <= j < i ==> !loose_eq(q.groups@[j]@, name@),
        decreases n - i,
    {
        if loose_eq_str(q.groups[i].as_str(), name) {
            return true;
        }
        i += 1;
    }
    false
}

/// Some supplied join password loosely equals `tok`.
fn password_match(tok: &str, passwords: &Vec<String>) -> (r: bool)
    ensures
        r == spec_password_match(tok@, passwords@),
{
    let n = passwords.len();
    let mut i: usize = 0;
    while i < n
        invariant
            0 <= i <= n,
            n == passwords@.len(),
            forall|j: int| 0 <= j < i ==> !loose_eq(passwords@[j]@, tok@),
        decreases n - i,
    {
        if loose_eq_str(passwords[i].as_str(), tok) {
            return true;
        }
        i += 1;
    }
    false
}

/// Some access token of the client exactly equals `tok`.
fn access_token_match(tok: &String, q: &ClientMembershipQuery) -> (r: bool)
    ensures
        r == spec_access_token_match(tok@, *q),
{
    let n = q.access_tokens.len();
    let mut i: usize = 0;
    while i < n
        invariant
            0 <= i <= n,
            n == q.access_tokens@.len(),
            forall|j: int| 0 <= j < i ==> q.access_tokens@[j]@ != tok@,
        decreases n - i,
    {
        if q.access_tokens[i].eq(tok) {
            return true;
        }
        i += 1;
    }
    false
}

/// Whether the client is a member of the group reference `group`: parse,
/// then evaluate, in one call.
pub fn is_member_in_group(
    group: &str,
    current_channel_id: u32,
    target_channel_id: Option<u32>,
    join_passwords: &Vec<String>,
    client: &ClientMembershipQuery,
) -> (r: bool)
    ensures
        r == spec_is_member(
            group@,
            current_channel_id,
            target_channel_id,
            join_passwords@,
            *client,
        ),
{
    let e = GroupExpression::parse(group);
    proof {
        lemma_parse_eval_agree(
            group@,
            e,
            current_channel_id,
            target_channel_id,
            join_passwords@,
            *client,
        );
    }
    e.evaluate(current_channel_id, target_channel_id, join_passwords, client)
}

} // verus!
