//! Registered-user data attached to a session.

use vstd::prelude::*;

verus! {

/// Group and token membership of a registered user.
#[derive(Debug)]
pub struct UserInfo {
    groups: Vec<String>,
    tokens: Vec<String>,
    display_name: Option<String>,
}

/// Extended account data, synchronized separately.
#[derive(Debug)]
pub struct UserInfoExtended {
    /// The account name.
    pub username: String,
    /// The account password, when one is set.
    pub password: Option<String>,
}

impl UserInfo {
    /// The user's groups.
    pub closed spec fn spec_groups(self) -> Seq<String> {
        self.groups@
    }

    /// The user's access tokens.
    pub closed spec fn spec_tokens(self) -> Seq<String> {
        self.tokens@
    }

    /// The user's display name.
    pub closed spec fn spec_display_name(self) -> Option<String> {
        self.display_name
    }

    /// Assemble the user data.
    pub fn new(groups: Vec<String>, tokens: Vec<String>, display_name: Option<String>) -> (r:
        UserInfo)
        ensures
            r.spec_groups() == groups@,
            r.spec_tokens() == tokens@,
            r.spec_display_name() == display_name,
    {
        UserInfo { groups, tokens, display_name }
    }

    /// The groups, shared.
    pub fn get_groups(&self) -> (r: &Vec<String>)
        ensures
            r@ == self.spec_groups(),
    {
        &self.groups
    }

    /// The groups, for editing.
    pub fn get_groups_mut(&mut self) -> (r: &mut Vec<String>)
        ensures
            r@ == old(self).spec_groups(),
            final(self).spec_groups() == final(r)@,
            final(self).spec_tokens() == old(self).spec_tokens(),
            final(self).spec_display_name() == old(self).spec_display_name(),
    {
        &mut self.groups
    }

    /// Does the user belong to `group`, by exact name equality?
    pub fn has_group(&self, group: &str) -> (r: bool)
        ensures
            r == exists|i: int|
                0 <= i < self.spec_groups().len() && self.spec_groups()[i]@ == group@,
    {
        let n = self.groups.len();
        let mut i: usize = 0;
        while i < n
            invariant
                0 <= i <= n,
                n == self.groups@.len(),
                forall|j: int| 0 <= j < i ==> self.groups@[j]@ != group@,
            decreases n - i,
        {
            if str_eq(self.groups[i].as_str(), group) {
                proof {
                    assert(self.spec_groups()[i as int]@ == group@);
                }
                return true;
            }
            i += 1;
        }
        false
    }

    /// The tokens, shared.
    pub fn get_tokens(&self) -> (r: &Vec<String>)
        ensures
            r@ == self.spec_tokens(),
    {
        &self.tokens
    }

    /// Does the user hold `token`, by exact equality?
    pub fn has_token(&self, token: &str) -> (r: bool)
        ensures
            r == exists|i: int|
                0 <= i < self.spec_tokens().len() && self.spec_tokens()[i]@ == token@,
    {
        let n = self.tokens.len();
        let mut i: usize = 0;
        while i < n
            invariant
                0 <= i <= n,
                n == self.tokens@.len(),
                forall|j: int| 0 <= j < i ==> self.tokens@[j]@ != token@,
            decreases n - i,
        {
            if str_eq(self.tokens[i].as_str(), token) {
                proof {
                    assert(self.spec_tokens()[i as int]@ == token@);
                }
                return true;
            }
            i += 1;
        }
        false
    }

    /// The display name, shared.
    pub fn get_display_name(&self) -> (r: &Option<String>)
        ensures
            *r == self.spec_display_name(),
    {
        &self.display_name
    }
}

/// Exact equality of two texts, character for character.
pub fn str_eq(a: &str, b: &str) -> (r: bool)
    ensures
        r == (a@ == b@),
{
    let ca = crate::text::chars_of(a);
    let cb = crate::text::chars_of(b);
    if ca.len() != cb.len() {
        proof {
            assert(a@ != b@);
        }
        return false;
    }
    let n = ca.len();
    let mut i: usize = 0;
    while i < n
        invariant
            0 <= i <= n,
            n == a@.len() && n == b@.len(),
            ca@ == a@ && cb@ == b@,
            forall|j: int| 0 <= j < i ==> a@[j] == b@[j],
        decreases n - i,
    {
        if ca[i] != cb[i] {
            proof {
                assert(a@ != b@);
            }
            return false;
        }
        i += 1;
    }
    proof {
        assert(a@ =~= b@);
    }
    true
}

} // verus!
