use vstd::prelude::*;

verus! {

/// Key of the anonymous pseudo-user: a well-known account that unauthenticated activity is
/// attributed to. It is never listed as a real user and never found by external claims.
pub const ANONYMOUS_USER_ID: u64 = 1;

/// Identity claims asserted by the external identity provider.
/// Only `sub` identifies a person reliably; the profile fields may change upstream.
#[derive(Clone, Debug)]
pub struct GoogleClaims {
    pub sub: String,
    pub name: Option<String>,
    pub email: Option<String>,
}

pub struct GoogleClaimsView {
    pub sub: Seq<char>,
    pub name: Option<Seq<char>>,
    pub email: Option<Seq<char>>,
}

pub open spec fn opt_str_view(s: Option<String>) -> Option<Seq<char>> {
    match s {
        Some(v) => Some(v@),
        None => None,
    }
}

pub fn clone_opt_str(s: &Option<String>) -> (r: Option<String>)
    ensures
        opt_str_view(r) == opt_str_view(*s),
{
    match s {
        Some(v) => Some(v.clone()),
        None => None,
    }
}

impl View for GoogleClaims {
    type V = GoogleClaimsView;

    open spec fn view(&self) -> GoogleClaimsView {
        GoogleClaimsView {
            sub: self.sub@,
            name: opt_str_view(self.name),
            email: opt_str_view(self.email),
        }
    }
}

impl GoogleClaims {
    pub fn new(sub: String, name: Option<String>, email: Option<String>) -> (r: GoogleClaims)
        ensures
            r.sub@ == sub@,
            opt_str_view(r.name) == opt_str_view(name),
            opt_str_view(r.email) == opt_str_view(email),
    {
        GoogleClaims { sub, name, email }
    }

    /// A copy with the same view.
    pub fn duplicate(&self) -> (r: GoogleClaims)
        ensures
            r@ == self@,
    {
        GoogleClaims {
            sub: self.sub.clone(),
            name: clone_opt_str(&self.name),
            email: clone_opt_str(&self.email),
        }
    }
}

/// A stored account.
#[derive(Clone, Debug)]
pub struct User {
    pub id: u64,
    pub google: Option<GoogleClaims>,
    pub is_active: bool,
    pub is_admin: bool,
    pub name: Option<String>,
}

pub struct UserView {
    pub id: u64,
    pub google: Option<GoogleClaimsView>,
    pub is_active: bool,
    pub is_admin: bool,
    pub name: Option<Seq<char>>,
}

pub open spec fn opt_claims_view(c: Option<GoogleClaims>) -> Option<GoogleClaimsView> {
    match c {
        Some(v) => Some(v@),
        None => None,
    }
}

impl View for User {
    type V = UserView;

    open spec fn view(&self) -> UserView {
        UserView {
            id: self.id,
            google: opt_claims_view(self.google),
            is_active: self.is_active,
            is_admin: self.is_admin,
            name: opt_str_view(self.name),
        }
    }
}

impl User {
    /// A copy with the same view.
    pub fn duplicate(&self) -> (r: User)
        ensures
            r@ == self@,
    {
        let google = match &self.google {
            Some(c) => Some(c.duplicate()),
            None => None,
        };
        User {
            id: self.id,
            google,
            is_active: self.is_active,
            is_admin: self.is_admin,
            name: clone_opt_str(&self.name),
        }
    }

    pub fn id(&self) -> (r: u64)
        ensures
            r == self.id,
    {
        self.id
    }

    pub fn is_active(&self) -> (r: bool)
        ensures
            r == self.is_active,
    {
        self.is_active
    }

    pub fn is_admin(&self) -> (r: bool)
        ensures
            r == self.is_admin,
    {
        self.is_admin
    }

    pub fn is_anonymous(&self) -> (r: bool)
        ensures
            r == (self.id == ANONYMOUS_USER_ID),
    {
        self.id == ANONYMOUS_USER_ID
    }

    pub fn name(&self) -> (r: Option<String>)
        ensures
            opt_str_view(r) == opt_str_view(self.name),
    {
        clone_opt_str(&self.name)
    }
}

} // verus!
