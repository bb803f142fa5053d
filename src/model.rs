use vstd::prelude::*;

verus! {

/// A verified claim set about the caller, as handed over by the identity
/// provider after login.
pub struct Identity {
    pub subject: String,
    pub issuer: String,
    pub email: Option<String>,
    pub name: Option<String>,
    pub given_name: Option<String>,
    pub family_name: Option<String>,
    pub picture: Option<String>,
}

/// One local user, keyed by its surrogate id; `oidc_sub` is unique.
pub struct UserRecord {
    pub id: i32,
    pub oidc_sub: String,
    pub oidc_issuer: String,
    pub email: String,
    pub name: Option<String>,
    pub given_name: Option<String>,
    pub family_name: Option<String>,
    pub picture: Option<String>,
    pub created_at: i64,
    pub updated_at: i64,
}

/// One hackathon (tenant). Dates are seconds since the Unix epoch.
pub struct Hackathon {
    pub id: i32,
    pub name: String,
    pub slug: String,
    pub description: Option<String>,
    pub start_date: i64,
    pub end_date: i64,
    pub is_active: bool,
    pub created_at: i64,
    pub updated_at: i64,
}

/// A stored role of one user within one hackathon.
pub struct RoleAssignment {
    pub id: i32,
    pub user_id: i32,
    pub hackathon_id: i32,
    pub role: String,
}

/// Why a request is turned away.
#[derive(Clone, Copy, Debug, PartialEq, Eq, Structural)]
pub enum AuthError {
    Unauthenticated,
    NotFound,
    Forbidden,
    Conflict,
    Internal,
}

/// A failure of the backing store during a lookup or an insert.
#[derive(Clone, Copy, Debug, PartialEq, Eq, Structural)]
pub struct StoreFault;

pub open spec fn status_of(e: AuthError) -> u16 {
    match e {
        AuthError::Unauthenticated => 401,
        AuthError::NotFound => 404,
        AuthError::Forbidden => 403,
        AuthError::Conflict => 400,
        AuthError::Internal => 500,
    }
}

impl AuthError {
    /// The HTTP status code that answers this rejection.
    pub fn status_code(&self) -> (r: u16)
        ensures
            r == status_of(*self),
    {
        match self {
            AuthError::Unauthenticated => 401,
            AuthError::NotFound => 404,
            AuthError::Forbidden => 403,
            AuthError::Conflict => 400,
            AuthError::Internal => 500,
        }
    }
}

/// A copy of an optional string, equal to it.
pub fn copy_opt(o: &Option<String>) -> (r: Option<String>)
    ensures
        r == *o,
{
    match o {
        Some(s) => Some(s.clone()),
        None => None,
    }
}

impl UserRecord {
    pub fn copy(&self) -> (r: UserRecord)
        ensures
            r == *self,
    {
        UserRecord {
            id: self.id,
            oidc_sub: self.oidc_sub.clone(),
            oidc_issuer: self.oidc_issuer.clone(),
            email: self.email.clone(),
            name: copy_opt(&self.name),
            given_name: copy_opt(&self.given_name),
            family_name: copy_opt(&self.family_name),
            picture: copy_opt(&self.picture),
            created_at: self.created_at,
            updated_at: self.updated_at,
        }
    }
}

impl Hackathon {
    pub fn copy(&self) -> (r: Hackathon)
        ensures
            r == *self,
    {
        Hackathon {
            id: self.id,
            name: self.name.clone(),
            slug: self.slug.clone(),
            description: copy_opt(&self.description),
            start_date: self.start_date,
            end_date: self.end_date,
            is_active: self.is_active,
            created_at: self.created_at,
            updated_at: self.updated_at,
        }
    }
}

impl RoleAssignment {
    pub fn copy(&self) -> (r: RoleAssignment)
        ensures
            r == *self,
    {
        RoleAssignment {
            id: self.id,
            user_id: self.user_id,
            hackathon_id: self.hackathon_id,
            role: self.role.clone(),
        }
    }
}

} // verus!
