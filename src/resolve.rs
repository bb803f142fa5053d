use vstd::prelude::*;
use crate::model::{AuthError, Identity, RoleAssignment, StoreFault};
use crate::role::{role_of_text, HackathonRole};
use crate::text::same_text;

verus! {

/// What a locale-independent lowercasing gives for `s`.
pub uninterp spec fn lower_of(s: Seq<char>) -> Seq<char>;

/// Relies on `str::to_lowercase`: the lowercase mapping of every character,
/// which depends on the characters alone; each character maps to one or
/// more characters, so only empty text lowercases to empty text.
#[verifier::external_body]
pub(crate) fn lowercase(s: &str) -> (r: String)
    ensures
        r@ == lower_of(s@),
        r@.len() == 0 <==> s@.len() == 0,
{
    s.to_lowercase()
}

/// The characters of each string of a list.
pub open spec fn texts(v: Seq<String>) -> Seq<Seq<char>> {
    v.map_values(|s: String| s@)
}

/// Whether `list` holds an entry with the characters of `s`.
pub fn contains_text(list: &Vec<String>, s: &str) -> (r: bool)
    ensures
        r == texts(list@).contains(s@),
{
    let mut i: usize = 0;
    while i < list.len()
        invariant
            i <= list@.len(),
            forall|k: int| 0 <= k < i ==> list@[k]@ != s@,
        decreases list@.len() - i,
    {
        if same_text(list[i].as_str(), s) {
            assert(texts(list@)[i as int] == s@);
            return true;
        }
        i = i + 1;
    }
    assert(!texts(list@).contains(s@)) by {
        if texts(list@).contains(s@) {
            let k = choose|k: int| 0 <= k < texts(list@).len() && texts(list@)[k] == s@;
            assert(list@[k]@ == s@);
        }
    }
    false
}

/// The admin set holds an email when it holds its lowercase form.
pub open spec fn admin_email(admins: Seq<String>, email: Seq<char>) -> bool {
    texts(admins).contains(lower_of(email))
}

/// Whether `email` belongs to a global admin; the match ignores case.
pub fn is_global_admin(email: &str, admins: &Vec<String>) -> (r: bool)
    ensures
        r == admin_email(admins@, email@),
{
    let lowered = lowercase(email);
    contains_text(admins, lowered.as_str())
}

/// What a resolved role says, as plain values.
pub ghost struct RoleView {
    pub user_id: i32,
    pub hackathon_id: i32,
    pub role: Seq<char>,
    pub slug: Seq<char>,
}

impl View for HackathonRole {
    type V = RoleView;

    open spec fn view(&self) -> RoleView {
        RoleView {
            user_id: self.user_id,
            hackathon_id: self.hackathon_id,
            role: self.role@,
            slug: self.slug@,
        }
    }
}

pub open spec fn role_result_view(r: Result<HackathonRole, AuthError>) -> Result<RoleView, AuthError> {
    match r {
        Ok(h) => Ok(h@),
        Err(e) => Err(e),
    }
}

/// The resolution rule, given what the store answered: the tenant lookup
/// first, then the admin override, and only for non-admins the stored
/// assignment, whose role must be one of the known spellings.
pub open spec fn role_outcome(
    slug: Seq<char>,
    admin: bool,
    tenant: Result<Option<i32>, StoreFault>,
    user: Result<Option<i32>, StoreFault>,
    assignment: Result<Option<RoleAssignment>, StoreFault>,
) -> Result<RoleView, AuthError> {
    match tenant {
        Err(_) => Err(AuthError::Internal),
        Ok(None) => Err(AuthError::NotFound),
        Ok(Some(h)) => if admin {
            match user {
                Err(_) => Err(AuthError::Internal),
                Ok(None) => Err(AuthError::Unauthenticated),
                Ok(Some(u)) => Ok(RoleView { user_id: u, hackathon_id: h, role: "admin"@, slug }),
            }
        } else {
            match assignment {
                Err(_) => Err(AuthError::Internal),
                Ok(None) => Err(AuthError::Forbidden),
                Ok(Some(a)) => if role_of_text(a.role@) is Some {
                    Ok(
                        RoleView {
                            user_id: a.user_id,
                            hackathon_id: a.hackathon_id,
                            role: a.role@,
                            slug,
                        },
                    )
                } else {
                    Err(AuthError::Forbidden)
                },
            }
        },
    }
}

/// Decides the effective role from the answers of the tenant lookup (by
/// slug), the user lookup (by subject) and the assignment lookup (by both).
/// Lookups that the rule does not reach are ignored.
pub fn decide_role(
    slug: String,
    admin: bool,
    tenant: Result<Option<i32>, StoreFault>,
    user: Result<Option<i32>, StoreFault>,
    assignment: Result<Option<RoleAssignment>, StoreFault>,
) -> (r: Result<HackathonRole, AuthError>)
    ensures
        role_result_view(r) == role_outcome(slug@, admin, tenant, user, assignment),
{
    let hackathon_id = match tenant {
        Err(_) => return Err(AuthError::Internal),
        Ok(None) => return Err(AuthError::NotFound),
        Ok(Some(h)) => h,
    };
    if admin {
        return match user {
            Err(_) => Err(AuthError::Internal),
            Ok(None) => Err(AuthError::Unauthenticated),
            Ok(Some(u)) => Ok(
                HackathonRole { user_id: u, hackathon_id, role: String::from_str("admin"), slug },
            ),
        };
    }
    match assignment {
        Err(_) => Err(AuthError::Internal),
        Ok(None) => Err(AuthError::Forbidden),
        Ok(Some(a)) => {
            if crate::role::Role::parse(a.role.as_str()).is_some() {
                Ok(
                    HackathonRole {
                        user_id: a.user_id,
                        hackathon_id: a.hackathon_id,
                        role: a.role,
                        slug,
                    },
                )
            } else {
                Err(AuthError::Forbidden)
            }
        },
    }
}

/// The caller's email, which every authorization decision needs.
pub open spec fn email_of(identity: Option<&Identity>) -> Option<Seq<char>> {
    match identity {
        Some(i) => match i.email {
            Some(e) => Some(e@),
            None => None,
        },
        None => None,
    }
}

/// Proof that the caller is a global admin, holding their email.
pub struct RequireGlobalAdmin {
    pub email: String,
}

/// Lets through only global admins: no identity or no email is
/// `Unauthenticated`, any other non-admin is `Forbidden`.
pub fn require_global_admin(identity: Option<&Identity>, admins: &Vec<String>) -> (r: Result<
    RequireGlobalAdmin,
    AuthError,
>)
    ensures
        match email_of(identity) {
            None => r == Err::<RequireGlobalAdmin, AuthError>(AuthError::Unauthenticated),
            Some(e) => if admin_email(admins@, e) {
                r is Ok && r->Ok_0.email@ == e
            } else {
                r == Err::<RequireGlobalAdmin, AuthError>(AuthError::Forbidden)
            },
        },
{
    let email = match identity {
        None => return Err(AuthError::Unauthenticated),
        Some(i) => match &i.email {
            None => return Err(AuthError::Unauthenticated),
            Some(e) => e,
        },
    };
    if is_global_admin(email.as_str(), admins) {
        Ok(RequireGlobalAdmin { email: email.clone() })
    } else {
        Err(AuthError::Forbidden)
    }
}

/// Resolution of the caller's role from the store's answers: no identity or
/// no email is `Unauthenticated`; otherwise the rule of `role_outcome`, with
/// the admin override decided from the email.
pub fn resolve_role(
    slug: String,
    identity: Option<&Identity>,
    admins: &Vec<String>,
    tenant: Result<Option<i32>, StoreFault>,
    user: Result<Option<i32>, StoreFault>,
    assignment: Result<Option<RoleAssignment>, StoreFault>,
) -> (r: Result<HackathonRole, AuthError>)
    ensures
        match email_of(identity) {
            None => r == Err::<HackathonRole, AuthError>(AuthError::Unauthenticated),
            Some(e) => role_result_view(r) == role_outcome(
                slug@,
                admin_email(admins@, e),
                tenant,
                user,
                assignment,
            ),
        },
{
    let email = match identity {
        None => return Err(AuthError::Unauthenticated),
        Some(i) => match &i.email {
            None => return Err(AuthError::Unauthenticated),
            Some(e) => e,
        },
    };
    let admin = is_global_admin(email.as_str(), admins);
    decide_role(slug, admin, tenant, user, assignment)
}

} // verus!
