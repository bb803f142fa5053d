use vstd::prelude::*;
use crate::directory::{active_hackathons, active_of};
use crate::model::{copy_opt, AuthError, Hackathon, StoreFault};
use crate::role::HackathonRole;

verus! {

/// What the listing and creation endpoints report of a hackathon.
pub struct HackathonInfo {
    pub id: i32,
    pub name: String,
    pub slug: String,
    pub description: Option<String>,
    pub start_date: i64,
    pub end_date: i64,
    pub is_active: bool,
}

/// `i` reports the row `h`.
pub open spec fn reports(i: HackathonInfo, h: Hackathon) -> bool {
    &&& i.id == h.id
    &&& i.name@ == h.name@
    &&& i.slug@ == h.slug@
    &&& i.description == h.description
    &&& i.start_date == h.start_date
    &&& i.end_date == h.end_date
    &&& i.is_active == h.is_active
}

impl HackathonInfo {
    pub fn from_row(h: &Hackathon) -> (r: HackathonInfo)
        ensures
            reports(r, *h),
    {
        HackathonInfo {
            id: h.id,
            name: h.name.clone(),
            slug: h.slug.clone(),
            description: copy_opt(&h.description),
            start_date: h.start_date,
            end_date: h.end_date,
            is_active: h.is_active,
        }
    }
}

/// The listing of the active hackathons among `rows`, in their order.
pub fn list_hackathons(rows: &Vec<Hackathon>) -> (r: Vec<HackathonInfo>)
    ensures
        r@.len() == active_of(rows@).len(),
        forall|k: int| 0 <= k < r@.len() ==> reports(#[trigger] r@[k], active_of(rows@)[k]),
{
    let active = active_hackathons(rows);
    let mut r: Vec<HackathonInfo> = Vec::new();
    let mut i: usize = 0;
    while i < active.len()
        invariant
            active@ == active_of(rows@),
            i <= active@.len(),
            r@.len() == i,
            forall|k: int| 0 <= k < i ==> reports(#[trigger] r@[k], active@[k]),
        decreases active@.len() - i,
    {
        r.push(HackathonInfo::from_row(&active[i]));
        i = i + 1;
    }
    r
}

/// The answer of the role endpoint.
pub struct UserRoleResponse {
    pub role: String,
}

/// Reports the resolved role as it stands.
pub fn get_user_role(role: HackathonRole) -> (r: UserRoleResponse)
    ensures
        r.role == role.role,
{
    UserRoleResponse { role: role.role }
}

/// Whether a new hackathon may take a slug, given the answer of the lookup
/// of that slug: a store failure is `Internal`, a taken slug `Conflict`.
pub fn slug_available(existing: Result<Option<i32>, StoreFault>) -> (r: Result<(), AuthError>)
    ensures
        r == match existing {
            Err(_) => Err(AuthError::Internal),
            Ok(Some(_)) => Err(AuthError::Conflict),
            Ok(None) => Ok::<(), AuthError>(()),
        },
{
    match existing {
        Err(_) => Err(AuthError::Internal),
        Ok(Some(_)) => Err(AuthError::Conflict),
        Ok(None) => Ok(()),
    }
}

} // verus!
