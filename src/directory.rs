use vstd::prelude::*;
use vstd::string::*;
use crate::model::{copy_opt, AuthError, Hackathon, Identity, RoleAssignment, StoreFault, UserRecord};
use crate::resolve::{admin_email, decide_role, email_of, is_global_admin, role_result_view, RoleView};
use crate::role::{role_of_text, role_text, HackathonRole, Role};
use crate::text::same_text;
use crate::auth::{decimal_text, user_status, UserInfo};

verus! {

/// Whether some user has external subject `sub`.
pub open spec fn has_subject(users: Seq<UserRecord>, sub: Seq<char>) -> bool {
    exists|i: int| 0 <= i < users.len() && users[i].oidc_sub@ == sub
}

/// Whether some hackathon has slug `slug`.
pub open spec fn has_slug(hs: Seq<Hackathon>, slug: Seq<char>) -> bool {
    exists|i: int| 0 <= i < hs.len() && hs[i].slug@ == slug
}

/// Whether some assignment binds user `u` within hackathon `h`.
pub open spec fn has_pair(asg: Seq<RoleAssignment>, u: i32, h: i32) -> bool {
    exists|i: int| 0 <= i < asg.len() && asg[i].user_id == u && asg[i].hackathon_id == h
}

/// The email stored for a new user: the asserted one, or empty.
pub open spec fn stored_email(identity: Identity) -> Seq<char> {
    match identity.email {
        Some(e) => e@,
        None => Seq::empty(),
    }
}

/// `u` is the record that first sight of `identity` creates, with id `id`.
pub open spec fn provisioned(u: UserRecord, identity: Identity, id: int, now: i64) -> bool {
    &&& u.id == id
    &&& u.oidc_sub@ == identity.subject@
    &&& u.oidc_issuer@ == identity.issuer@
    &&& u.email@ == stored_email(identity)
    &&& u.name == identity.name
    &&& u.given_name == identity.given_name
    &&& u.family_name == identity.family_name
    &&& u.picture == identity.picture
    &&& u.created_at == now
    &&& u.updated_at == now
}

/// The user row that first sight of `identity` creates: the asserted
/// email, or an empty one; the optional profile fields as asserted.
pub fn provision(identity: &Identity, id: i32, now: i64) -> (r: UserRecord)
    ensures
        provisioned(r, *identity, id as int, now),
{
    let email = match &identity.email {
        Some(e) => e.clone(),
        None => String::new(),
    };
    UserRecord {
        id,
        oidc_sub: identity.subject.clone(),
        oidc_issuer: identity.issuer.clone(),
        email,
        name: copy_opt(&identity.name),
        given_name: copy_opt(&identity.given_name),
        family_name: copy_opt(&identity.family_name),
        picture: copy_opt(&identity.picture),
        created_at: now,
        updated_at: now,
    }
}

/// Whether identity sync inserts, given the answer of the user lookup: a
/// failed lookup counts as no user.
pub fn sync_needs_insert(found: Result<Option<i32>, StoreFault>) -> (r: bool)
    ensures
        r == !(found is Ok && found->Ok_0 is Some),
{
    match found {
        Ok(Some(_)) => false,
        _ => true,
    }
}

/// One identity sync, from the user rows `before` to `after`: a known
/// subject changes nothing; an unseen one gets a new row, unless the store
/// has no id left for it, in which case the failed insert is ignored.
pub open spec fn synced(
    before: Seq<UserRecord>,
    after: Seq<UserRecord>,
    identity: Identity,
    now: i64,
) -> bool {
    if has_subject(before, identity.subject@) || before.len() >= i32::MAX {
        after == before
    } else {
        &&& after.len() == before.len() + 1
        &&& after.drop_last() == before
        &&& provisioned(after.last(), identity, before.len() + 1 as int, now)
    }
}

/// The effective role of `identity` within the hackathon `slug`, read off
/// the tables: no identity or email is `Unauthenticated`; an unknown slug is
/// `NotFound`; a global admin is `admin` once their user row exists; anyone
/// else needs a stored assignment with a known role, or is `Forbidden`.
pub open spec fn resolution(
    users: Seq<UserRecord>,
    hs: Seq<Hackathon>,
    asg: Seq<RoleAssignment>,
    slug: Seq<char>,
    identity: Option<&Identity>,
    admins: Seq<String>,
) -> Result<RoleView, AuthError> {
    match email_of(identity) {
        None => Err(AuthError::Unauthenticated),
        Some(e) => if !has_slug(hs, slug) {
            Err(AuthError::NotFound)
        } else {
            let h = choose|h: int| 0 <= h < hs.len() && hs[h].slug@ == slug;
            let sub = identity->Some_0.subject@;
            if !has_subject(users, sub) {
                if admin_email(admins, e) {
                    Err(AuthError::Unauthenticated)
                } else {
                    Err(AuthError::Forbidden)
                }
            } else {
                let u = choose|u: int| 0 <= u < users.len() && users[u].oidc_sub@ == sub;
                if admin_email(admins, e) {
                    Ok(RoleView { user_id: users[u].id, hackathon_id: hs[h].id, role: "admin"@, slug })
                } else if !has_pair(asg, users[u].id, hs[h].id) {
                    Err(AuthError::Forbidden)
                } else {
                    let a = choose|a: int|
                        0 <= a < asg.len() && asg[a].user_id == users[u].id && asg[a].hackathon_id
                            == hs[h].id;
                    if role_of_text(asg[a].role@) is Some {
                        Ok(
                            RoleView {
                                user_id: asg[a].user_id,
                                hackathon_id: asg[a].hackathon_id,
                                role: asg[a].role@,
                                slug,
                            },
                        )
                    } else {
                        Err(AuthError::Forbidden)
                    }
                }
            }
        },
    }
}

/// What a request to create a hackathon carries. Dates are seconds since
/// the Unix epoch.
pub struct CreateHackathonRequest {
    pub name: String,
    pub slug: String,
    pub description: Option<String>,
    pub start_date: i64,
    pub end_date: i64,
}

/// `h` is the row that `req` creates under id `id`: inactive until
/// activated elsewhere.
pub open spec fn created_from(h: Hackathon, req: CreateHackathonRequest, id: nat, now: i64) -> bool {
    &&& h.id == id
    &&& h.name@ == req.name@
    &&& h.slug@ == req.slug@
    &&& h.description == req.description
    &&& h.start_date == req.start_date
    &&& h.end_date == req.end_date
    &&& !h.is_active
    &&& h.created_at == now
    &&& h.updated_at == now
}

/// One creation request, from the hackathon rows `before` to `after` with
/// answer `r`: only global admins create; a taken slug is `Conflict`; a
/// refused request changes nothing.
pub open spec fn creation(
    before: Seq<Hackathon>,
    after: Seq<Hackathon>,
    caller: Option<&Identity>,
    admins: Seq<String>,
    req: CreateHackathonRequest,
    now: i64,
    r: Result<Hackathon, AuthError>,
) -> bool {
    &&& match email_of(caller) {
        None => r == Err::<Hackathon, AuthError>(AuthError::Unauthenticated),
        Some(e) => if !admin_email(admins, e) {
            r == Err::<Hackathon, AuthError>(AuthError::Forbidden)
        } else if has_slug(before, req.slug@) {
            r == Err::<Hackathon, AuthError>(AuthError::Conflict)
        } else if before.len() >= i32::MAX {
            r == Err::<Hackathon, AuthError>(AuthError::Internal)
        } else {
            &&& r is Ok
            &&& created_from(r->Ok_0, req, before.len() + 1, now)
            &&& after == before.push(r->Ok_0)
        },
    }
    &&& r is Err ==> after == before
}

/// The active hackathons of `hs`, in their order.
pub open spec fn active_of(hs: Seq<Hackathon>) -> Seq<Hackathon> {
    hs.filter(|h: Hackathon| h.is_active)
}

/// The active hackathons among `rows`, in their order.
pub fn active_hackathons(rows: &Vec<Hackathon>) -> (r: Vec<Hackathon>)
    ensures
        r@ == active_of(rows@),
{
    let mut r: Vec<Hackathon> = Vec::new();
    let mut i: usize = 0;
    while i < rows.len()
        invariant
            i <= rows@.len(),
            r@ == active_of(rows@.subrange(0, i as int)),
        decreases rows@.len() - i,
    {
        proof {
            reveal(Seq::filter);
            assert(rows@.subrange(0, i + 1).drop_last() == rows@.subrange(0, i as int));
        }
        if rows[i].is_active {
            r.push(rows[i].copy());
        }
        i = i + 1;
    }
    assert(rows@.subrange(0, rows@.len() as int) == rows@);
    r
}

/// The in-memory directory of users, hackathons and role assignments, with
/// the constraints of the backing tables: ids count up from one, subjects
/// and slugs are unique, and a user holds at most one role per hackathon.
pub struct Directory {
    users: Vec<UserRecord>,
    hackathons: Vec<Hackathon>,
    assignments: Vec<RoleAssignment>,
}

impl Directory {
    pub closed spec fn users(&self) -> Seq<UserRecord> {
        self.users@
    }

    pub closed spec fn hackathons(&self) -> Seq<Hackathon> {
        self.hackathons@
    }

    pub closed spec fn assignments(&self) -> Seq<RoleAssignment> {
        self.assignments@
    }

    pub closed spec fn wf(&self) -> bool {
        &&& self.users@.len() <= i32::MAX
        &&& self.hackathons@.len() <= i32::MAX
        &&& self.assignments@.len() <= i32::MAX
        &&& forall|i: int| 0 <= i < self.users@.len() ==> self.users@[i].id == i + 1
        &&& forall|i: int| 0 <= i < self.hackathons@.len() ==> self.hackathons@[i].id == i + 1
        &&& forall|i: int| 0 <= i < self.assignments@.len() ==> self.assignments@[i].id == i + 1
        &&& forall|i: int, j: int|
            0 <= i < self.users@.len() && 0 <= j < self.users@.len() && i != j
                ==> self.users@[i].oidc_sub@ != self.users@[j].oidc_sub@
        &&& forall|i: int, j: int|
            0 <= i < self.hackathons@.len() && 0 <= j < self.hackathons@.len() && i != j
                ==> self.hackathons@[i].slug@ != self.hackathons@[j].slug@
        &&& forall|i: int, j: int|
            0 <= i < self.assignments@.len() && 0 <= j < self.assignments@.len() && i != j
                ==> !(self.assignments@[i].user_id == self.assignments@[j].user_id
                && self.assignments@[i].hackathon_id == self.assignments@[j].hackathon_id)
        &&& forall|i: int|
            0 <= i < self.assignments@.len() ==> 1 <= #[trigger] self.assignments@[i].user_id
                <= self.users@.len() && 1 <= self.assignments@[i].hackathon_id
                <= self.hackathons@.len()
    }

    /// An empty directory.
    pub fn new() -> (r: Directory)
        ensures
            r.wf(),
            r.users().len() == 0,
            r.hackathons().len() == 0,
            r.assignments().len() == 0,
    {
        Directory { users: Vec::new(), hackathons: Vec::new(), assignments: Vec::new() }
    }

    /// Index of the user with subject `sub`.
    fn find_user(&self, sub: &str) -> (r: Option<usize>)
        ensures
            match r {
                Some(i) => i < self.users@.len() && self.users@[i as int].oidc_sub@ == sub@,
                None => !has_subject(self.users@, sub@),
            },
    {
        let mut i: usize = 0;
        while i < self.users.len()
            invariant
                i <= self.users@.len(),
                forall|k: int| 0 <= k < i ==> self.users@[k].oidc_sub@ != sub@,
            decreases self.users@.len() - i,
        {
            if same_text(self.users[i].oidc_sub.as_str(), sub) {
                return Some(i);
            }
            i = i + 1;
        }
        None
    }

    /// Index of the user with subject `sub` and issuer `iss`.
    fn find_user_by_key(&self, sub: &str, iss: &str) -> (r: Option<usize>)
        ensures
            match r {
                Some(i) => i < self.users@.len() && self.users@[i as int].oidc_sub@ == sub@
                    && self.users@[i as int].oidc_issuer@ == iss@,
                None => forall|k: int|
                    0 <= k < self.users@.len() ==> !(self.users@[k].oidc_sub@ == sub@
                        && self.users@[k].oidc_issuer@ == iss@),
            },
    {
        let mut i: usize = 0;
        while i < self.users.len()
            invariant
                i <= self.users@.len(),
                forall|k: int|
                    0 <= k < i ==> !(self.users@[k].oidc_sub@ == sub@ && self.users@[k].oidc_issuer@
                        == iss@),
            decreases self.users@.len() - i,
        {
            if same_text(self.users[i].oidc_sub.as_str(), sub) && same_text(
                self.users[i].oidc_issuer.as_str(),
                iss,
            ) {
                return Some(i);
            }
            i = i + 1;
        }
        None
    }

    /// Index of the hackathon with slug `slug`.
    fn find_hackathon(&self, slug: &str) -> (r: Option<usize>)
        ensures
            match r {
                Some(i) => i < self.hackathons@.len() && self.hackathons@[i as int].slug@ == slug@,
                None => !has_slug(self.hackathons@, slug@),
            },
    {
        let mut i: usize = 0;
        while i < self.hackathons.len()
            invariant
                i <= self.hackathons@.len(),
                forall|k: int| 0 <= k < i ==> self.hackathons@[k].slug@ != slug@,
            decreases self.hackathons@.len() - i,
        {
            if same_text(self.hackathons[i].slug.as_str(), slug) {
                return Some(i);
            }
            i = i + 1;
        }
        None
    }

    /// Index of the assignment of user `u` within hackathon `h`.
    fn find_assignment(&self, u: i32, h: i32) -> (r: Option<usize>)
        ensures
            match r {
                Some(i) => i < self.assignments@.len() && self.assignments@[i as int].user_id == u
                    && self.assignments@[i as int].hackathon_id == h,
                None => !has_pair(self.assignments@, u, h),
            },
    {
        let mut i: usize = 0;
        while i < self.assignments.len()
            invariant
                i <= self.assignments@.len(),
                forall|k: int|
                    0 <= k < i ==> !(self.assignments@[k].user_id == u
                        && self.assignments@[k].hackathon_id == h),
            decreases self.assignments@.len() - i,
        {
            if self.assignments[i].user_id == u && self.assignments[i].hackathon_id == h {
                return Some(i);
            }
            i = i + 1;
        }
        None
    }

    /// Stores a new user row, under the next id. Refused when the subject is
    /// already stored or no id is left.
    fn insert_user(&mut self, identity: &Identity, now: i64) -> (r: Result<i32, StoreFault>)
        requires
            old(self).wf(),
        ensures
            final(self).wf(),
            final(self).hackathons@ == old(self).hackathons@,
            final(self).assignments@ == old(self).assignments@,
            if has_subject(old(self).users@, identity.subject@) || old(self).users@.len() >= i32::MAX {
                r is Err && final(self).users@ == old(self).users@
            } else {
                &&& r == Ok::<i32, StoreFault>((old(self).users@.len() + 1) as i32)
                &&& final(self).users@.len() == old(self).users@.len() + 1
                &&& final(self).users@.drop_last() == old(self).users@
                &&& provisioned(final(self).users@.last(), *identity, old(self).users@.len() + 1 as int, now)
            },
    {
        if self.find_user(identity.subject.as_str()).is_some() {
            return Err(StoreFault);
        }
        let n = self.users.len();
        if n >= i32::MAX as usize {
            return Err(StoreFault);
        }
        let row = provision(identity, (n + 1) as i32, now);
        self.users.push(row);
        assert(self.users@.drop_last() == old(self).users@);
        Ok((n + 1) as i32)
    }

    /// Identity sync: makes sure a user row exists for the asserted
    /// identity, creating it on first sight. A failed insert is ignored, and
    /// a known user's profile is left as it is.
    pub fn sync_user(&mut self, identity: &Identity, now: i64)
        requires
            old(self).wf(),
        ensures
            final(self).wf(),
            final(self).hackathons() == old(self).hackathons(),
            final(self).assignments() == old(self).assignments(),
            synced(old(self).users(), final(self).users(), *identity, now),
    {
        let found = self.find_user_by_key(identity.subject.as_str(), identity.issuer.as_str());
        if found.is_none() {
            let _ = self.insert_user(identity, now);
        }
    }
    /// Resolves the effective role of `identity` within the hackathon
    /// `slug`, with the global-admin override ahead of stored assignments.
    pub fn resolve(&self, slug: &str, identity: Option<&Identity>, admins: &Vec<String>) -> (r: Result<
        HackathonRole,
        AuthError,
    >)
        requires
            self.wf(),
        ensures
            role_result_view(r) == resolution(
                self.users(),
                self.hackathons(),
                self.assignments(),
                slug@,
                identity,
                admins@,
            ),
    {
        let ident = match identity {
            None => return Err(AuthError::Unauthenticated),
            Some(i) => i,
        };
        let email = match &ident.email {
            None => return Err(AuthError::Unauthenticated),
            Some(e) => e,
        };
        let admin = is_global_admin(email.as_str(), admins);
        let ghost sub = ident.subject@;
        let h = match self.find_hackathon(slug) {
            None => return Err(AuthError::NotFound),
            Some(h) => h,
        };
        let hid = self.hackathons[h].id;
        proof {
            let hc = choose|k: int|
                0 <= k < self.hackathons@.len() && self.hackathons@[k].slug@ == slug@;
            assert(hc == h as int);
        }
        let u = match self.find_user(ident.subject.as_str()) {
            None => {
                return if admin {
                    Err(AuthError::Unauthenticated)
                } else {
                    Err(AuthError::Forbidden)
                };
            },
            Some(u) => u,
        };
        let uid = self.users[u].id;
        proof {
            let uc = choose|k: int| 0 <= k < self.users@.len() && self.users@[k].oidc_sub@ == sub;
            assert(uc == u as int);
        }
        let assignment = match self.find_assignment(uid, hid) {
            None => None,
            Some(a) => {
                proof {
                    let ac = choose|k: int|
                        0 <= k < self.assignments@.len() && self.assignments@[k].user_id == uid
                            && self.assignments@[k].hackathon_id == hid;
                    assert(ac == a as int);
                }
                Some(self.assignments[a].copy())
            },
        };
        decide_role(String::from_str(slug), admin, Ok(Some(hid)), Ok(Some(uid)), Ok(assignment))
    }

    /// Creates a hackathon, for global admins only: `Conflict` when the slug
    /// is taken, `Internal` when no id is left. The new row is inactive.
    pub fn create_hackathon(
        &mut self,
        caller: Option<&Identity>,
        admins: &Vec<String>,
        req: CreateHackathonRequest,
        now: i64,
    ) -> (r: Result<Hackathon, AuthError>)
        requires
            old(self).wf(),
        ensures
            final(self).wf(),
            final(self).users() == old(self).users(),
            final(self).assignments() == old(self).assignments(),
            creation(old(self).hackathons(), final(self).hackathons(), caller, admins@, req, now, r),
    {
        if let Err(e) = crate::resolve::require_global_admin(caller, admins) {
            return Err(e);
        }
        if self.find_hackathon(req.slug.as_str()).is_some() {
            return Err(AuthError::Conflict);
        }
        let n = self.hackathons.len();
        if n >= i32::MAX as usize {
            return Err(AuthError::Internal);
        }
        let row = Hackathon {
            id: (n + 1) as i32,
            name: req.name,
            slug: req.slug,
            description: req.description,
            start_date: req.start_date,
            end_date: req.end_date,
            is_active: false,
            created_at: now,
            updated_at: now,
        };
        let out = row.copy();
        self.hackathons.push(row);
        Ok(out)
    }

    /// Gives user `user_id` the role `role` within hackathon `hackathon_id`,
    /// replacing the role they held there, if any. `NotFound` when either id
    /// is unknown, `Internal` when no id is left for a new assignment.
    pub fn assign_role(&mut self, user_id: i32, hackathon_id: i32, role: Role) -> (r: Result<
        (),
        AuthError,
    >)
        requires
            old(self).wf(),
        ensures
            final(self).wf(),
            final(self).users() == old(self).users(),
            final(self).hackathons() == old(self).hackathons(),
            if !(1 <= user_id <= old(self).users().len() && 1 <= hackathon_id <= old(
                self,
            ).hackathons().len()) {
                r == Err::<(), AuthError>(AuthError::NotFound) && final(self).assignments()
                    == old(self).assignments()
            } else if has_pair(old(self).assignments(), user_id, hackathon_id) {
                &&& r is Ok
                &&& final(self).assignments().len() == old(self).assignments().len()
                &&& forall|i: int|
                    0 <= i < old(self).assignments().len() ==> {
                        let a = old(self).assignments()[i];
                        let b = #[trigger] final(self).assignments()[i];
                        if a.user_id == user_id && a.hackathon_id == hackathon_id {
                            b.id == a.id && b.user_id == a.user_id && b.hackathon_id
                                == a.hackathon_id && b.role@ == role_text(role)
                        } else {
                            b == a
                        }
                    }
            } else if old(self).assignments().len() >= i32::MAX {
                r == Err::<(), AuthError>(AuthError::Internal) && final(self).assignments()
                    == old(self).assignments()
            } else {
                &&& r is Ok
                &&& final(self).assignments().len() == old(self).assignments().len() + 1
                &&& final(self).assignments().drop_last() == old(self).assignments()
                &&& final(self).assignments().last().id == old(self).assignments().len() + 1
                &&& final(self).assignments().last().user_id == user_id
                &&& final(self).assignments().last().hackathon_id == hackathon_id
                &&& final(self).assignments().last().role@ == role_text(role)
            },
    {
        if !(1 <= user_id && (user_id as usize) <= self.users.len() && 1 <= hackathon_id
            && (hackathon_id as usize) <= self.hackathons.len()) {
            return Err(AuthError::NotFound);
        }
        match self.find_assignment(user_id, hackathon_id) {
            Some(i) => {
                let row = RoleAssignment {
                    id: self.assignments[i].id,
                    user_id,
                    hackathon_id,
                    role: String::from_str(role.as_str()),
                };
                self.assignments.set(i, row);
                Ok(())
            },
            None => {
                let n = self.assignments.len();
                if n >= i32::MAX as usize {
                    return Err(AuthError::Internal);
                }
                let row = RoleAssignment {
                    id: (n + 1) as i32,
                    user_id,
                    hackathon_id,
                    role: String::from_str(role.as_str()),
                };
                self.assignments.push(row);
                assert(self.assignments@.drop_last() == old(self).assignments@);
                Ok(())
            },
        }
    }

    /// The status report of the caller, from their user row.
    pub fn status(&self, identity: Option<&Identity>, admins: &Vec<String>) -> (r: Result<
        UserInfo,
        AuthError,
    >)
        requires
            self.wf(),
        ensures
            match email_of(identity) {
                Some(e) => if has_subject(self.users(), identity->Some_0.subject@) {
                    let u = choose|u: int|
                        0 <= u < self.users().len() && self.users()[u].oidc_sub@ == identity->Some_0.subject@;
                    &&& r is Ok
                    &&& r->Ok_0.id@ == decimal_text(self.users()[u].id as int)
                    &&& r->Ok_0.email@ == self.users()[u].email@
                    &&& r->Ok_0.name == self.users()[u].name
                    &&& r->Ok_0.picture == self.users()[u].picture
                    &&& r->Ok_0.is_admin == admin_email(admins@, e)
                } else {
                    r == Err::<UserInfo, AuthError>(AuthError::Unauthenticated)
                },
                None => r == Err::<UserInfo, AuthError>(AuthError::Unauthenticated),
            },
    {
        let found = match identity {
            None => None,
            Some(i) => self.find_user(i.subject.as_str()),
        };
        match found {
            None => user_status(identity, admins, Ok(None)),
            Some(u) => {
                proof {
                    let uc = choose|k: int|
                        0 <= k < self.users@.len() && self.users@[k].oidc_sub@ == identity->Some_0.subject@;
                    assert(uc == u as int);
                }
                user_status(identity, admins, Ok(Some(&self.users[u])))
            },
        }
    }

    /// The active hackathons, in the order they were created.
    pub fn list_active(&self) -> (r: Vec<Hackathon>)
        ensures
            r@ == active_of(self.hackathons()),
    {
        active_hackathons(&self.hackathons)
    }
}

/// A caller outside the admin set, with no stored assignment in an existing
/// hackathon, is refused as `Forbidden` there.
pub proof fn lemma_no_assignment_forbidden(
    d: Directory,
    slug: Seq<char>,
    identity: &Identity,
    admins: Seq<String>,
)
    requires
        d.wf(),
        identity.email is Some,
        has_slug(d.hackathons(), slug),
        !admin_email(admins, identity.email->Some_0@),
        forall|u: int, h: int|
            0 <= u < d.users().len() && 0 <= h < d.hackathons().len() && d.users()[u].oidc_sub@
                == identity.subject@ && d.hackathons()[h].slug@ == slug ==> !has_pair(
                d.assignments(),
                d.users()[u].id,
                d.hackathons()[h].id,
            ),
    ensures
        resolution(d.users(), d.hackathons(), d.assignments(), slug, Some(identity), admins)
            == Err::<RoleView, AuthError>(AuthError::Forbidden),
{
}

/// A global admin with a user row resolves to `admin` in every existing
/// hackathon, whatever role is stored for them there.
pub proof fn lemma_admin_override(d: Directory, slug: Seq<char>, identity: &Identity, admins: Seq<String>)
    requires
        d.wf(),
        identity.email is Some,
        admin_email(admins, identity.email->Some_0@),
        has_slug(d.hackathons(), slug),
        has_subject(d.users(), identity.subject@),
    ensures
        resolution(d.users(), d.hackathons(), d.assignments(), slug, Some(identity), admins) is Ok,
        resolution(d.users(), d.hackathons(), d.assignments(), slug, Some(identity), admins)->Ok_0.role
            == "admin"@,
{
}

/// Identity sync ahead of resolution is what lets a global admin through:
/// after the caller's sync, an admin resolves to `admin` in every existing
/// hackathon.
pub proof fn lemma_admin_after_sync(
    d0: Directory,
    d1: Directory,
    slug: Seq<char>,
    identity: &Identity,
    admins: Seq<String>,
    now: i64,
)
    requires
        d0.wf(),
        d1.wf(),
        d0.users().len() < i32::MAX,
        synced(d0.users(), d1.users(), *identity, now),
        d1.hackathons() == d0.hackathons(),
        identity.email is Some,
        admin_email(admins, identity.email->Some_0@),
        has_slug(d0.hackathons(), slug),
    ensures
        resolution(d1.users(), d1.hackathons(), d1.assignments(), slug, Some(identity), admins) is Ok,
        resolution(d1.users(), d1.hackathons(), d1.assignments(), slug, Some(identity), admins)->Ok_0.role
            == "admin"@,
{
    if !has_subject(d0.users(), identity.subject@) {
        let last = d1.users().len() - 1;
        assert(d1.users()[last].oidc_sub@ == identity.subject@);
    }
    lemma_admin_override(d1, slug, identity, admins);
}

/// A caller outside the admin set with a stored assignment in a hackathon
/// resolves there to exactly that stored role.
pub proof fn lemma_assigned_role_resolves(
    d: Directory,
    slug: Seq<char>,
    identity: &Identity,
    admins: Seq<String>,
    u: int,
    h: int,
    a: int,
)
    requires
        d.wf(),
        identity.email is Some,
        !admin_email(admins, identity.email->Some_0@),
        0 <= u < d.users().len(),
        0 <= h < d.hackathons().len(),
        0 <= a < d.assignments().len(),
        d.users()[u].oidc_sub@ == identity.subject@,
        d.hackathons()[h].slug@ == slug,
        d.assignments()[a].user_id == d.users()[u].id,
        d.assignments()[a].hackathon_id == d.hackathons()[h].id,
        role_of_text(d.assignments()[a].role@) is Some,
    ensures
        resolution(d.users(), d.hackathons(), d.assignments(), slug, Some(identity), admins)
            == Ok::<RoleView, AuthError>(
            RoleView {
                user_id: d.users()[u].id,
                hackathon_id: d.hackathons()[h].id,
                role: d.assignments()[a].role@,
                slug,
            },
        ),
{
    let hc = choose|k: int| 0 <= k < d.hackathons().len() && d.hackathons()[k].slug@ == slug;
    assert(hc == h);
    let uc = choose|k: int| 0 <= k < d.users().len() && d.users()[k].oidc_sub@ == identity.subject@;
    assert(uc == u);
    assert(has_pair(d.assignments(), d.users()[u].id, d.hackathons()[h].id));
    let ac = choose|k: int|
        0 <= k < d.assignments().len() && d.assignments()[k].user_id == d.users()[u].id
            && d.assignments()[k].hackathon_id == d.hackathons()[h].id;
    assert(ac == a);
}

/// What every well-formed directory guarantees: ids count up from one,
/// subjects and slugs are unique, a user holds at most one role per
/// hackathon, and every assignment points at an existing user and hackathon.
pub proof fn lemma_wf_facts(d: Directory)
    requires
        d.wf(),
    ensures
        forall|i: int| 0 <= i < d.users().len() ==> #[trigger] d.users()[i].id == i + 1,
        forall|i: int| 0 <= i < d.hackathons().len() ==> #[trigger] d.hackathons()[i].id == i + 1,
        forall|i: int| 0 <= i < d.assignments().len() ==> #[trigger] d.assignments()[i].id == i + 1,
        forall|i: int, j: int|
            0 <= i < d.users().len() && 0 <= j < d.users().len() && i != j
                ==> #[trigger] d.users()[i].oidc_sub@ != #[trigger] d.users()[j].oidc_sub@,
        forall|i: int, j: int|
            0 <= i < d.hackathons().len() && 0 <= j < d.hackathons().len() && i != j
                ==> #[trigger] d.hackathons()[i].slug@ != #[trigger] d.hackathons()[j].slug@,
        forall|i: int, j: int|
            0 <= i < d.assignments().len() && 0 <= j < d.assignments().len() && i != j
                ==> !(#[trigger] d.assignments()[i].user_id == #[trigger] d.assignments()[j].user_id
                && d.assignments()[i].hackathon_id == d.assignments()[j].hackathon_id),
        forall|i: int|
            0 <= i < d.assignments().len() ==> 1 <= #[trigger] d.assignments()[i].user_id
                <= d.users().len() && 1 <= d.assignments()[i].hackathon_id <= d.hackathons().len(),
{
}

/// A user holds at most one stored role within a hackathon.
pub proof fn lemma_one_role_per_pair(d: Directory, i: int, j: int)
    requires
        d.wf(),
        0 <= i < d.assignments().len(),
        0 <= j < d.assignments().len(),
        d.assignments()[i].user_id == d.assignments()[j].user_id,
        d.assignments()[i].hackathon_id == d.assignments()[j].hackathon_id,
    ensures
        i == j,
{
}

/// Two syncs in a row of a previously unseen identity leave exactly one user
/// row for it: the second sync finds the first one's row and inserts nothing.
pub proof fn lemma_sync_idempotent(
    d0: Directory,
    d1: Directory,
    d2: Directory,
    identity: Identity,
    t1: i64,
    t2: i64,
)
    requires
        d0.wf(),
        d1.wf(),
        d2.wf(),
        !has_subject(d0.users(), identity.subject@),
        d0.users().len() < i32::MAX,
        synced(d0.users(), d1.users(), identity, t1),
        synced(d1.users(), d2.users(), identity, t2),
    ensures
        d2.users() == d1.users(),
        has_subject(d2.users(), identity.subject@),
        forall|i: int, j: int|
            0 <= i < d2.users().len() && 0 <= j < d2.users().len() && d2.users()[i].oidc_sub@
                == identity.subject@ && d2.users()[j].oidc_sub@ == identity.subject@ ==> i == j,
{
    let last = d1.users().len() - 1;
    assert(d1.users()[last].oidc_sub@ == identity.subject@);
}

/// Once a hackathon is created with a slug, a second creation with the same
/// slug is refused as `Conflict` and changes nothing.
pub proof fn lemma_duplicate_slug(
    h0: Seq<Hackathon>,
    h1: Seq<Hackathon>,
    h2: Seq<Hackathon>,
    caller: Option<&Identity>,
    admins: Seq<String>,
    first: CreateHackathonRequest,
    second: CreateHackathonRequest,
    t1: i64,
    t2: i64,
    r1: Result<Hackathon, AuthError>,
    r2: Result<Hackathon, AuthError>,
)
    requires
        creation(h0, h1, caller, admins, first, t1, r1),
        r1 is Ok,
        creation(h1, h2, caller, admins, second, t2, r2),
        second.slug@ == first.slug@,
    ensures
        r2 == Err::<Hackathon, AuthError>(AuthError::Conflict),
        h2 == h1,
{
    assert(h1[h0.len() as int] == r1->Ok_0);
}

} // verus!
