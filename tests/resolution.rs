use terrier_backend::{
    decide_role, is_global_admin, parse_admin_emails, require_global_admin, AuthError,
    CreateHackathonRequest, Directory, Identity, Role, RoleAssignment, StoreFault,
};

fn identity(sub: &str, email: Option<&str>) -> Identity {
    Identity {
        subject: sub.to_string(),
        issuer: "https://idp.example.com".to_string(),
        email: email.map(|e| e.to_string()),
        name: Some("Ada".to_string()),
        given_name: None,
        family_name: None,
        picture: None,
    }
}

fn admins() -> Vec<String> {
    parse_admin_emails("Root@Example.com, boss@example.com")
}

fn request(slug: &str) -> CreateHackathonRequest {
    CreateHackathonRequest {
        name: "Summer".to_string(),
        slug: slug.to_string(),
        description: None,
        start_date: 1_750_000_000,
        end_date: 1_750_200_000,
    }
}

#[test]
fn admin_match_ignores_case() {
    let a = admins();
    assert!(is_global_admin("ROOT@example.COM", &a));
    assert!(is_global_admin("boss@example.com", &a));
    assert!(!is_global_admin("someone@example.com", &a));
}

#[test]
fn require_global_admin_outcomes() {
    let a = admins();
    let root = identity("s1", Some("Root@example.com"));
    let other = identity("s2", Some("x@example.com"));
    let mute = identity("s3", None);
    assert_eq!(require_global_admin(Some(&root), &a).unwrap().email, "Root@example.com");
    assert_eq!(require_global_admin(Some(&other), &a).err(), Some(AuthError::Forbidden));
    assert_eq!(require_global_admin(Some(&mute), &a).err(), Some(AuthError::Unauthenticated));
    assert_eq!(require_global_admin(None, &a).err(), Some(AuthError::Unauthenticated));
}

#[test]
fn end_to_end_role_resolution() {
    let a = admins();
    let mut d = Directory::new();
    let root = identity("root-sub", Some("root@example.com"));
    let user = identity("user-sub", Some("user@example.com"));
    d.sync_user(&root, 10);
    d.sync_user(&user, 11);
    let created = d.create_hackathon(Some(&root), &a, request("summer25"), 12).unwrap();
    assert_eq!(created.slug, "summer25");
    assert!(!created.is_active);

    let denied = d.resolve("summer25", Some(&user), &a);
    assert_eq!(denied.err().map(|e| e.status_code()), Some(403));

    d.assign_role(2, created.id, Role::Judge).unwrap();
    let granted = d.resolve("summer25", Some(&user), &a).unwrap();
    assert_eq!(granted.role, "judge");
    assert_eq!(granted.user_id, 2);
    assert_eq!(granted.hackathon_id, created.id);
    assert_eq!(granted.slug, "summer25");

    let missing = d.resolve("nonexistent", Some(&user), &a);
    assert_eq!(missing.err().map(|e| e.status_code()), Some(404));
}

#[test]
fn non_admin_without_assignment_is_forbidden() {
    let a = admins();
    let mut d = Directory::new();
    let root = identity("root-sub", Some("root@example.com"));
    let user = identity("user-sub", Some("user@example.com"));
    d.sync_user(&root, 1);
    d.create_hackathon(Some(&root), &a, request("winter"), 2).unwrap();
    assert_eq!(d.resolve("winter", Some(&user), &a).err(), Some(AuthError::Forbidden));
    d.sync_user(&user, 3);
    assert_eq!(d.resolve("winter", Some(&user), &a).err(), Some(AuthError::Forbidden));
}

#[test]
fn admin_override_beats_stored_role() {
    let a = admins();
    let mut d = Directory::new();
    let root = identity("root-sub", Some("ROOT@example.com"));
    d.sync_user(&root, 1);
    let h = d.create_hackathon(Some(&root), &a, request("spring"), 2).unwrap();
    d.assign_role(1, h.id, Role::Participant).unwrap();
    let r = d.resolve("spring", Some(&root), &a).unwrap();
    assert_eq!(r.role, "admin");
    assert!(r.is_admin());
    d.create_hackathon(Some(&root), &a, request("autumn"), 3).unwrap();
    assert_eq!(d.resolve("autumn", Some(&root), &a).unwrap().role, "admin");
}

#[test]
fn admin_without_user_row_is_unauthenticated() {
    let a = admins();
    let mut d = Directory::new();
    let root = identity("root-sub", Some("root@example.com"));
    d.create_hackathon(Some(&root), &a, request("spring"), 2).unwrap();
    assert_eq!(d.resolve("spring", Some(&root), &a).err(), Some(AuthError::Unauthenticated));
}

#[test]
fn missing_identity_or_email_is_unauthenticated() {
    let a = admins();
    let mut d = Directory::new();
    let root = identity("root-sub", Some("root@example.com"));
    d.create_hackathon(Some(&root), &a, request("spring"), 2).unwrap();
    assert_eq!(d.resolve("spring", None, &a).err().map(|e| e.status_code()), Some(401));
    let mute = identity("mute", None);
    assert_eq!(d.resolve("spring", Some(&mute), &a).err(), Some(AuthError::Unauthenticated));
}

#[test]
fn duplicate_slug_is_conflict() {
    let a = admins();
    let mut d = Directory::new();
    let root = identity("root-sub", Some("root@example.com"));
    assert!(d.create_hackathon(Some(&root), &a, request("summer25"), 1).is_ok());
    let second = d.create_hackathon(Some(&root), &a, request("summer25"), 2);
    assert_eq!(second.err().map(|e| e.status_code()), Some(400));
    assert_eq!(d.list_active().len(), 0);
}

#[test]
fn create_requires_global_admin() {
    let a = admins();
    let mut d = Directory::new();
    let user = identity("user-sub", Some("user@example.com"));
    assert_eq!(d.create_hackathon(Some(&user), &a, request("x"), 1).err(), Some(AuthError::Forbidden));
    assert_eq!(d.create_hackathon(None, &a, request("x"), 1).err(), Some(AuthError::Unauthenticated));
}

#[test]
fn sync_twice_inserts_once() {
    let a = admins();
    let mut d = Directory::new();
    let user = identity("user-sub", Some("user@example.com"));
    d.sync_user(&user, 5);
    let first = d.status(Some(&user), &a).unwrap();
    d.sync_user(&user, 6);
    let second = d.status(Some(&user), &a).unwrap();
    assert_eq!(first.id, "1");
    assert_eq!(second.id, "1");
    let other = identity("other-sub", None);
    d.sync_user(&other, 7);
    assert_eq!(d.status(Some(&other), &a).err(), Some(AuthError::Unauthenticated));
}

#[test]
fn sync_keeps_profile_of_known_user() {
    let a = admins();
    let mut d = Directory::new();
    let user = identity("user-sub", Some("old@example.com"));
    d.sync_user(&user, 5);
    let changed = identity("user-sub", Some("new@example.com"));
    d.sync_user(&changed, 6);
    let info = d.status(Some(&changed), &a).unwrap();
    assert_eq!(info.email, "old@example.com");
    assert_eq!(info.name.as_deref(), Some("Ada"));
}

#[test]
fn assigning_twice_keeps_one_role() {
    let a = admins();
    let mut d = Directory::new();
    let root = identity("root-sub", Some("root@example.com"));
    let user = identity("user-sub", Some("user@example.com"));
    d.sync_user(&root, 1);
    d.sync_user(&user, 1);
    let h = d.create_hackathon(Some(&root), &a, request("one"), 1).unwrap();
    d.assign_role(2, h.id, Role::Judge).unwrap();
    d.assign_role(2, h.id, Role::Sponsor).unwrap();
    assert_eq!(d.resolve("one", Some(&user), &a).unwrap().role, "sponsor");
    assert_eq!(d.assign_role(9, h.id, Role::Judge).err(), Some(AuthError::NotFound));
    assert_eq!(d.assign_role(2, 9, Role::Judge).err(), Some(AuthError::NotFound));
}

#[test]
fn decide_role_branches() {
    let slug = || "s".to_string();
    let row = |role: &str| RoleAssignment { id: 1, user_id: 3, hackathon_id: 4, role: role.to_string() };
    assert_eq!(decide_role(slug(), false, Err(StoreFault), Ok(None), Ok(None)).err(), Some(AuthError::Internal));
    assert_eq!(decide_role(slug(), true, Ok(None), Ok(Some(1)), Ok(None)).err(), Some(AuthError::NotFound));
    assert_eq!(decide_role(slug(), true, Ok(Some(4)), Err(StoreFault), Ok(None)).err(), Some(AuthError::Internal));
    assert_eq!(decide_role(slug(), true, Ok(Some(4)), Ok(None), Ok(None)).err(), Some(AuthError::Unauthenticated));
    let admin = decide_role(slug(), true, Ok(Some(4)), Ok(Some(7)), Ok(Some(row("judge")))).unwrap();
    assert_eq!((admin.user_id, admin.hackathon_id, admin.role.as_str()), (7, 4, "admin"));
    assert_eq!(decide_role(slug(), false, Ok(Some(4)), Ok(Some(3)), Err(StoreFault)).err(), Some(AuthError::Internal));
    assert_eq!(decide_role(slug(), false, Ok(Some(4)), Ok(Some(3)), Ok(None)).err(), Some(AuthError::Forbidden));
    assert_eq!(
        decide_role(slug(), false, Ok(Some(4)), Ok(Some(3)), Ok(Some(row("owner")))).err(),
        Some(AuthError::Forbidden)
    );
    let judge = decide_role(slug(), false, Ok(Some(4)), Ok(Some(3)), Ok(Some(row("judge")))).unwrap();
    assert_eq!((judge.user_id, judge.hackathon_id, judge.role.as_str(), judge.slug.as_str()), (3, 4, "judge", "s"));
}

#[test]
fn status_codes() {
    assert_eq!(AuthError::Unauthenticated.status_code(), 401);
    assert_eq!(AuthError::NotFound.status_code(), 404);
    assert_eq!(AuthError::Forbidden.status_code(), 403);
    assert_eq!(AuthError::Conflict.status_code(), 400);
    assert_eq!(AuthError::Internal.status_code(), 500);
}
