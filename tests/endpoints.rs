use terrier_backend::{
    decimal,
    get_user_role, list_hackathons, login_redirect, parse_admin_emails, provision, slug_available,
    sync_needs_insert, user_status, AuthError, Config, Hackathon, HackathonRole, Identity, LoginQuery,
    StoreFault, UserRecord,
};

fn query(uri: Option<&str>) -> LoginQuery {
    LoginQuery { redirect_uri: uri.map(|u| u.to_string()) }
}

#[test]
fn login_redirect_honours_app_addresses() {
    let app = "https://app.example.com";
    assert_eq!(login_redirect(query(Some("https://app.example.com/dashboard")), app), "https://app.example.com/dashboard");
    assert_eq!(login_redirect(query(Some("https://evil.example.com")), app), app);
    assert_eq!(login_redirect(query(None), app), app);
    assert_eq!(login_redirect(query(Some("https://app.example.co")), app), app);
    assert_eq!(login_redirect(query(Some(app)), app), app);
}

#[test]
fn admin_list_is_trimmed_lowercased_and_compacted() {
    assert_eq!(parse_admin_emails(" A@X.org ,b@y.org,, \tC@Z.ORG "), vec!["a@x.org", "b@y.org", "c@z.org"]);
    assert!(parse_admin_emails("").is_empty());
    assert!(parse_admin_emails(" , ,").is_empty());
    assert_eq!(parse_admin_emails(" Alice@X.com, ,bob@y.ORG ,"), vec!["alice@x.com", "bob@y.org"]);
    assert_eq!(parse_admin_emails("a@b.c\u{3000},\u{a0}D@E.F"), vec!["a@b.c", "d@e.f"]);
    assert_eq!(parse_admin_emails("Solo@Example.com"), vec!["solo@example.com"]);
}

#[test]
fn config_from_values_parses_admins() {
    let c = Config::from_values(
        "https://app".to_string(),
        "postgres://db".to_string(),
        "https://idp".to_string(),
        "client".to_string(),
        "SECRET-REDACTED".to_string(),
        "Root@Example.com",
    );
    assert_eq!(c.app_url, "https://app");
    assert_eq!(c.admin_emails, vec!["root@example.com"]);
}

fn identity(email: Option<&str>) -> Identity {
    Identity {
        subject: "sub-1".to_string(),
        issuer: "https://idp".to_string(),
        email: email.map(|e| e.to_string()),
        name: None,
        given_name: Some("Grace".to_string()),
        family_name: Some("Hopper".to_string()),
        picture: Some("https://pic".to_string()),
    }
}

#[test]
fn provision_fills_defaults() {
    let u = provision(&identity(None), 42, 99);
    assert_eq!(u.id, 42);
    assert_eq!(u.email, "");
    assert_eq!(u.oidc_sub, "sub-1");
    assert_eq!(u.oidc_issuer, "https://idp");
    assert_eq!(u.name, None);
    assert_eq!(u.given_name.as_deref(), Some("Grace"));
    assert_eq!(u.picture.as_deref(), Some("https://pic"));
    assert_eq!((u.created_at, u.updated_at), (99, 99));
    assert_eq!(provision(&identity(Some("g@h.io")), 1, 0).email, "g@h.io");
}

#[test]
fn sync_inserts_only_when_no_user_was_found() {
    assert!(!sync_needs_insert(Ok(Some(3))));
    assert!(sync_needs_insert(Ok(None)));
    assert!(sync_needs_insert(Err(StoreFault)));
}

fn user(id: i32) -> UserRecord {
    UserRecord {
        id,
        oidc_sub: "sub-1".to_string(),
        oidc_issuer: "https://idp".to_string(),
        email: "g@h.io".to_string(),
        name: Some("Grace".to_string()),
        given_name: None,
        family_name: None,
        picture: None,
        created_at: 0,
        updated_at: 0,
    }
}

#[test]
fn status_reports_user_row() {
    let admins = vec!["g@h.io".to_string()];
    let id = identity(Some("G@H.io"));
    let info = user_status(Some(&id), &admins, Ok(Some(&user(1234)))).unwrap();
    assert_eq!(info.id, "1234");
    assert_eq!(info.email, "g@h.io");
    assert_eq!(info.name.as_deref(), Some("Grace"));
    assert!(info.is_admin);
    let plain = user_status(Some(&id), &vec![], Ok(Some(&user(-5)))).unwrap();
    assert_eq!(plain.id, "-5");
    assert!(!plain.is_admin);
    assert_eq!(user_status(Some(&id), &admins, Ok(None)).err(), Some(AuthError::Unauthenticated));
    assert_eq!(user_status(Some(&id), &admins, Err(StoreFault)).err(), Some(AuthError::Internal));
    assert_eq!(user_status(None, &admins, Err(StoreFault)).err(), Some(AuthError::Unauthenticated));
    assert_eq!(user_status(None, &admins, Ok(Some(&user(1)))).err(), Some(AuthError::Unauthenticated));
    assert_eq!(user_status(Some(&identity(None)), &admins, Ok(Some(&user(1)))).err(), Some(AuthError::Unauthenticated));
}

fn row(id: i32, slug: &str, active: bool) -> Hackathon {
    Hackathon {
        id,
        name: format!("Hack {}", id),
        slug: slug.to_string(),
        description: None,
        start_date: 100,
        end_date: 200,
        is_active: active,
        created_at: 1,
        updated_at: 1,
    }
}

#[test]
fn listing_keeps_active_hackathons_in_order() {
    let rows = vec![row(1, "a", true), row(2, "b", false), row(3, "c", true)];
    let listed = list_hackathons(&rows);
    let slugs: Vec<&str> = listed.iter().map(|h| h.slug.as_str()).collect();
    assert_eq!(slugs, vec!["a", "c"]);
    assert_eq!(listed[1].id, 3);
    assert_eq!(listed[1].name, "Hack 3");
    assert!(list_hackathons(&vec![]).is_empty());
}

#[test]
fn role_endpoint_reports_role() {
    let r = HackathonRole { user_id: 1, hackathon_id: 2, role: "judge".to_string(), slug: "s".to_string() };
    assert_eq!(get_user_role(r).role, "judge");
}

#[test]
fn slug_availability() {
    assert_eq!(slug_available(Ok(None)), Ok(()));
    assert_eq!(slug_available(Ok(Some(1))), Err(AuthError::Conflict));
    assert_eq!(slug_available(Err(StoreFault)), Err(AuthError::Internal));
}

#[test]
fn decimal_spelling() {
    assert_eq!(decimal(0), "0");
    assert_eq!(decimal(7), "7");
    assert_eq!(decimal(1234), "1234");
    assert_eq!(decimal(-5), "-5");
    assert_eq!(decimal(i32::MAX), "2147483647");
    assert_eq!(decimal(i32::MIN), "-2147483648");
}
