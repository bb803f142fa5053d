use terrier_backend::{HackathonRole, Role};

fn with_role(role: &str) -> HackathonRole {
    HackathonRole { user_id: 1, hackathon_id: 1, role: role.to_string(), slug: "summer25".to_string() }
}

fn caps(role: &str) -> [bool; 6] {
    let r = with_role(role);
    [r.is_admin(), r.is_organizer(), r.is_judge(), r.is_sponsor(), r.is_participant(), r.is_applicant()]
}

#[test]
fn admin_has_every_capability() {
    assert_eq!(caps("admin"), [true; 6]);
}

#[test]
fn organizer_is_staff_side_only() {
    assert_eq!(caps("organizer"), [false, true, true, true, false, false]);
}

#[test]
fn judge_and_sponsor_capabilities() {
    assert_eq!(caps("judge"), [false, false, true, false, false, false]);
    assert_eq!(caps("sponsor"), [false, false, false, true, false, false]);
}

#[test]
fn competitor_side_roles_are_islands() {
    assert_eq!(caps("participant"), [false, false, false, false, true, false]);
    assert_eq!(caps("applicant"), [false, false, false, false, false, true]);
}

#[test]
fn unknown_role_has_no_capability() {
    assert_eq!(caps("superuser"), [false; 6]);
    assert_eq!(caps("Admin"), [false; 6]);
    assert_eq!(caps(""), [false; 6]);
}

#[test]
fn organizer_passes_judge_and_sponsor_gates_but_not_competitor_gates() {
    for role in ["organizer", "judge", "sponsor", "participant", "applicant", "other"] {
        let r = with_role(role);
        if r.is_organizer() {
            assert!(r.is_judge() && r.is_sponsor());
            assert!(!r.is_participant() && !r.is_applicant());
        }
    }
}

#[test]
fn role_spellings_round_trip() {
    let all = [Role::Admin, Role::Organizer, Role::Judge, Role::Sponsor, Role::Participant, Role::Applicant];
    for r in all {
        assert_eq!(Role::parse(r.as_str()), Some(r));
    }
    assert_eq!(Role::Judge.as_str(), "judge");
    assert_eq!(Role::parse("owner"), None);
}
