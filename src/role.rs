use vstd::prelude::*;
use crate::text::same_text;

verus! {

/// The closed set of roles a user can hold within one hackathon.
#[derive(Clone, Copy, Debug, PartialEq, Eq, Structural)]
pub enum Role {
    Admin,
    Organizer,
    Judge,
    Sponsor,
    Participant,
    Applicant,
}

/// The storage spelling of each role.
pub open spec fn role_text(r: Role) -> Seq<char> {
    match r {
        Role::Admin => "admin"@,
        Role::Organizer => "organizer"@,
        Role::Judge => "judge"@,
        Role::Sponsor => "sponsor"@,
        Role::Participant => "participant"@,
        Role::Applicant => "applicant"@,
    }
}

/// The role whose storage spelling is `s`, if any.
pub open spec fn role_of_text(s: Seq<char>) -> Option<Role> {
    if s == "admin"@ {
        Some(Role::Admin)
    } else if s == "organizer"@ {
        Some(Role::Organizer)
    } else if s == "judge"@ {
        Some(Role::Judge)
    } else if s == "sponsor"@ {
        Some(Role::Sponsor)
    } else if s == "participant"@ {
        Some(Role::Participant)
    } else if s == "applicant"@ {
        Some(Role::Applicant)
    } else {
        None
    }
}

} // verus!

verus! {

/// Capability predicates over a stored role spelling. Every one of them is
/// also held by `admin`.
pub open spec fn admin_cap(s: Seq<char>) -> bool {
    s == "admin"@
}

pub open spec fn organizer_cap(s: Seq<char>) -> bool {
    s == "admin"@ || s == "organizer"@
}

pub open spec fn judge_cap(s: Seq<char>) -> bool {
    s == "admin"@ || s == "organizer"@ || s == "judge"@
}

pub open spec fn sponsor_cap(s: Seq<char>) -> bool {
    s == "admin"@ || s == "organizer"@ || s == "sponsor"@
}

pub open spec fn participant_cap(s: Seq<char>) -> bool {
    s == "admin"@ || s == "participant"@
}

pub open spec fn applicant_cap(s: Seq<char>) -> bool {
    s == "admin"@ || s == "applicant"@
}

impl Role {
    /// The storage spelling of this role.
    pub fn as_str(&self) -> (r: &'static str)
        ensures
            r@ == role_text(*self),
    {
        match self {
            Role::Admin => "admin",
            Role::Organizer => "organizer",
            Role::Judge => "judge",
            Role::Sponsor => "sponsor",
            Role::Participant => "participant",
            Role::Applicant => "applicant",
        }
    }

    /// Reads a stored role spelling; `None` for anything outside the closed set.
    pub fn parse(s: &str) -> (r: Option<Role>)
        ensures
            r == role_of_text(s@),
    {
        if same_text(s, "admin") {
            Some(Role::Admin)
        } else if same_text(s, "organizer") {
            Some(Role::Organizer)
        } else if same_text(s, "judge") {
            Some(Role::Judge)
        } else if same_text(s, "sponsor") {
            Some(Role::Sponsor)
        } else if same_text(s, "participant") {
            Some(Role::Participant)
        } else if same_text(s, "applicant") {
            Some(Role::Applicant)
        } else {
            None
        }
    }
}

/// The effective role of a user within one hackathon.
pub struct HackathonRole {
    pub user_id: i32,
    pub hackathon_id: i32,
    pub role: String,
    pub slug: String,
}

impl HackathonRole {
    pub fn is_admin(&self) -> (r: bool)
        ensures
            r == admin_cap(self.role@),
    {
        same_text(self.role.as_str(), "admin")
    }

    pub fn is_organizer(&self) -> (r: bool)
        ensures
            r == organizer_cap(self.role@),
    {
        let s = self.role.as_str();
        same_text(s, "admin") || same_text(s, "organizer")
    }

    pub fn is_judge(&self) -> (r: bool)
        ensures
            r == judge_cap(self.role@),
    {
        let s = self.role.as_str();
        same_text(s, "admin") || same_text(s, "organizer") || same_text(s, "judge")
    }

    pub fn is_sponsor(&self) -> (r: bool)
        ensures
            r == sponsor_cap(self.role@),
    {
        let s = self.role.as_str();
        same_text(s, "admin") || same_text(s, "organizer") || same_text(s, "sponsor")
    }

    pub fn is_participant(&self) -> (r: bool)
        ensures
            r == participant_cap(self.role@),
    {
        let s = self.role.as_str();
        same_text(s, "admin") || same_text(s, "participant")
    }

    pub fn is_applicant(&self) -> (r: bool)
        ensures
            r == applicant_cap(self.role@),
    {
        let s = self.role.as_str();
        same_text(s, "admin") || same_text(s, "applicant")
    }
}

/// Organizers reach every place gated on judging or sponsoring, and no role
/// but admin that passes the organizer check reaches the participant or
/// applicant side.
pub proof fn lemma_organizer_capabilities(s: Seq<char>)
    requires
        organizer_cap(s),
    ensures
        judge_cap(s),
        sponsor_cap(s),
        s != "admin"@ ==> !participant_cap(s) && !applicant_cap(s),
{
    reveal_strlit("admin");
    reveal_strlit("organizer");
    reveal_strlit("participant");
    reveal_strlit("applicant");
    if s == "organizer"@ {
        assert("organizer"@[0] != "participant"@[0]);
        assert("organizer"@[0] != "applicant"@[0]);
    }
}

} // verus!
