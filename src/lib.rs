//! Authorization core of a multi-tenant hackathon platform: role hierarchy,
//! identity sync and per-tenant role resolution.

pub mod auth;
pub mod config;
pub mod directory;
pub mod hackathons;
pub mod model;
pub mod resolve;
pub mod role;
pub mod text;

pub use model::{copy_opt, AuthError, Hackathon, Identity, RoleAssignment, StoreFault, UserRecord};
pub use role::{HackathonRole, Role};
pub use text::{has_prefix, same_text};
pub use resolve::{
    contains_text, decide_role, is_global_admin, require_global_admin, resolve_role,
    RequireGlobalAdmin,
};
pub use directory::{provision, sync_needs_insert, active_hackathons, CreateHackathonRequest, Directory};
pub use auth::{decimal, login_redirect, user_status, LoginQuery, UserInfo};
pub use config::{parse_admin_emails, Config};
pub use hackathons::{get_user_role, list_hackathons, slug_available, HackathonInfo, UserRoleResponse};
