//! Decisions behind the directory endpoints of an organization and behind single
//! sign-on: what to do next, what to ask others for, and what to answer.
use vstd::prelude::*;

pub mod base64;
pub mod bulk_confirm;
pub mod client;
pub mod client_cache;
pub mod clock;
pub mod http;
pub mod import_course;
pub mod import_groups;
pub mod import_records;
pub mod import_records_laws;
pub mod import_removals;
pub mod json;
pub mod keycloak;
pub mod keycloak_admin;
pub mod ldap_import;
pub mod ldap_import_laws;
pub mod membership;
pub mod oidc;
pub mod public_members;
pub mod public_token;
pub mod repeated_import;
pub mod sso_client;
pub mod sso_error;
pub mod sso_logout;
pub mod text;
pub mod url_parts;
