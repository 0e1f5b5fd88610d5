//! Core of a forward-authentication gateway: a reverse proxy delegates its
//! allow/deny decisions to this library.  The crate holds the policy engine
//! that matches request paths against a precedence-ordered rule table, the
//! credential store with its derived session tokens, the login rate limiter,
//! the single-use redirect state that survives the login round trip, and the
//! request-level decision functions that tie them together.

pub mod admin;
pub mod config;
pub mod credentials;
pub mod errors;
pub mod orchestrator;
pub mod policy;
pub mod rate_limiter;
pub mod redirect;
pub mod rules;
pub mod strutil;
pub mod text;
pub mod urls;
