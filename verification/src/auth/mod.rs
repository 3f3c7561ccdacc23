//! Authentication: HTTP Basic and cookie session.

pub mod basic;
pub mod config;
pub mod session;

pub use config::{AuthConfig, AuthEnv, AuthFile};
