//! Supervisor, session and path-list logic of the local development server.

pub mod account;
pub mod attach;
pub mod auth;
pub mod cli;
pub mod config;
pub mod domain;
pub mod envfile;
pub mod error;
pub mod handlers;
pub mod host_path;
pub mod icons;
pub mod platform;
pub mod serve;
pub mod storage;
pub mod text;
pub mod time;
pub mod ui;
pub mod upgrade;
