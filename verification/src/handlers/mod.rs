//! What the HTTP endpoints answer.
//!
//! - `GET  /status`                  (no auth)
//! - `GET  /project`                 (HTTP Basic)
//! - `GET  /session?directory=...`   (HTTP Basic)
//! - `POST /api/session`             (HTTP Basic)
//! - `GET  /.fs/<path>`              (cookie session)
//! - `PUT  /.fs/<path>`              (cookie session)

pub mod fs_proxy;
pub mod session;
pub mod status;
