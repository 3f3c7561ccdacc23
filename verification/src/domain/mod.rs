//! Domain entities shared across the application: the `path-list.md` records,
//! and the projects and sessions that the server reports.

pub mod path_entry;
pub mod project;
pub mod session;

pub use path_entry::{PathEntry, PathValidator};
pub use project::Project;
pub use session::{CreateSessionRequest, Location, Session};
