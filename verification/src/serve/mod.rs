//! Child processes: `opencode serve` and the `rathole` tunnel.

pub mod ports;
pub mod process;
pub mod rathole;
pub mod supervisor;

pub use process::ProcessSpec;
pub use supervisor::{ServeAuth, ServeStatus, ServeSupervisor};
