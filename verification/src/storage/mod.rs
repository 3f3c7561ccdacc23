//! The path list: its local file, its remote copy, and keeping the two in step.

pub mod cache;
pub mod merge;
pub mod paths;
pub mod push;
pub mod remote;
pub mod sync;

pub use cache::FileCache;
pub use paths::RemotePaths;
pub use remote::RemoteClient;
pub use sync::PathListStore;
