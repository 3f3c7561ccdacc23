//! The host platform and the names it goes by in remote paths and requests.

use vstd::prelude::*;

verus! {

/// The platforms that are told apart.
#[derive(Debug, Clone, Copy, PartialEq, Eq, Structural)]
pub enum Platform {
    MacOs,
    Windows,
    Linux,
    Other,
}

/// `whoami::platform`: the platform that this program was built for. Which one
/// it is, is left open.
#[verifier::external_body]
pub(crate) fn host_platform() -> (r: Platform) {
    match whoami::platform() {
        whoami::Platform::MacOS => Platform::MacOs,
        whoami::Platform::Windows => Platform::Windows,
        whoami::Platform::Linux => Platform::Linux,
        _ => Platform::Other,
    }
}

impl Platform {
    /// The name of a platform in device records.
    pub open spec fn device_tag(self) -> Seq<char> {
        match self {
            Platform::MacOs => "macos"@,
            Platform::Windows => "windows"@,
            Platform::Linux => "linux"@,
            Platform::Other => "unknown"@,
        }
    }

    /// The name of a platform as a remote path segment: only the two that the
    /// program ships for have one.
    pub open spec fn path_tag(self) -> Seq<char> {
        match self {
            Platform::MacOs => "macos"@,
            Platform::Windows => "windows"@,
            Platform::Linux | Platform::Other => "unknown"@,
        }
    }

    /// The name of this platform in device records.
    pub fn device_name(self) -> (r: &'static str)
        ensures
            r@ == self.device_tag(),
    {
        match self {
            Platform::MacOs => "macos",
            Platform::Windows => "windows",
            Platform::Linux => "linux",
            Platform::Other => "unknown",
        }
    }

    /// The name of this platform as a remote path segment.
    pub fn path_segment(self) -> (r: &'static str)
        ensures
            r@ == self.path_tag(),
    {
        match self {
            Platform::MacOs => "macos",
            Platform::Windows => "windows",
            Platform::Linux | Platform::Other => "unknown",
        }
    }
}

/// Device records and remote paths agree on every platform but Linux, which only
/// device records name.
pub proof fn law_tags_agree_but_on_linux(p: Platform)
    requires
        !(p is Linux),
    ensures
        p.device_tag() == p.path_tag(),
{
}

/// Each platform goes by its own name; only the two that the program ships for have
/// one in remote paths.
pub proof fn law_platforms_go_by_their_names(p: Platform)
    ensures
        p is MacOs ==> p.device_tag() == "macos"@ && p.path_tag() == "macos"@,
        p is Windows ==> p.device_tag() == "windows"@ && p.path_tag() == "windows"@,
        p is Linux ==> p.device_tag() == "linux"@ && p.path_tag() == "unknown"@,
        p is Other ==> p.device_tag() == "unknown"@ && p.path_tag() == "unknown"@,
{
}

} // verus!
