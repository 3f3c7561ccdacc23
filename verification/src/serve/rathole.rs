//! Where the bundled `rathole` binary and its configuration are.
//!
//! ```text
//! rathole/
//! ├── bin/
//! │   ├── macos/rathole
//! │   └── windows/rathole.exe
//! └── settings/*.toml
//! ```

use vstd::prelude::*;
use vstd::string::*;

use crate::error::glued;
use crate::platform;
use crate::platform::Platform;
use crate::text;

verus! {

/// Default tunnel configuration (relative to the working directory).
pub const DEFAULT_CONFIG: &'static str = "rathole/settings/33-9464.toml";

/// The file name of the binary on a platform.
pub open spec fn binary_on(p: Platform) -> Seq<char> {
    if p is Windows {
        "rathole.exe"@
    } else {
        "rathole"@
    }
}

/// The file name of the binary on a platform (Windows appends `.exe`).
#[must_use]
pub fn bin_name_on(p: Platform) -> (r: &'static str)
    ensures
        r@ == binary_on(p),
{
    match p {
        Platform::Windows => "rathole.exe",
        _ => "rathole",
    }
}

/// The file name of the binary on this platform.
#[must_use]
pub fn bin_name() -> (r: &'static str)
    ensures
        exists|p: Platform| r@ == #[trigger] binary_on(p),
{
    let p: Platform = platform::host_platform();
    let r: &'static str = bin_name_on(p);
    assert(r@ == binary_on(p));
    r
}

/// The path of the bundled binary for a platform.
pub open spec fn bundled_bin(p: Platform) -> Seq<char> {
    "rathole/bin/"@ + p.device_tag() + "/"@ + binary_on(p)
}

/// The path of the binary for a platform: `explicit` (`RATHOLE_BIN`) where it is
/// given, else the bundled one.
#[must_use]
pub fn default_bin_on(explicit: Option<&str>, p: Platform) -> (r: String)
    ensures
        r@ == (match explicit {
            Some(b) => b@,
            None => bundled_bin(p),
        }),
{
    match explicit {
        Some(b) => b.to_owned(),
        None => {
            let mut r: String = glued("rathole/bin/", p.device_name());
            r.append("/");
            r.append(bin_name_on(p));
            r
        },
    }
}

/// The path of the binary for this platform.
#[must_use]
pub fn default_bin(explicit: Option<&str>) -> (r: String)
    ensures
        match explicit {
            Some(b) => r@ == b@,
            None => exists|p: Platform| r@ == #[trigger] bundled_bin(p),
        },
{
    let p: Platform = platform::host_platform();
    let r: String = default_bin_on(explicit, p);
    assert(explicit is None ==> r@ == bundled_bin(p));
    r
}

/// The path of the tunnel configuration: `explicit` (`RATHOLE_CONFIG`) where it
/// is given, else the default one.
#[must_use]
pub fn default_config(explicit: Option<&str>) -> (r: String)
    ensures
        r@ == (match explicit {
            Some(c) => c@,
            None => DEFAULT_CONFIG@,
        }),
{
    match explicit {
        Some(c) => c.to_owned(),
        None => DEFAULT_CONFIG.to_owned(),
    }
}

/// Each platform has its own directory of the bundle; only on Windows the binary has
/// a suffix.
pub proof fn law_bundled_binary_of_the_platform(p: Platform)
    ensures
        p is MacOs ==> bundled_bin(p) == "rathole/bin/macos/rathole"@,
        p is Windows ==> bundled_bin(p) == "rathole/bin/windows/rathole.exe"@,
        p is Linux ==> bundled_bin(p) == "rathole/bin/linux/rathole"@,
        text::ends_with(bundled_bin(p), binary_on(p)),
        text::ends_with(binary_on(p), ".exe"@) <==> p is Windows,
{
    reveal_strlit("rathole/bin/");
    reveal_strlit("macos");
    reveal_strlit("windows");
    reveal_strlit("linux");
    reveal_strlit("/");
    reveal_strlit("rathole");
    reveal_strlit("rathole.exe");
    reveal_strlit(".exe");
    reveal_strlit("rathole/bin/macos/rathole");
    reveal_strlit("rathole/bin/windows/rathole.exe");
    reveal_strlit("rathole/bin/linux/rathole");
    let b = bundled_bin(p);
    let name = binary_on(p);
    assert(b.skip(b.len() - name.len()) =~= name);
    assert("rathole.exe"@.skip(7) =~= ".exe"@);
    assert("rathole"@.skip(3)[0] == 'h');
    if p is MacOs {
        assert(b =~= "rathole/bin/macos/rathole"@);
    } else if p is Windows {
        assert(b =~= "rathole/bin/windows/rathole.exe"@);
    } else if p is Linux {
        assert(b =~= "rathole/bin/linux/rathole"@);
    }
}

} // verus!
