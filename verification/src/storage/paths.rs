//! Remote path builder for the per-(user, OS, machine) store layout.
//!
//! Two layouts are supported:
//! - **Legacy**: `serv/opencode/{sb_user}/{pctype}/{pcname}/path-list.md`, where
//!   `sb_user` comes from the SilverBullet configuration and `pcname` is the
//!   local OS username.
//! - **New**: `serv/opencode/{user_id}/{pctype}/{device_name}/path-list.md`,
//!   where `user_id` is the account's user id and `device_name` the bound
//!   device. It is preferred whenever `user_id` is set.
//!
//! For a while the new layout had no `.md` suffix. Such files exist, but are
//! not shown as pages; they are only ever read, to be moved.

use vstd::prelude::*;
use vstd::string::*;

use crate::account::RemoteSbConfig;
use crate::error::glued;
use crate::platform;
use crate::platform::Platform;
use crate::text;

verus! {

/// `whoami::username`: the name of the OS user. What it is, is left open.
#[verifier::external_body]
pub(crate) fn os_username() -> (r: String) {
    whoami::username()
}

/// Platform tag used as a path segment: `"macos"`, `"windows"`, or `"unknown"`
/// on anything else.
#[must_use]
pub fn pctype() -> (r: &'static str)
    ensures
        exists|p: Platform| r@ == #[trigger] p.path_tag(),
{
    let p: Platform = platform::host_platform();
    let r: &'static str = p.path_segment();
    assert(r@ == p.path_tag());
    r
}

/// The machine name that an OS username gives.
pub open spec fn machine_name(username: Seq<char>) -> Seq<char> {
    let t = text::trimmed(username);
    if t.len() == 0 {
        "unknown"@
    } else {
        t
    }
}

/// The machine name that an OS username gives: the name without surrounding
/// white space, or `"unknown"` where nothing is left.
#[must_use]
pub fn pcname_of(username: &str) -> (r: String)
    ensures
        r@ == machine_name(username@),
        r@.len() > 0,
{
    proof {
        reveal_strlit("unknown");
    }
    let t: String = text::trim(username);
    if t.as_str().is_empty() {
        "unknown".to_owned()
    } else {
        t
    }
}

/// Local OS username, or `"unknown"` where there is none.
#[must_use]
pub fn pcname() -> (r: String)
    ensures
        r@.len() > 0,
        exists|username: Seq<char>| r@ == #[trigger] machine_name(username),
{
    let u: String = os_username();
    let r: String = pcname_of(u.as_str());
    assert(r@ == machine_name(u@));
    r
}

/// Per-tenant remote path layout builder.
///
/// Holds either the new-format identity (`user_id` and `device_name`) or the
/// legacy one (`sb_user` and `pcname`). The new layout is preferred when
/// `user_id` is not empty.
#[derive(Debug, Clone)]
pub struct RemotePaths {
    /// Account user id (new format).
    pub user_id: String,
    /// Platform tag (both layouts).
    pub pctype: &'static str,
    /// Bound device (new format).
    pub device_name: String,
    /// SilverBullet login (legacy).
    pub sb_user: String,
    /// Local OS username (legacy).
    pub pcname: String,
}

/// What a [`RemotePaths`] holds.
pub struct PathsView {
    pub user_id: Seq<char>,
    pub pctype: Seq<char>,
    pub device_name: Seq<char>,
    pub sb_user: Seq<char>,
    pub pcname: Seq<char>,
}

impl View for RemotePaths {
    type V = PathsView;

    open spec fn view(&self) -> PathsView {
        PathsView {
            user_id: self.user_id@,
            pctype: self.pctype@,
            device_name: self.device_name@,
            sb_user: self.sb_user@,
            pcname: self.pcname@,
        }
    }
}

/// The legacy identity of a SilverBullet user on a machine.
pub open spec fn legacy_identity(sb_user: Seq<char>, p: Platform, username: Seq<char>) -> PathsView {
    PathsView {
        user_id: Seq::empty(),
        pctype: p.path_tag(),
        device_name: Seq::empty(),
        sb_user,
        pcname: machine_name(username),
    }
}

/// The new-format identity of a user's device.
pub open spec fn device_identity(user_id: Seq<char>, device_name: Seq<char>, p: Platform) -> PathsView {
    PathsView {
        user_id,
        pctype: p.path_tag(),
        device_name,
        sb_user: Seq::empty(),
        pcname: Seq::empty(),
    }
}

/// The path of a file below the directory of an owner, a platform and a
/// machine.
pub open spec fn stored_at(
    owner: Seq<char>,
    pctype: Seq<char>,
    machine: Seq<char>,
    file: Seq<char>,
) -> Seq<char> {
    "serv/opencode/"@ + owner + "/"@ + pctype + "/"@ + machine + "/"@ + file
}

impl PathsView {
    pub open spec fn new_format(self) -> Seq<char> {
        stored_at(self.user_id, self.pctype, self.device_name, "path-list.md"@)
    }

    pub open spec fn new_format_nosuffix(self) -> Seq<char> {
        stored_at(self.user_id, self.pctype, self.device_name, "path-list"@)
    }

    pub open spec fn legacy(self) -> Seq<char> {
        stored_at(self.sb_user, self.pctype, self.pcname, "path-list.md"@)
    }

    pub open spec fn path_list(self) -> Seq<char> {
        if self.user_id.len() == 0 {
            self.legacy()
        } else {
            self.new_format()
        }
    }
}

fn stored_path(owner: &str, pctype: &str, machine: &str, file: &str) -> (r: String)
    ensures
        r@ == stored_at(owner@, pctype@, machine@, file@),
{
    let mut r: String = glued("serv/opencode/", owner);
    r.append("/");
    r.append(pctype);
    r.append("/");
    r.append(machine);
    r.append("/");
    r.append(file);
    r
}

impl RemotePaths {
    /// The legacy path plan of `sb_user` on the platform `p` for the OS user
    /// `username`.
    #[must_use]
    pub fn legacy_on(sb_user: &str, p: Platform, username: &str) -> (r: Self)
        ensures
            r@ == legacy_identity(sb_user@, p, username@),
    {
        RemotePaths {
            user_id: String::new(),
            pctype: p.path_segment(),
            device_name: String::new(),
            sb_user: sb_user.to_owned(),
            pcname: pcname_of(username),
        }
    }

    /// The new-format path plan of a user's device on the platform `p`.
    #[must_use]
    pub fn device_on(user_id: &str, device_name: &str, p: Platform) -> (r: Self)
        ensures
            r@ == device_identity(user_id@, device_name@, p),
    {
        RemotePaths {
            user_id: user_id.to_owned(),
            pctype: p.path_segment(),
            device_name: device_name.to_owned(),
            sb_user: String::new(),
            pcname: String::new(),
        }
    }

    /// The legacy path plan of `sb_user` on this machine.
    #[must_use]
    pub fn new(sb_user: &str) -> (r: Self)
        ensures
            exists|p: Platform, username: Seq<char>|
                r@ == #[trigger] legacy_identity(sb_user@, p, username),
    {
        let u: String = os_username();
        let p: Platform = platform::host_platform();
        let r = RemotePaths::legacy_on(sb_user, p, u.as_str());
        assert(r@ == legacy_identity(sb_user@, p, u@));
        r
    }

    /// The new-format path plan of a user's device on this machine's platform.
    #[must_use]
    pub fn with_user_info(user_id: &str, device_name: &str) -> (r: Self)
        ensures
            exists|p: Platform| r@ == #[trigger] device_identity(user_id@, device_name@, p),
    {
        let p: Platform = platform::host_platform();
        let r = RemotePaths::device_on(user_id, device_name, p);
        assert(r@ == device_identity(user_id@, device_name@, p));
        r
    }

    /// The legacy path plan of the user in a SilverBullet configuration.
    #[must_use]
    pub fn from_sb_config(info: &RemoteSbConfig) -> (r: Self)
        ensures
            exists|p: Platform, username: Seq<char>|
                r@ == #[trigger] legacy_identity(info.username@, p, username),
    {
        RemotePaths::new(info.username.as_str())
    }

    /// New-format path (no leading slash):
    /// `serv/opencode/{user_id}/{pctype}/{device_name}/path-list.md`.
    #[must_use]
    pub fn path_list_new_format(&self) -> (r: String)
        ensures
            r@ == self@.new_format(),
    {
        stored_path(
            self.user_id.as_str(),
            self.pctype,
            self.device_name.as_str(),
            "path-list.md",
        )
    }

    /// The new-format path without its suffix. Only to be read from, never to
    /// be written to.
    #[must_use]
    pub fn path_list_new_format_nosuffix(&self) -> (r: String)
        ensures
            r@ == self@.new_format_nosuffix(),
    {
        stored_path(self.user_id.as_str(), self.pctype, self.device_name.as_str(), "path-list")
    }

    /// Legacy path (no leading slash):
    /// `serv/opencode/{sb_user}/{pctype}/{pcname}/path-list.md`.
    #[must_use]
    pub fn path_list_legacy(&self) -> (r: String)
        ensures
            r@ == self@.legacy(),
    {
        stored_path(self.sb_user.as_str(), self.pctype, self.pcname.as_str(), "path-list.md")
    }

    /// The path of the path list (no leading slash): the new layout when
    /// `user_id` is set, else the legacy one.
    #[must_use]
    pub fn path_list(&self) -> (r: String)
        ensures
            r@ == self@.path_list(),
    {
        if self.user_id.as_str().is_empty() {
            self.path_list_legacy()
        } else {
            self.path_list_new_format()
        }
    }

    /// The path of the path list with a leading slash.
    #[must_use]
    pub fn path_list_with_slash(&self) -> (r: String)
        ensures
            r@ == "/"@ + self@.path_list(),
    {
        let p: String = self.path_list();
        glued("/", p.as_str())
    }
}

/// The path without the suffix differs from the new-format path by `.md` alone,
/// so that what is read from the one is moved to the other.
pub proof fn law_nosuffix_differs_by_suffix(v: PathsView)
    ensures
        v.new_format_nosuffix() + ".md"@ == v.new_format(),
{
    reveal_strlit("path-list");
    reveal_strlit(".md");
    reveal_strlit("path-list.md");
    assert("path-list"@ + ".md"@ =~= "path-list.md"@);
    let front = "serv/opencode/"@ + v.user_id + "/"@ + v.pctype + "/"@ + v.device_name + "/"@;
    assert((front + "path-list"@) + ".md"@ =~= front + ("path-list"@ + ".md"@));
}

/// A path list is kept below the segments of its owner, platform and machine: of the
/// account and its device where there is an account, else of the login and the user
/// of the machine.
pub proof fn law_path_list_is_kept_by_owner_and_machine(v: PathsView)
    requires
        text::has_no(v.user_id, '/'),
        text::has_no(v.pctype, '/'),
        text::has_no(v.device_name, '/'),
        text::has_no(v.sb_user, '/'),
        text::has_no(v.pcname, '/'),
    ensures
        v.user_id.len() > 0 ==> text::split(v.path_list(), '/') == seq![
            "serv"@,
            "opencode"@,
            v.user_id,
            v.pctype,
            v.device_name,
            "path-list.md"@,
        ],
        v.user_id.len() == 0 ==> text::split(v.path_list(), '/') == seq![
            "serv"@,
            "opencode"@,
            v.sb_user,
            v.pctype,
            v.pcname,
            "path-list.md"@,
        ],
        v.new_format() == v.new_format_nosuffix() + ".md"@,
{
    lemma_stored_at(v.user_id, v.pctype, v.device_name);
    lemma_stored_at(v.sb_user, v.pctype, v.pcname);
    law_nosuffix_differs_by_suffix(v);
}

proof fn lemma_stored_at(owner: Seq<char>, pctype: Seq<char>, machine: Seq<char>)
    requires
        text::has_no(owner, '/'),
        text::has_no(pctype, '/'),
        text::has_no(machine, '/'),
    ensures
        text::split(stored_at(owner, pctype, machine, "path-list.md"@), '/') == seq![
            "serv"@,
            "opencode"@,
            owner,
            pctype,
            machine,
            "path-list.md"@,
        ],
{
    reveal_strlit("serv/opencode/");
    reveal_strlit("serv");
    reveal_strlit("opencode");
    reveal_strlit("/");
    reveal_strlit("path-list.md");
    let file = "path-list.md"@;
    let a = machine + seq!['/'] + file;
    let b = pctype + seq!['/'] + a;
    let c = owner + seq!['/'] + b;
    let d = "opencode"@ + seq!['/'] + c;
    let e = "serv"@ + seq!['/'] + d;
    assert(stored_at(owner, pctype, machine, file) =~= e);
    assert(text::has_no("serv"@, '/'));
    assert(text::has_no("opencode"@, '/'));
    text::lemma_split_cons("serv"@, '/', d);
    text::lemma_split_cons("opencode"@, '/', c);
    text::lemma_split_cons(owner, '/', b);
    text::lemma_split_cons(pctype, '/', a);
    text::lemma_split_cons(machine, '/', file);
    text::lemma_find_none(file, '/');
    assert(text::split(file, '/') =~= seq![file]);
    assert(text::split(e, '/') =~= seq!["serv"@, "opencode"@, owner, pctype, machine, file]);
}

/// A machine is named after its user, white space around the name left out; a name
/// that is blank is unknown.
pub proof fn law_machines_are_named_after_their_users(username: Seq<char>)
    ensures
        (exists|i: int| 0 <= i < username.len() && !text::is_white(#[trigger] username[i]))
            ==> machine_name(username) == text::trimmed(username),
        (forall|i: int| 0 <= i < username.len() ==> text::is_white(#[trigger] username[i]))
            ==> machine_name(username) == "unknown"@,
{
    text::law_blank_texts_trim_to_nothing(username);
}

/// The identities of a login and of a device fill the fields of their own layout and
/// leave those of the other empty.
pub proof fn law_identities_fill_their_layout(
    name: Seq<char>,
    device: Seq<char>,
    p: Platform,
    username: Seq<char>,
)
    ensures
        ({
            let old_form = legacy_identity(name, p, username);
            let new_form = device_identity(name, device, p);
            &&& old_form.path_list() == old_form.legacy()
            &&& old_form.sb_user == name && old_form.pcname == machine_name(username)
            &&& old_form.pctype == p.path_tag()
            &&& name.len() > 0 ==> new_form.path_list() == new_form.new_format()
            &&& new_form.user_id == name && new_form.device_name == device
            &&& new_form.pctype == p.path_tag()
        }),
{
}

} // verus!
