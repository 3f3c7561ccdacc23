//! SilverBullet-compatible remote file store client.
//!
//! Talks to `/.fs/<path>` with cookie session auth:
//! - one automatic re-login on 401
//! - network errors give status `0` (the caller takes it for "unreachable")
//!
//! The requests themselves are made elsewhere. Here stand the client's state,
//! the URLs it asks, and what it does with each reply.

use vstd::prelude::*;
use vstd::string::*;

use crate::account::{RemoteSbConfig, RemoteUserInfo};
use crate::error::{glued, AppError, ErrorView};
use crate::platform::{host_platform, Platform};
use crate::storage::paths;
use crate::storage::paths::{PathsView, RemotePaths};
use crate::text;

verus! {

/// HTTP status returned to callers. `0` stands for a network failure.
pub type Status = u16;

/// How `format!` prints a text with `{:?}`: quoted, with special characters
/// escaped.
pub uninterp spec fn debug_text(s: Seq<char>) -> Seq<char>;

/// The `Debug` form of a text (`format!("{:?}")`), named [`debug_text`].
#[verifier::external_body]
fn debug_form(s: &str) -> (r: String)
    ensures
        r@ == debug_text(s@),
{
    format!("{:?}", s)
}

/// Remote file store client.
#[derive(Debug)]
pub struct RemoteClient {
    /// Base URL, e.g. `https://md.isoops.com`.
    pub base_url: String,
    /// Cookie name to send and look for (e.g. `auth_md_isoops_com`).
    pub cookie_name: String,
    /// Current cookie (`<name>=<jwt>`).
    pub cookie: Option<String>,
    /// Login name used by the automatic re-login; also the owner of the legacy
    /// remote path.
    pub user: Option<String>,
    /// Account user id. When it is set, the path list is kept in the new layout.
    pub user_id: Option<String>,
    /// Bound device, a segment of the new layout.
    pub device_name: Option<String>,
    /// Password used by the automatic re-login.
    pub password: Option<String>,
}

pub open spec fn opt_view(s: Option<String>) -> Option<Seq<char>> {
    match s {
        Some(t) => Some(t@),
        None => None,
    }
}

/// What a [`RemoteClient`] holds.
pub struct ClientView {
    pub base_url: Seq<char>,
    pub cookie_name: Seq<char>,
    pub cookie: Option<Seq<char>>,
    pub user: Option<Seq<char>>,
    pub user_id: Option<Seq<char>>,
    pub device_name: Option<Seq<char>>,
    pub password: Option<Seq<char>>,
}

impl View for RemoteClient {
    type V = ClientView;

    open spec fn view(&self) -> ClientView {
        ClientView {
            base_url: self.base_url@,
            cookie_name: self.cookie_name@,
            cookie: opt_view(self.cookie),
            user: opt_view(self.user),
            user_id: opt_view(self.user_id),
            device_name: opt_view(self.device_name),
            password: opt_view(self.password),
        }
    }
}

fn clone_opt(s: &Option<String>) -> (r: Option<String>)
    ensures
        opt_view(r) == opt_view(*s),
{
    match s {
        Some(t) => Some(t.clone()),
        None => None,
    }
}

impl Clone for RemoteClient {
    fn clone(&self) -> (r: Self)
        ensures
            r@ == self@,
    {
        RemoteClient {
            base_url: self.base_url.clone(),
            cookie_name: self.cookie_name.clone(),
            cookie: clone_opt(&self.cookie),
            user: clone_opt(&self.user),
            user_id: clone_opt(&self.user_id),
            device_name: clone_opt(&self.device_name),
            password: clone_opt(&self.password),
        }
    }
}

/// The host in a base URL: what stands between the scheme and the next `/` or
/// `:`.
pub open spec fn host_of(base_url: Seq<char>) -> Seq<char> {
    let rest = match text::find_str(base_url, "://"@) {
        Some(i) => base_url.skip(i + "://"@.len()),
        None => base_url,
    };
    text::before_first(text::before_first(rest, '/'), ':')
}

/// The cookie name of a base URL: `auth_` and the host with underscores for
/// dots.
pub open spec fn cookie_name_of(base_url: Seq<char>) -> Seq<char> {
    "auth_"@ + text::replaced(host_of(base_url), '.', '_')
}

/// Derives the SilverBullet cookie name from a base URL, e.g.
/// `https://md.isoops.com` gives `auth_md_isoops_com`.
#[must_use]
pub fn derive_cookie_name(base_url: &str) -> (r: String)
    ensures
        r@ == cookie_name_of(base_url@),
{
    let rest: String = match text::after_str(base_url, "://") {
        Some(t) => t,
        None => base_url.to_owned(),
    };
    let host_and_port: String = text::until(rest.as_str(), '/');
    let host: String = text::until(host_and_port.as_str(), ':');
    let tail: String = text::replace_char(host.as_str(), '.', '_');
    glued("auth_", tail.as_str())
}

/// The cookie that a list of `Set-Cookie` values sets: the first one of that
/// name, without its attributes.
pub open spec fn cookie_in(set_cookies: Seq<Seq<char>>, cookie_name: Seq<char>) -> Option<Seq<char>>
    decreases set_cookies.len(),
{
    let prefix = cookie_name + "="@;
    if set_cookies.len() == 0 {
        None
    } else if text::starts_with(set_cookies[0], prefix) {
        Some(prefix + text::before_first(set_cookies[0].skip(prefix.len() as int), ';'))
    } else {
        cookie_in(set_cookies.skip(1), cookie_name)
    }
}

/// Finds the session cookie among the `Set-Cookie` values of a response.
pub fn extract_cookie(set_cookies: &Vec<String>, cookie_name: &str) -> (r: Option<String>)
    ensures
        opt_view(r) == cookie_in(text::views(set_cookies@), cookie_name@),
{
    let prefix: String = glued(cookie_name, "=");
    let ghost vs = text::views(set_cookies@);
    let mut i: usize = 0;
    assert(vs.skip(0) =~= vs);
    while i < set_cookies.len()
        invariant
            i <= set_cookies@.len(),
            vs == text::views(set_cookies@),
            prefix@ == cookie_name@ + "="@,
            cookie_in(vs, cookie_name@) == cookie_in(vs.skip(i as int), cookie_name@),
        decreases set_cookies@.len() - i,
    {
        assert(vs.skip(i as int)[0] == set_cookies@[i as int]@);
        assert(vs.skip(i as int).skip(1) =~= vs.skip(i + 1));
        if let Some(rest) = text::after_prefix(set_cookies[i].as_str(), prefix.as_str()) {
            let value: String = text::until(rest.as_str(), ';');
            return Some(glued(prefix.as_str(), value.as_str()));
        }
        i = i + 1;
    }
    None
}

/// The remote path plan of a client: the new layout when it has a user id, for
/// which it needs a device, else the legacy layout of its login name.
pub open spec fn planned(c: ClientView, p: Platform, username: Seq<char>) -> Result<
    PathsView,
    ErrorView,
> {
    match c.user_id {
        Some(id) if id.len() > 0 => {
            let device = match c.device_name {
                Some(d) => text::trimmed(d),
                None => Seq::<char>::empty(),
            };
            if device.len() > 0 {
                Ok(paths::device_identity(id, device, p))
            } else {
                Err(ErrorView::Internal(device_required(id)))
            }
        },
        _ => Ok(
            paths::legacy_identity(
                match c.user {
                    Some(u) => u,
                    None => "unknown"@,
                },
                p,
                username,
            ),
        ),
    }
}

pub open spec fn device_required(user_id: Seq<char>) -> Seq<char> {
    "device_name is required for new-format remote path (user_id="@ + debug_text(user_id)
        + "); refusing to fall back to OS username — caller must select a bound device first"@
}

/// Whether the path plan of a client exists: it has no user id, or a device.
pub open spec fn has_plan(c: ClientView) -> bool {
    match c.user_id {
        Some(id) if id.len() > 0 => match c.device_name {
            Some(d) => text::trimmed(d).len() > 0,
            None => false,
        },
        _ => true,
    }
}

/// What comes of a request after its first attempt.
pub enum FirstStep {
    /// It is settled.
    Done(Status, String),
    /// The session has expired: log in again and retry. The body is that of the
    /// refusal.
    Relogin(String),
}

pub open spec fn first_step(first: Result<(Status, String), AppError>) -> (Status, Seq<char>) {
    match first {
        Err(e) => (0, e@.message()),
        Ok((status, body)) => (status, body@),
    }
}

/// What a whole exchange comes to: the first reply, unless it is a 401 that a
/// re-login and a retry get past.
pub open spec fn exchanged(
    first: Result<(Status, String), AppError>,
    relogin_ok: bool,
    retry: Result<(Status, String), AppError>,
) -> (Status, Seq<char>) {
    let (status, body) = first_step(first);
    if first is Ok && status == 401 && relogin_ok {
        match retry {
            Ok((s, b)) => (s, b@),
            Err(_) => (401, body),
        }
    } else {
        (status, body)
    }
}

/// A client of a server that is not logged in, with the login and the identity that
/// it was given.
pub open spec fn client_of(
    base_url: Seq<char>,
    login: Option<(Seq<char>, Seq<char>)>,
    identity: Option<(Seq<char>, Seq<char>)>,
) -> ClientView {
    ClientView {
        base_url,
        cookie_name: cookie_name_of(base_url),
        cookie: None,
        user: match login {
            Some((user, _)) => Some(user),
            None => None,
        },
        user_id: match identity {
            Some((id, _)) => Some(id),
            None => None,
        },
        device_name: match identity {
            Some((_, device)) => Some(device),
            None => None,
        },
        password: match login {
            Some((_, password)) => Some(password),
            None => None,
        },
    }
}

/// The error that the reply to a login comes to, if it failed.
pub open spec fn login_error(
    c: ClientView,
    reply: Result<(Status, Vec<String>), String>,
) -> Option<ErrorView> {
    match reply {
        Err(e) => Some(ErrorView::Internal("login network error: "@ + e@)),
        Ok((status, cookies)) => if status == 401 || status == 403 {
            Some(ErrorView::Internal("login rejected: HTTP "@ + text::decimal(status as nat)))
        } else if cookie_in(text::views(cookies@), c.cookie_name) is None {
            Some(ErrorView::Internal("login response missing session cookie"@))
        } else {
            None
        },
    }
}

/// The URL of a file of a server.
pub open spec fn file_url(base_url: Seq<char>, path: Seq<char>) -> Seq<char> {
    text::without_trailing(base_url, '/') + "/.fs/"@ + text::without_leading(path, '/')
}

/// The URL of the login form of a server.
pub open spec fn form_url(base_url: Seq<char>) -> Seq<char> {
    text::without_trailing(base_url, '/') + "/.auth"@
}

impl RemoteClient {
    /// Construct a client without credentials.
    #[must_use]
    pub fn new(base_url: &str) -> (r: Self)
        ensures
            r@ == client_of(base_url@, None, None),
    {
        RemoteClient {
            base_url: base_url.to_owned(),
            cookie_name: derive_cookie_name(base_url),
            cookie: None,
            user: None,
            user_id: None,
            device_name: None,
            password: None,
        }
    }

    /// Construct a client with stored credentials for the automatic re-login.
    #[must_use]
    pub fn with_credentials(base_url: &str, user: String, password: String) -> (r: Self)
        ensures
            r@ == client_of(base_url@, Some((user@, password@)), None),
    {
        let mut c = RemoteClient::new(base_url);
        c.user = Some(user);
        c.password = Some(password);
        c
    }

    /// Construct a client from the SilverBullet configuration in the user
    /// information.
    #[must_use]
    pub fn from_user_info(info: &RemoteSbConfig) -> (r: Self)
        ensures
            r@ == client_of(info.base_url@, Some((info.username@, info.password@)), None),
    {
        RemoteClient::with_credentials(
            info.base_url.as_str(),
            info.username.clone(),
            info.password.clone(),
        )
    }

    /// Construct a client that carries the identity of the new layout (user id
    /// and device).
    #[must_use]
    pub fn from_user_info_v2(info: &RemoteUserInfo, device_name: &str, password: &str) -> (r: Self)
        ensures
            r@ == client_of(
                info.sb.base_url@,
                Some((info.sb.username@, password@)),
                Some((info.id@, device_name@)),
            ),
    {
        let mut c = RemoteClient::with_credentials(
            info.sb.base_url.as_str(),
            info.sb.username.clone(),
            password.to_owned(),
        );
        c.user_id = Some(info.id.clone());
        c.device_name = Some(device_name.to_owned());
        c
    }

    /// The path plan of this client on the platform `p` for the OS user
    /// `username`.
    ///
    /// # Errors
    /// Returns [`AppError::Internal`] when there is a user id but the device
    /// name is missing or blank.
    pub fn remote_paths_on(&self, p: Platform, username: &str) -> (r: Result<RemotePaths, AppError>)
        ensures
            match r {
                Ok(v) => planned(self@, p, username@) == Ok::<PathsView, ErrorView>(v@),
                Err(e) => planned(self@, p, username@) == Err::<PathsView, ErrorView>(e@),
            },
            r is Ok <==> has_plan(self@),
    {
        let user_id: &str = match &self.user_id {
            Some(id) => id.as_str(),
            None => "",
        };
        proof {
            reveal_strlit("");
        }
        if user_id.is_empty() {
            let owner: &str = match &self.user {
                Some(u) => u.as_str(),
                None => "unknown",
            };
            return Ok(RemotePaths::legacy_on(owner, p, username));
        }
        let device: String = match &self.device_name {
            Some(d) => text::trim(d.as_str()),
            None => String::new(),
        };
        if device.as_str().is_empty() {
            let shown: String = debug_form(user_id);
            let mut m: String = glued(
                "device_name is required for new-format remote path (user_id=",
                shown.as_str(),
            );
            m.append(
                "); refusing to fall back to OS username — caller must select a bound device first",
            );
            return Err(AppError::Internal(m));
        }
        Ok(RemotePaths::device_on(user_id, device.as_str(), p))
    }

    /// The path plan of this client on this machine.
    ///
    /// # Errors
    /// Returns [`AppError::Internal`] when there is a user id but the device
    /// name is missing or blank: the layout of a device is never kept under the
    /// OS username.
    pub fn remote_paths(&self) -> (r: Result<RemotePaths, AppError>)
        ensures
            r is Ok <==> has_plan(self@),
            match r {
                Ok(v) => exists|p: Platform, username: Seq<char>|
                    #[trigger] planned(self@, p, username) == Ok::<PathsView, ErrorView>(v@),
                Err(e) => forall|p: Platform, username: Seq<char>|
                    #[trigger] planned(self@, p, username) == Err::<PathsView, ErrorView>(e@),
            },
    {
        let p: Platform = host_platform();
        let u: String = paths::os_username();
        let r = self.remote_paths_on(p, u.as_str());
        assert(planned(self@, p, u@) is Ok || planned(self@, p, u@) is Err);
        r
    }

    /// Derives the SilverBullet cookie name from a base URL.
    #[must_use]
    pub fn derive_cookie_name(base_url: &str) -> (r: String)
        ensures
            r@ == cookie_name_of(base_url@),
    {
        derive_cookie_name(base_url)
    }

    /// The URL of a remote file.
    #[must_use]
    pub fn url_for(&self, path: &str) -> (r: String)
        ensures
            r@ == file_url(self@.base_url, path@),
    {
        let mut r: String = text::trim_end_char(self.base_url.as_str(), '/');
        r.append("/.fs/");
        let rel: String = text::trim_start_char(path, '/');
        r.append(rel.as_str());
        r
    }

    /// The URL of the login form.
    #[must_use]
    pub fn login_url(&self) -> (r: String)
        ensures
            r@ == form_url(self@.base_url),
    {
        let mut r: String = text::trim_end_char(self.base_url.as_str(), '/');
        r.append("/.auth");
        r
    }

    /// Remembers the credentials of a login.
    pub fn remember(&mut self, user: &str, password: &str)
        ensures
            final(self)@ == (ClientView {
                user: Some(user@),
                password: Some(password@),
                ..old(self)@
            }),
    {
        self.user = Some(user.to_owned());
        self.password = Some(password.to_owned());
    }

    /// Decides a login: keeps the session cookie of the response. `reply` holds
    /// the status and the `Set-Cookie` values of the response, or the network
    /// error.
    ///
    /// # Errors
    /// Returns [`AppError::Internal`] on a network failure, when the credentials
    /// are rejected (401 or 403), and when the response does not set the session
    /// cookie. The client is then unchanged.
    pub fn login(&mut self, reply: Result<(Status, Vec<String>), String>) -> (r: Result<
        (),
        AppError,
    >)
        ensures
            match login_error(old(self)@, reply) {
                Some(e) => r matches Err(f) && f@ == e && final(self)@ == old(self)@,
                None => r is Ok && final(self)@ == (ClientView {
                    cookie: cookie_in(text::views(reply->Ok_0.1@), old(self)@.cookie_name),
                    ..old(self)@
                }),
            },
    {
        match reply {
            Err(e) => Err(AppError::Internal(glued("login network error: ", e.as_str()))),
            Ok((status, cookies)) => {
                if status == 401 || status == 403 {
                    let n: String = text::to_decimal(status as u64);
                    return Err(AppError::Internal(glued("login rejected: HTTP ", n.as_str())));
                }
                match extract_cookie(&cookies, self.cookie_name.as_str()) {
                    Some(c) => {
                        self.cookie = Some(c);
                        Ok(())
                    },
                    None => Err(
                        AppError::Internal("login response missing session cookie".to_owned()),
                    ),
                }
            },
        }
    }

    /// The credentials for a re-login.
    ///
    /// # Errors
    /// Returns [`AppError::Internal`] when there are none.
    pub fn relogin_credentials(&self) -> (r: Result<(String, String), AppError>)
        ensures
            match r {
                Ok((u, p)) => self@.user == Some(u@) && self@.password == Some(p@),
                Err(e) => (self@.user is None || self@.password is None) && e@
                    == ErrorView::Internal("no credentials for relogin"@),
            },
    {
        match (&self.user, &self.password) {
            (Some(u), Some(p)) => Ok((u.clone(), p.clone())),
            _ => Err(AppError::Internal("no credentials for relogin".to_owned())),
        }
    }

    /// Decides a request after its first attempt: a network failure is status
    /// `0` with the error's text, a 401 asks for a re-login, and everything
    /// else is the answer.
    pub fn after_first(first: Result<(Status, String), AppError>) -> (r: FirstStep)
        ensures
            match r {
                FirstStep::Done(status, body) => {
                    &&& first_step(first) == (status, body@)
                    &&& !(first is Ok && status == 401)
                    &&& forall|ok: bool, retry: Result<(Status, String), AppError>|
                        #[trigger] exchanged(first, ok, retry) == (status, body@)
                },
                FirstStep::Relogin(body) => {
                    &&& first is Ok && first_step(first) == (401u16, body@)
                    &&& forall|retry: Result<(Status, String), AppError>|
                        #[trigger] exchanged(first, false, retry) == (401u16, body@)
                },
            },
    {
        match first {
            Err(e) => FirstStep::Done(0, e.message()),
            Ok((status, body)) => {
                if status == 401 {
                    FirstStep::Relogin(body)
                } else {
                    FirstStep::Done(status, body)
                }
            },
        }
    }

    /// Decides a retry after a re-login: its reply, or the first refusal where
    /// the retry failed.
    pub fn after_retry(retry: Result<(Status, String), AppError>, refusal: String) -> (r: (
        Status,
        String,
    ))
        ensures
            match retry {
                Ok((s, b)) => r == (s, b),
                Err(_) => r == (401u16, refusal),
            },
            forall|first: Result<(Status, String), AppError>|
                first is Ok && first_step(first) == (401u16, refusal@) ==> #[trigger] exchanged(
                    first,
                    true,
                    retry,
                ) == (r.0, r.1@),
    {
        match retry {
            Ok(reply) => reply,
            Err(_) => (401, refusal),
        }
    }
}

/// A client from the SilverBullet configuration in the user information.
#[must_use]
pub fn remote_client_from_user_info(info: &RemoteSbConfig) -> (r: RemoteClient)
    ensures
        r@ == client_of(info.base_url@, Some((info.username@, info.password@)), None),
{
    RemoteClient::from_user_info(info)
}

/// A request is retried at most once, and only after a 401 that a re-login
/// answered; a network failure reads as status `0`.
pub proof fn law_one_retry_after_401(
    first: Result<(Status, String), AppError>,
    relogin_ok: bool,
    retry: Result<(Status, String), AppError>,
)
    ensures
        first is Err ==> exchanged(first, relogin_ok, retry).0 == 0,
        first is Ok && first->Ok_0.0 != 401 ==> exchanged(first, relogin_ok, retry) == first_step(
            first,
        ),
        !relogin_ok ==> exchanged(first, relogin_ok, retry) == first_step(first),
        first is Ok && first->Ok_0.0 == 401 && relogin_ok && retry is Ok ==> exchanged(
            first,
            relogin_ok,
            retry,
        ) == first_step(retry),
{
}

/// A cookie that a server sets under the client's name, with or without
/// attributes behind it, is the one that is kept, and it starts with that name.
pub proof fn law_set_cookie_is_kept(name: Seq<char>, value: Seq<char>, attributes: Seq<char>)
    requires
        text::has_no(value, ';'),
        attributes.len() > 0 ==> attributes[0] == ';',
    ensures
        cookie_in(seq![name + "="@ + value + attributes], name) == Some(name + "="@ + value),
{
    let prefix = name + "="@;
    let header = name + "="@ + value + attributes;
    let set = seq![header];
    assert(header.take(prefix.len() as int) =~= prefix);
    let rest = header.skip(prefix.len() as int);
    assert(rest =~= value + attributes);
    if attributes.len() > 0 {
        text::lemma_find_is(rest, ';', value.len() as int);
        assert(rest.take(value.len() as int) =~= value);
    } else {
        assert(rest =~= value);
        text::lemma_find_none(rest, ';');
    }
}

/// The host of a URL stands between its scheme and the port or path that follows; a
/// text without a scheme begins with the host.
pub proof fn law_host_stands_behind_the_scheme(
    scheme: Seq<char>,
    host: Seq<char>,
    rest: Seq<char>,
)
    requires
        forall|i: int| 0 <= i < scheme.len() ==> scheme[i] != ':',
        forall|i: int| 0 <= i < host.len() ==> host[i] != '/' && host[i] != ':',
        rest.len() > 0 ==> rest[0] == '/' || rest[0] == ':',
    ensures
        host_of(scheme + "://"@ + host + rest) == host,
        host_of(host) == host,
        cookie_name_of(scheme + "://"@ + host + rest) == "auth_"@ + text::replaced(host, '.', '_'),
{
    reveal_strlit("://");
    let mark = "://"@;
    let url = scheme + mark + host + rest;
    text::law_find_str_is_the_first_place(url, mark);
    let n = scheme.len() as int;
    assert(url.subrange(n, n + 3) =~= mark);
    match text::find_str(url, mark) {
        Some(i) => {
            if i < n {
                assert(url.subrange(i, i + mark.len())[0] == scheme[i]);
            } else if i > n {
                assert(url.subrange(n, n + mark.len()) == mark);
            }
            assert(i == n);
            assert(url.skip(i + mark.len()) =~= host + rest);
        },
        None => {
            assert(url.subrange(n, n + mark.len()) == mark);
        },
    }
    lemma_host_before(host, rest);
    text::law_find_str_is_the_first_place(host, mark);
    match text::find_str(host, mark) {
        Some(i) => {
            assert(host.subrange(i, i + mark.len())[0] == host[i]);
        },
        None => {},
    }
    assert(host + Seq::<char>::empty() =~= host);
    lemma_host_before(host, Seq::empty());
}

proof fn lemma_host_before(host: Seq<char>, rest: Seq<char>)
    requires
        forall|i: int| 0 <= i < host.len() ==> host[i] != '/' && host[i] != ':',
        rest.len() > 0 ==> rest[0] == '/' || rest[0] == ':',
    ensures
        text::before_first(text::before_first(host + rest, '/'), ':') == host,
{
    text::law_split_once_cuts_at_the_first(host, '/', Seq::empty());
    text::law_split_once_cuts_at_the_first(host, ':', Seq::empty());
    if rest.len() == 0 {
        assert(host + rest =~= host);
    } else if rest[0] == '/' {
        text::law_split_once_cuts_at_the_first(host, '/', rest.skip(1));
        assert(host + seq!['/'] + rest.skip(1) =~= host + rest);
    } else {
        text::lemma_find(host + rest, '/');
        match text::find(host + rest, '/') {
            Some(k) => {
                assert((host + rest)[k] == '/');
                assert(k >= host.len() + 1) by {
                    if k < host.len() {
                        assert((host + rest)[k] == host[k]);
                    } else if k == host.len() {
                        assert((host + rest)[k] == rest[0]);
                    }
                }
                let port = (host + rest).take(k).skip(host.len() as int + 1);
                assert((host + rest).take(k) =~= host + seq![':'] + port);
                let tail = (host + rest).skip(k + 1);
                assert((host + rest).take(k) + seq!['/'] + tail =~= host + rest);
                assert forall|i: int| 0 <= i < k implies (host + rest).take(k)[i] != '/' by {
                    assert((host + rest)[i] != '/');
                }
                text::law_split_once_cuts_at_the_first((host + rest).take(k), '/', tail);
                text::law_split_once_cuts_at_the_first(host, ':', port);
            },
            None => {
                text::law_split_once_cuts_at_the_first(host + rest, '/', Seq::empty());
                text::law_split_once_cuts_at_the_first(host, ':', rest.skip(1));
                assert(host + seq![':'] + rest.skip(1) =~= host + rest);
            },
        }
    }
}

/// The first cookie of the name among those that a response sets is kept.
pub proof fn law_first_cookie_of_the_name_is_kept(
    set_cookies: Seq<Seq<char>>,
    name: Seq<char>,
    i: int,
)
    ensures
        0 <= i < set_cookies.len() && text::starts_with(set_cookies[i], name + "="@) && (forall|
            j: int,
        |
            0 <= j < i ==> !text::starts_with(#[trigger] set_cookies[j], name + "="@))
            ==> cookie_in(set_cookies, name) == cookie_in(seq![set_cookies[i]], name) && cookie_in(
            set_cookies,
            name,
        ) is Some,
        (forall|j: int|
            0 <= j < set_cookies.len() ==> !text::starts_with(
                #[trigger] set_cookies[j],
                name + "="@,
            )) ==> cookie_in(set_cookies, name) is None,
    decreases set_cookies.len(),
{
    if set_cookies.len() > 0 && !text::starts_with(set_cookies[0], name + "="@) {
        let rest = set_cookies.skip(1);
        law_first_cookie_of_the_name_is_kept(rest, name, i - 1);
        assert forall|j: int| 0 <= j < rest.len() implies rest[j] == set_cookies[j + 1] by {}
        if 0 < i < set_cookies.len() && text::starts_with(set_cookies[i], name + "="@) && (forall|
            j: int,
        |
            0 <= j < i ==> !text::starts_with(#[trigger] set_cookies[j], name + "="@)) {
            assert forall|j: int| 0 <= j < i - 1 implies !text::starts_with(
                #[trigger] rest[j],
                name + "="@,
            ) by {
                assert(rest[j] == set_cookies[j + 1]);
            }
        }
        if forall|j: int|
            0 <= j < set_cookies.len() ==> !text::starts_with(
                #[trigger] set_cookies[j],
                name + "="@,
            ) {
            assert forall|j: int| 0 <= j < rest.len() implies !text::starts_with(
                #[trigger] rest[j],
                name + "="@,
            ) by {
                assert(rest[j] == set_cookies[j + 1]);
            }
        }
    } else if set_cookies.len() > 0 {
        if 0 <= i < set_cookies.len() && (forall|j: int|
            0 <= j < i ==> !text::starts_with(#[trigger] set_cookies[j], name + "="@)) {
            assert(i == 0);
            assert(seq![set_cookies[0]][0] == set_cookies[0]);
        }
    }
}

/// A client with an account keeps its list by the account and its device, and has no
/// place for it without one; a client without an account keeps it by its login. The
/// user of the machine never stands in for a device.
pub proof fn law_lists_are_kept_by_account_or_login(
    c: ClientView,
    p: Platform,
    username: Seq<char>,
)
    ensures
        c.user_id is Some && (c.user_id->0).len() > 0 && c.device_name is Some && text::trimmed(
            c.device_name->0,
        ).len() > 0 ==> (planned(c, p, username) matches Ok(v) && v.user_id == c.user_id->0
            && v.device_name == text::trimmed(c.device_name->0) && v.pcname.len() == 0 && v.pctype
            == p.path_tag()),
        c.user_id is Some && (c.user_id->0).len() > 0 && (c.device_name is None || text::trimmed(
            c.device_name->0,
        ).len() == 0) ==> planned(c, p, username) is Err && !has_plan(c),
        c.user_id is None || (c.user_id->0).len() == 0 ==> (planned(c, p, username) matches Ok(v)
            && v.user_id.len() == 0 && v.pcname == paths::machine_name(username) && v.pctype
            == p.path_tag() && (c.user is Some ==> v.sb_user == c.user->0)),
        planned(c, p, username) is Ok <==> has_plan(c),
{
}

/// Of an exchange the reply to the retry counts where the session had expired and the
/// login succeeded; the first reply counts everywhere else.
pub proof fn law_exchange_gives_the_last_reply(
    status: Status,
    body: String,
    relogin_ok: bool,
    s: Status,
    b: String,
    e: AppError,
)
    ensures
        status == 401 && relogin_ok ==> exchanged(Ok((status, body)), relogin_ok, Ok((s, b))) == (
            s,
            b@,
        ),
        status == 401 && relogin_ok ==> exchanged(Ok((status, body)), relogin_ok, Err(e)) == (
            401u16,
            body@,
        ),
        status != 401 || !relogin_ok ==> exchanged(
            Ok((status, body)),
            relogin_ok,
            Ok((s, b)),
        ) == (status, body@),
        exchanged(Err(e), relogin_ok, Ok((s, b))) == (0u16, e@.message()),
{
}

/// A login succeeds just where it was answered, not refused, and the answer sets the
/// client's cookie. Every failure is an internal error.
pub proof fn law_login_needs_the_cookie(
    c: ClientView,
    reply: Result<(Status, Vec<String>), String>,
)
    ensures
        login_error(c, reply) is None <==> reply is Ok && reply->Ok_0.0 != 401 && reply->Ok_0.0
            != 403 && cookie_in(text::views(reply->Ok_0.1@), c.cookie_name) is Some,
        login_error(c, reply) is Some ==> login_error(c, reply)->0 is Internal,
        reply matches Err(e) ==> text::ends_with((login_error(c, reply)->0)->Internal_0, e@),
        reply is Ok && (reply->Ok_0.0 == 401 || reply->Ok_0.0 == 403) ==> text::ends_with(
            (login_error(c, reply)->0)->Internal_0,
            text::decimal(reply->Ok_0.0 as nat),
        ),
{
    match reply {
        Err(e) => {
            let m = "login network error: "@ + e@;
            assert(m.skip(m.len() - e@.len()) =~= e@);
        },
        Ok((status, _)) => {
            let d = text::decimal(status as nat);
            let m = "login rejected: HTTP "@ + d;
            assert(m.skip(m.len() - d.len()) =~= d);
        },
    }
}

/// A file has one URL, however the slashes between the server and its path are
/// written; the login form stands beside the files.
pub proof fn law_file_urls_join_with_one_slash(host: Seq<char>, path: Seq<char>, n: nat, k: nat)
    requires
        host.len() > 0,
        host.last() != '/',
        path.len() > 0,
        path[0] != '/',
    ensures
        file_url(host + text::repeated('/', n), text::repeated('/', k) + path) == host + "/.fs/"@
            + path,
        form_url(host + text::repeated('/', n)) == host + "/.auth"@,
{
    text::law_ends_are_dropped(host, '/', n);
    text::law_ends_are_dropped(path, '/', k);
}

/// A client holds the login and the identity that it was given, each where it
/// belongs, the cookie name of its server, and no cookie yet. With an identity whose
/// device is not blank it keeps its list by that; with a login alone, by the login.
pub proof fn law_clients_hold_what_they_were_given(
    base_url: Seq<char>,
    user: Seq<char>,
    password: Seq<char>,
    id: Seq<char>,
    device: Seq<char>,
    p: Platform,
    username: Seq<char>,
)
    ensures
        ({
            let plain = client_of(base_url, None, None);
            let login = client_of(base_url, Some((user, password)), None);
            let full = client_of(base_url, Some((user, password)), Some((id, device)));
            &&& plain.user is None && plain.password is None && plain.user_id is None
            &&& login.user == Some(user) && login.password == Some(password)
            &&& full.user == Some(user) && full.password == Some(password)
            &&& plain.base_url == base_url && login.base_url == base_url && full.base_url == base_url
            &&& plain.cookie is None && login.cookie is None && full.cookie is None
            &&& login.cookie_name == cookie_name_of(base_url)
            &&& full.cookie_name == cookie_name_of(base_url)
            &&& planned(login, p, username) == Ok::<PathsView, ErrorView>(
                paths::legacy_identity(user, p, username),
            )
            &&& id.len() > 0 && text::trimmed(device).len() > 0 ==> planned(full, p, username)
                == Ok::<PathsView, ErrorView>(
                paths::device_identity(id, text::trimmed(device), p),
            )
        }),
{
}

} // verus!
