//! Cookie session auth.
//!
//! The session cookie carries a JWT. Only its expiry is looked at here; its
//! signature is checked by the server that issued it. The cookie's name is
//! derived from the server's address, so every cookie named `auth_*` that holds
//! a JWT is taken.

use vstd::prelude::*;
use vstd::string::*;

use crate::auth::basic;
use crate::error::{AppError, ErrorView};
use crate::storage::remote;
use crate::text;

verus! {

/// The bytes that the URL-safe base64 alphabet without padding encodes in a
/// text, as the `base64` crate decodes it.
pub uninterp spec fn url_safe_no_pad_bytes(s: Seq<char>) -> Option<Seq<u8>>;

/// The bytes that the URL-safe base64 alphabet with padding encodes in a text,
/// as the `base64` crate decodes it.
pub uninterp spec fn url_safe_bytes(s: Seq<char>) -> Option<Seq<u8>>;

/// `base64::engine::general_purpose::URL_SAFE_NO_PAD.decode`: the decoded
/// bytes, named [`url_safe_no_pad_bytes`].
#[verifier::external_body]
fn decode_url_safe_no_pad(s: &str) -> (r: Option<Vec<u8>>)
    ensures
        match r {
            Some(v) => url_safe_no_pad_bytes(s@) == Some(v@),
            None => url_safe_no_pad_bytes(s@) is None,
        },
{
    base64::Engine::decode(&base64::engine::general_purpose::URL_SAFE_NO_PAD, s).ok()
}

/// `base64::engine::general_purpose::URL_SAFE.decode`: the decoded bytes, named
/// [`url_safe_bytes`].
#[verifier::external_body]
fn decode_url_safe(s: &str) -> (r: Option<Vec<u8>>)
    ensures
        match r {
            Some(v) => url_safe_bytes(s@) == Some(v@),
            None => url_safe_bytes(s@) is None,
        },
{
    base64::Engine::decode(&base64::engine::general_purpose::URL_SAFE, s).ok()
}

/// Extracted cookie session token.
#[derive(Debug, Clone)]
pub struct SessionAuth {
    /// Raw JWT value extracted from the cookie.
    pub token: String,
}

pub open spec fn opt_view(s: Option<String>) -> Option<Seq<char>> {
    match s {
        Some(t) => Some(t@),
        None => None,
    }
}

/// The name and the value of a cookie, both trimmed.
pub open spec fn cookie_pair(part: Seq<char>) -> Option<(Seq<char>, Seq<char>)> {
    match text::split_once(text::trimmed(part), '=') {
        Some((k, v)) => Some((text::trimmed(k), text::trimmed(v))),
        None => None,
    }
}

/// Whether a part of a `Cookie` header is a session cookie: named `auth_*`, with
/// a value of three segments.
pub open spec fn is_session_cookie(part: Seq<char>) -> bool {
    match cookie_pair(part) {
        Some((k, v)) => text::starts_with(k, "auth_"@) && text::split(v, '.').len() == 3,
        None => false,
    }
}

/// The value of the first session cookie among the parts of a header.
pub open spec fn first_session(parts: Seq<Seq<char>>) -> Option<Seq<char>>
    decreases parts.len(),
{
    if parts.len() == 0 {
        None
    } else if is_session_cookie(parts[0]) {
        match cookie_pair(parts[0]) {
            Some((_, v)) => Some(v),
            None => None,
        }
    } else {
        first_session(parts.skip(1))
    }
}

/// The value of the first cookie of a name among the parts of a header.
pub open spec fn first_named(parts: Seq<Seq<char>>, name: Seq<char>) -> Option<Seq<char>>
    decreases parts.len(),
{
    if parts.len() == 0 {
        None
    } else {
        match cookie_pair(parts[0]) {
            Some((k, v)) => if k == name {
                Some(v)
            } else {
                first_named(parts.skip(1), name)
            },
            None => first_named(parts.skip(1), name),
        }
    }
}

fn read_pair(part: &str) -> (r: Option<(String, String)>)
    ensures
        match r {
            Some((k, v)) => cookie_pair(part@) == Some((k@, v@)),
            None => cookie_pair(part@) is None,
        },
{
    let t: String = text::trim(part);
    match text::split_at_first(t.as_str(), '=') {
        Some((k, v)) => Some((text::trim(k.as_str()), text::trim(v.as_str()))),
        None => None,
    }
}

/// The token of the first session cookie in a `Cookie` header.
pub fn extract_session_token(header: &str) -> (r: Option<String>)
    ensures
        opt_view(r) == first_session(text::split(header@, ';')),
{
    let parts: Vec<String> = text::split_char(header, ';');
    let ghost vs = text::views(parts@);
    let mut i: usize = 0;
    assert(vs.skip(0) =~= vs);
    while i < parts.len()
        invariant
            i <= parts@.len(),
            vs == text::views(parts@),
            vs == text::split(header@, ';'),
            first_session(vs) == first_session(vs.skip(i as int)),
        decreases parts@.len() - i,
    {
        assert(vs.skip(i as int)[0] == parts@[i as int]@);
        assert(vs.skip(i as int).skip(1) =~= vs.skip(i + 1));
        if let Some((name, value)) = read_pair(parts[i].as_str()) {
            if text::has_prefix(name.as_str(), "auth_") {
                let segments: Vec<String> = text::split_char(value.as_str(), '.');
                assert(text::views(segments@).len() == segments@.len());
                if segments.len() == 3 {
                    return Some(value);
                }
            }
        }
        i = i + 1;
    }
    None
}

/// Extract the value of a named cookie from a `Cookie` header value.
#[must_use]
pub fn cookie_value(header: &str, name: &str) -> (r: Option<String>)
    ensures
        opt_view(r) == first_named(text::split(header@, ';'), name@),
{
    let parts: Vec<String> = text::split_char(header, ';');
    let ghost vs = text::views(parts@);
    let mut i: usize = 0;
    assert(vs.skip(0) =~= vs);
    while i < parts.len()
        invariant
            i <= parts@.len(),
            vs == text::views(parts@),
            vs == text::split(header@, ';'),
            first_named(vs, name@) == first_named(vs.skip(i as int), name@),
        decreases parts@.len() - i,
    {
        assert(vs.skip(i as int)[0] == parts@[i as int]@);
        assert(vs.skip(i as int).skip(1) =~= vs.skip(i + 1));
        if let Some((k, v)) = read_pair(parts[i].as_str()) {
            if text::same(k.as_str(), name) {
                return Some(v);
            }
        }
        i = i + 1;
    }
    None
}

/// The first of three readings that succeeds.
pub open spec fn first_reading(
    a: Option<Seq<u8>>,
    b: Option<Seq<u8>>,
    c: Option<Seq<u8>>,
) -> Option<Seq<u8>> {
    if a is Some {
        a
    } else if b is Some {
        b
    } else {
        c
    }
}

/// The payload of a JWT, decoded: its second segment, read as URL-safe base64
/// without padding, else with padding, else as standard base64.
pub open spec fn payload_of(token: Seq<char>) -> Option<Seq<u8>> {
    let parts = text::split(token, '.');
    if parts.len() >= 2 {
        first_reading(
            url_safe_no_pad_bytes(parts[1]),
            url_safe_bytes(parts[1]),
            basic::standard_bytes(parts[1]),
        )
    } else {
        None
    }
}

/// Decodes the payload of a JWT, without looking at its signature.
pub fn decode_jwt_payload(token: &str) -> (r: Option<Vec<u8>>)
    ensures
        match r {
            Some(v) => payload_of(token@) == Some(v@),
            None => payload_of(token@) is None,
        },
{
    let parts: Vec<String> = text::split_char(token, '.');
    let ghost vs = text::views(parts@);
    if parts.len() < 2 {
        return None;
    }
    assert(vs[1] == parts@[1]@);
    let middle: &str = parts[1].as_str();
    if let Some(v) = decode_url_safe_no_pad(middle) {
        return Some(v);
    }
    if let Some(v) = decode_url_safe(middle) {
        return Some(v);
    }
    basic::decode_standard(middle)
}

/// Whether a token with these claims holds: it could be read, and has not expired.
pub open spec fn is_current(claims: Option<Option<u64>>, now: u64) -> bool {
    match claims {
        Some(Some(t)) => now <= t,
        Some(None) => true,
        None => false,
    }
}

impl SessionAuth {
    /// The token of a request, or why it has none.
    ///
    /// # Errors
    /// Returns [`AppError::Internal`] when the auth layer is not mounted, and
    /// [`AppError::Unauthorized`] without a session cookie.
    pub fn token_of(mounted: bool, cookie_header: Option<&str>) -> (r: Result<String, AppError>)
        ensures
            if !mounted {
                r matches Err(e) && e@ == ErrorView::Internal(
                    "AuthConfig missing from request extensions"@,
                )
            } else {
                match cookie_header {
                    None => r matches Err(e) && e@ == ErrorView::Unauthorized,
                    Some(h) => match first_session(text::split(h@, ';')) {
                        Some(t) => r matches Ok(s) && s@ == t,
                        None => r matches Err(e) && e@ == ErrorView::Unauthorized,
                    },
                }
            },
    {
        if !mounted {
            return Err(
                AppError::Internal("AuthConfig missing from request extensions".to_owned()),
            );
        }
        match cookie_header {
            None => Err(AppError::Unauthorized),
            Some(h) => match extract_session_token(h) {
                Some(t) => Ok(t),
                None => Err(AppError::Unauthorized),
            },
        }
    }

    /// Accepts a token by its claims: `claims` is nothing where the token could
    /// not be read, and else holds its expiry, if it has one. A token expires
    /// once its time has passed.
    ///
    /// # Errors
    /// Returns [`AppError::Unauthorized`] when the token is unreadable or
    /// expired.
    pub fn accept(token: String, claims: Option<Option<u64>>, now: u64) -> (r: Result<
        Self,
        AppError,
    >)
        ensures
            if is_current(claims, now) {
                r matches Ok(a) && a.token@ == token@
            } else {
                r matches Err(e) && e@ == ErrorView::Unauthorized
            },
    {
        match claims {
            None => Err(AppError::Unauthorized),
            Some(exp) => {
                if let Some(t) = exp {
                    if t < now {
                        return Err(AppError::Unauthorized);
                    }
                }
                Ok(SessionAuth { token })
            },
        }
    }
}

/// The cookie that the remote client keeps for a server is one that this module
/// finds: its derived name starts with `auth_`, and the token comes back.
pub proof fn law_derived_cookie_is_found(base_url: Seq<char>, token: Seq<char>)
    requires
        text::split(token, '.').len() == 3,
        text::trimmed(token) == token,
        text::has_no(token, ';'),
        text::has_no(remote::host_of(base_url), ';'),
        text::has_no(remote::host_of(base_url), '='),
    ensures
        first_session(
            text::split(remote::cookie_name_of(base_url) + "="@ + token, ';'),
        ) == Some(token),
{
    reveal_strlit("auth_");
    reveal_strlit("=");
    let name = remote::cookie_name_of(base_url);
    let header = name + "="@ + token;
    let n = name.len() as int;
    let host = text::replaced(remote::host_of(base_url), '.', '_');
    assert(name =~= "auth_"@ + host);
    assert forall|i: int| 0 <= i < name.len() implies name[i] != ';' && name[i] != '=' by {
        if i >= 5 {
            assert(name[i] == host[i - 5]);
        }
    }
    assert forall|i: int| 0 <= i < header.len() implies header[i] != ';' by {
        if i > n {
            assert(header[i] == token[i - n - 1]);
        }
    }
    text::lemma_find_none(header, ';');
    assert(text::split(header, ';') == seq![header]);
    // A token of three segments is not empty.
    assert(token.len() > 0) by {
        if token.len() == 0 {
            text::lemma_find_none(token, '.');
            assert(text::split(token, '.').len() == 1);
        }
    }
    text::lemma_trimmed_twice(token);
    assert(header.last() == token.last());
    assert(header[0] == 'a');
    assert(!text::is_white('a'));
    text::lemma_trimmed_fixed(header);
    assert(header[n] == '=');
    text::lemma_find_is(header, '=', n);
    assert(header.take(n) =~= name);
    assert(header.skip(n + 1) =~= token);
    let (a, b) = text::lemma_trimmed(name);
    assert(name[4] == '_');
    assert(!text::is_white('_'));
    assert(a == 0);
    assert(b >= 5) by {
        if b < 5 {
            assert(text::is_white(name[4]));
        }
    }
    let k = text::trimmed(name);
    assert(k.take(5) =~= "auth_"@);
    assert(is_session_cookie(header));
    let parts = seq![header];
    assert(parts[0] == header);
}

/// A part of a header that is a name, an equals sign and a value is that cookie,
/// white space around it left out; the first equals sign counts.
pub proof fn law_cookie_is_read(name: Seq<char>, value: Seq<char>)
    requires
        name.len() > 0,
        !text::is_white(name[0]),
        !text::is_white(name.last()),
        value.len() > 0,
        !text::is_white(value[0]),
        !text::is_white(value.last()),
        forall|i: int| 0 <= i < name.len() ==> name[i] != '=',
    ensures
        cookie_pair(name + seq!['='] + value) == Some((name, value)),
        cookie_pair(seq![' '] + (name + seq!['='] + value)) == Some((name, value)),
        cookie_pair(name) is None,
{
    let none = Seq::<char>::empty();
    let part = name + seq!['='] + value;
    text::law_white_space(' ');
    text::law_trimming_drops_the_white_space_around(none, part, none);
    text::law_trimming_drops_the_white_space_around(seq![' '], part, none);
    text::law_trimming_drops_the_white_space_around(none, name, none);
    text::law_trimming_drops_the_white_space_around(none, value, none);
    assert(none + part + none =~= part);
    assert(seq![' '] + part + none =~= seq![' '] + part);
    assert(none + name + none =~= name);
    assert(none + value + none =~= value);
    text::law_split_once_cuts_at_the_first(name, '=', value);
}

/// The first session cookie is taken: one whose name begins with `auth_` and whose
/// value has three segments parted by dots.
pub proof fn law_first_session_cookie_is_taken(parts: Seq<Seq<char>>, i: int)
    requires
        0 <= i < parts.len(),
        cookie_pair(parts[i]) is Some,
        text::starts_with((cookie_pair(parts[i])->0).0, "auth_"@),
        text::split((cookie_pair(parts[i])->0).1, '.').len() == 3,
        forall|j: int|
            0 <= j < i ==> cookie_pair(#[trigger] parts[j]) is None || !text::starts_with(
                (cookie_pair(parts[j])->0).0,
                "auth_"@,
            ) || text::split((cookie_pair(parts[j])->0).1, '.').len() != 3,
    ensures
        first_session(parts) == Some((cookie_pair(parts[i])->0).1),
    decreases i,
{
    if i > 0 {
        let rest = parts.skip(1);
        assert(rest[i - 1] == parts[i]);
        assert forall|j: int| 0 <= j < i - 1 implies cookie_pair(#[trigger] rest[j]) is None
            || !text::starts_with((cookie_pair(rest[j])->0).0, "auth_"@) || text::split(
            (cookie_pair(rest[j])->0).1,
            '.',
        ).len() != 3 by {
            assert(rest[j] == parts[j + 1]);
        }
        assert(!is_session_cookie(parts[0]));
        law_first_session_cookie_is_taken(rest, i - 1);
    }
}

/// The first cookie of a name is taken, and none where there is none.
pub proof fn law_first_cookie_of_a_name_is_taken(parts: Seq<Seq<char>>, name: Seq<char>, i: int)
    ensures
        0 <= i < parts.len() && cookie_pair(parts[i]) is Some && (cookie_pair(parts[i])->0).0
            == name && (forall|j: int|
            0 <= j < i ==> cookie_pair(#[trigger] parts[j]) is None || (cookie_pair(
                parts[j],
            )->0).0 != name) ==> first_named(parts, name) == Some((cookie_pair(parts[i])->0).1),
        (forall|j: int|
            0 <= j < parts.len() ==> cookie_pair(#[trigger] parts[j]) is None || (cookie_pair(
                parts[j],
            )->0).0 != name) ==> first_named(parts, name) is None,
    decreases parts.len(),
{
    if parts.len() > 0 && (cookie_pair(parts[0]) is None || (cookie_pair(parts[0])->0).0 != name) {
        let rest = parts.skip(1);
        law_first_cookie_of_a_name_is_taken(rest, name, i - 1);
        assert forall|j: int| 0 <= j < rest.len() implies rest[j] == parts[j + 1] by {}
        if 0 < i < parts.len() && cookie_pair(parts[i]) is Some && (cookie_pair(parts[i])->0).0
            == name && (forall|j: int|
            0 <= j < i ==> cookie_pair(#[trigger] parts[j]) is None || (cookie_pair(
                parts[j],
            )->0).0 != name) {
            assert forall|j: int| 0 <= j < i - 1 implies cookie_pair(#[trigger] rest[j]) is None
                || (cookie_pair(rest[j])->0).0 != name by {
                assert(rest[j] == parts[j + 1]);
            }
        }
        if forall|j: int|
            0 <= j < parts.len() ==> cookie_pair(#[trigger] parts[j]) is None || (cookie_pair(
                parts[j],
            )->0).0 != name {
            assert forall|j: int| 0 <= j < rest.len() implies cookie_pair(#[trigger] rest[j]) is None
                || (cookie_pair(rest[j])->0).0 != name by {
                assert(rest[j] == parts[j + 1]);
            }
        }
    }
}

/// The payload of a token is its second segment, between the first two dots, read
/// without padding where that succeeds. A token without a dot has none.
pub proof fn law_payload_is_the_second_segment(
    head: Seq<char>,
    payload: Seq<char>,
    signature: Seq<char>,
)
    requires
        forall|i: int| 0 <= i < head.len() ==> head[i] != '.',
        forall|i: int| 0 <= i < payload.len() ==> payload[i] != '.',
    ensures
        ({
            let token = head + seq!['.'] + (payload + seq!['.'] + signature);
            &&& url_safe_no_pad_bytes(payload) is Some ==> payload_of(token)
                == url_safe_no_pad_bytes(payload)
            &&& url_safe_no_pad_bytes(payload) is None && url_safe_bytes(payload) is Some
                ==> payload_of(token) == url_safe_bytes(payload)
            &&& url_safe_no_pad_bytes(payload) is None && url_safe_bytes(payload) is None
                ==> payload_of(token) == basic::standard_bytes(payload)
            &&& payload_of(head) is None
        }),
{
    let rest = payload + seq!['.'] + signature;
    let token = head + seq!['.'] + rest;
    assert(text::has_no(head, '.') && text::has_no(payload, '.'));
    text::lemma_split_cons(head, '.', rest);
    text::lemma_split_cons(payload, '.', signature);
    text::lemma_split_pieces(signature, '.');
    text::lemma_find_none(head, '.');
    let parts = text::split(token, '.');
    assert(parts[1] == payload);
    assert(parts.len() >= 2);
    assert(text::split(head, '.') =~= seq![head]);
}

/// A token holds up to its expiry and no longer, and for ever where it has none; one
/// that cannot be read never does.
pub proof fn law_tokens_hold_until_they_expire(expiry: u64, now: u64, later: u64)
    ensures
        is_current(Some(Some(expiry)), expiry),
        now < expiry ==> is_current(Some(Some(expiry)), now),
        now > expiry ==> !is_current(Some(Some(expiry)), now),
        now <= later && is_current(Some(Some(expiry)), later) ==> is_current(
            Some(Some(expiry)),
            now,
        ),
        is_current(Some(None), now),
        !is_current(None, now),
{
}

} // verus!
