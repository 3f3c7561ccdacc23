//! HTTP Basic auth: `Authorization: Basic <base64(user:password)>`.

use vstd::prelude::*;
use vstd::string::*;
use vstd::utf8;

use crate::auth::config::AuthConfig;
use crate::error::{AppError, ErrorView};
use crate::text;

verus! {

/// The bytes that the standard base64 alphabet (padded) encodes in a text, as
/// the `base64` crate decodes it.
pub uninterp spec fn standard_bytes(s: Seq<char>) -> Option<Seq<u8>>;

/// `base64::engine::general_purpose::STANDARD.decode`: the decoded bytes, named
/// [`standard_bytes`].
#[verifier::external_body]
pub(crate) fn decode_standard(s: &str) -> (r: Option<Vec<u8>>)
    ensures
        match r {
            Some(v) => standard_bytes(s@) == Some(v@),
            None => standard_bytes(s@) is None,
        },
{
    base64::Engine::decode(&base64::engine::general_purpose::STANDARD, s).ok()
}

/// `String::from_utf8`: the text that bytes encode, if they are valid UTF-8.
#[verifier::external_body]
fn utf8_text(bytes: Vec<u8>) -> (r: Option<String>)
    ensures
        match r {
            Some(s) => utf8::valid_utf8(bytes@) && s@ == utf8::decode_utf8(bytes@),
            None => !utf8::valid_utf8(bytes@),
        },
{
    String::from_utf8(bytes).ok()
}

/// Extracted HTTP Basic credentials.
#[derive(Debug, Clone)]
pub struct BasicAuth {
    /// Verified username.
    pub username: String,
    /// Verified password.
    pub password: String,
}

/// The user and the password in the decoded part of a header.
pub open spec fn decoded_pair(bytes: Option<Seq<u8>>) -> Option<(Seq<char>, Seq<char>)> {
    match bytes {
        Some(b) => if utf8::valid_utf8(b) {
            text::split_once(utf8::decode_utf8(b), ':')
        } else {
            None
        },
        None => None,
    }
}

/// The user and the password in an `Authorization` header.
pub open spec fn header_pair(header: Seq<char>) -> Option<(Seq<char>, Seq<char>)> {
    if text::starts_with(header, "Basic "@) {
        decoded_pair(standard_bytes(text::trimmed(header.skip("Basic "@.len() as int))))
    } else {
        None
    }
}

/// Whether a request with this header is let in by these credentials.
pub open spec fn lets_in(
    header: Option<Seq<char>>,
    user: Seq<char>,
    password: Seq<char>,
) -> bool {
    header matches Some(h) && header_pair(h) == Some((user, password))
}

/// Splits decoded bytes into user and password.
pub fn split_pair(bytes: Option<Vec<u8>>) -> (r: Option<(String, String)>)
    ensures
        match r {
            Some((u, p)) => decoded_pair(
                match bytes {
                    Some(b) => Some(b@),
                    None => None,
                },
            ) == Some((u@, p@)),
            None => decoded_pair(
                match bytes {
                    Some(b) => Some(b@),
                    None => None,
                },
            ) is None,
        },
{
    match bytes {
        Some(b) => match utf8_text(b) {
            Some(s) => text::split_at_first(s.as_str(), ':'),
            None => None,
        },
        None => None,
    }
}

impl BasicAuth {
    /// Lets a request in whose credentials are those of the configuration.
    ///
    /// # Errors
    /// Returns [`AppError::Internal`] without a configuration, and
    /// [`AppError::Unauthorized`] when the header is missing or malformed or its
    /// credentials differ.
    pub fn verify(config: Option<&AuthConfig>, header: Option<&str>) -> (r: Result<Self, AppError>)
        ensures
            match config {
                None => r matches Err(e) && e@ == ErrorView::Internal(
                    "AuthConfig missing from request extensions"@,
                ),
                Some(c) => {
                    if lets_in(
                        match header {
                            Some(h) => Some(h@),
                            None => None,
                        },
                        c.basic_user@,
                        c.basic_password@,
                    ) {
                        r matches Ok(a) && a.username@ == c.basic_user@ && a.password@
                            == c.basic_password@
                    } else {
                        r matches Err(e) && e@ == ErrorView::Unauthorized
                    }
                },
            },
    {
        let c: &AuthConfig = match config {
            Some(c) => c,
            None => {
                return Err(
                    AppError::Internal("AuthConfig missing from request extensions".to_owned()),
                );
            },
        };
        let h: &str = match header {
            Some(h) => h,
            None => {
                return Err(AppError::Unauthorized);
            },
        };
        match text::after_prefix(h, "Basic ") {
            None => Err(AppError::Unauthorized),
            Some(rest) => {
                let encoded: String = text::trim(rest.as_str());
                match split_pair(decode_standard(encoded.as_str())) {
                    None => Err(AppError::Unauthorized),
                    Some((user, pass)) => {
                        if text::same(user.as_str(), c.basic_user.as_str()) && text::same(
                            pass.as_str(),
                            c.basic_password.as_str(),
                        ) {
                            Ok(BasicAuth { username: user, password: pass })
                        } else {
                            Err(AppError::Unauthorized)
                        }
                    },
                }
            },
        }
    }
}

/// A header that encodes a user, a colon and a password is read as these: the first
/// colon parts them, so that a password may hold more.
pub proof fn law_encoded_credentials_are_read(
    user: Seq<char>,
    password: Seq<char>,
    encoded: Seq<char>,
)
    requires
        forall|i: int| 0 <= i < user.len() ==> user[i] != ':',
        encoded.len() > 0,
        !text::is_white(encoded[0]),
        !text::is_white(encoded.last()),
        standard_bytes(encoded) == Some(utf8::encode_utf8(user + seq![':'] + password)),
    ensures
        header_pair("Basic "@ + encoded) == Some((user, password)),
{
    let plain = user + seq![':'] + password;
    utf8::encode_utf8_valid_utf8(plain);
    utf8::encode_utf8_decode_utf8(plain);
    text::law_split_once_cuts_at_the_first(user, ':', password);
    let header = "Basic "@ + encoded;
    let none = Seq::<char>::empty();
    assert(header.take("Basic "@.len() as int) =~= "Basic "@);
    assert(header.skip("Basic "@.len() as int) =~= encoded);
    text::law_trimming_drops_the_white_space_around(none, encoded, none);
    assert(none + encoded + none =~= encoded);
}

/// A header of another scheme, of bytes that are no text, or without a colon in its
/// text holds no credentials.
pub proof fn law_other_headers_hold_no_credentials(header: Seq<char>, bytes: Seq<u8>)
    ensures
        header.len() < 6 || header.take(6) != "Basic "@ ==> header_pair(header) is None,
        decoded_pair(None) is None,
        !utf8::valid_utf8(bytes) ==> decoded_pair(Some(bytes)) is None,
        text::has_no(utf8::decode_utf8(bytes), ':') ==> decoded_pair(Some(bytes)) is None,
{
    reveal_strlit("Basic ");
    let t = utf8::decode_utf8(bytes);
    if text::has_no(t, ':') {
        assert forall|i: int| 0 <= i < t.len() implies t[i] != ':' by {}
        text::law_split_once_cuts_at_the_first(t, ':', Seq::empty());
    }
}

/// A request is let in just where its header encodes both the user and the password
/// of the configuration; one without a header is not.
pub proof fn law_right_credentials_are_let_in(
    user: Seq<char>,
    password: Seq<char>,
    sent_user: Seq<char>,
    sent_password: Seq<char>,
    encoded: Seq<char>,
)
    requires
        forall|i: int| 0 <= i < sent_user.len() ==> sent_user[i] != ':',
        encoded.len() > 0,
        !text::is_white(encoded[0]),
        !text::is_white(encoded.last()),
        standard_bytes(encoded) == Some(utf8::encode_utf8(sent_user + seq![':'] + sent_password)),
    ensures
        lets_in(Some("Basic "@ + encoded), user, password) <==> sent_user == user && sent_password
            == password,
        !lets_in(None, user, password),
{
    law_encoded_credentials_are_read(sent_user, sent_password, encoded);
}

} // verus!
