//! Authentication schemes and the `Authorization` values they produce.

use vstd::prelude::*;
use vstd::utf8::encode_utf8;
use vstd::utf8::encode_scalar;
use base64::Engine;
use crate::headers::eq_ignoring_case;
use crate::headers::equals_ignoring_case;

verus! {

/// The scheme a target is configured with.
#[derive(Clone, Copy, Debug, PartialEq, Eq, Structural)]
pub enum AuthType {
    NoAuth,
    Basic,
    Bearer,
    OAuth,
}

/// The scheme a configured tag names, compared without regard to ASCII case;
/// an unrecognised tag means no authentication.
pub open spec fn auth_type_of(tag: Seq<char>) -> AuthType {
    if eq_ignoring_case(tag, "basic"@) {
        AuthType::Basic
    } else if eq_ignoring_case(tag, "bearer"@) {
        AuthType::Bearer
    } else if eq_ignoring_case(tag, "oauth"@) || eq_ignoring_case(tag, "oauth2"@) {
        AuthType::OAuth
    } else {
        AuthType::NoAuth
    }
}

impl AuthType {
    /// Reads a configured scheme tag.
    pub fn from_tag(tag: &str) -> (r: AuthType)
        ensures
            r == auth_type_of(tag@),
    {
        if equals_ignoring_case(tag, "basic") {
            AuthType::Basic
        } else if equals_ignoring_case(tag, "bearer") {
            AuthType::Bearer
        } else if equals_ignoring_case(tag, "oauth") || equals_ignoring_case(tag, "oauth2") {
            AuthType::OAuth
        } else {
            AuthType::NoAuth
        }
    }
}

/// Standard base64, with padding, of the UTF-8 bytes of a text.
pub uninterp spec fn base64_of(text: Seq<char>) -> Seq<char>;

/// Relies on base64's `general_purpose::STANDARD.encode` (standard alphabet,
/// with padding): the result depends on the input bytes alone, and is four
/// characters for each started group of three bytes. The encoder panics only
/// when that length overflows `usize`, which the bound rules out.
#[verifier::external_body]
fn encode_base64(text: &str) -> (r: String)
    requires
        encode_utf8(text@).len() <= usize::MAX / 2,
    ensures
        r@ == base64_of(text@),
        r@.len() == 4 * ((encode_utf8(text@).len() + 2) / 3),
{
    base64::engine::general_purpose::STANDARD.encode(text.as_bytes())
}

/// The characters of an optional header value.
pub open spec fn value_view(v: &Option<String>) -> Option<Seq<char>> {
    match v {
        Some(s) => Some(s@),
        None => None,
    }
}

/// `user:password`, the text that basic authentication encodes.
pub open spec fn credentials(username: Seq<char>, password: Seq<char>) -> Seq<char> {
    username + seq![':'] + password
}

/// Credentials short enough that their encoding fits in memory.
pub open spec fn credentials_fit(username: Seq<char>, password: Seq<char>) -> bool {
    username.len() + password.len() + 1 <= usize::MAX / 8
}

/// Whether a user name and a password are short enough to be encoded.
pub fn credentials_fit_chars(username: &str, password: &str) -> (r: bool)
    ensures
        r == credentials_fit(username@, password@),
{
    let u = username.unicode_len();
    let p = password.unicode_len();
    u <= usize::MAX / 8 && p <= usize::MAX / 8 - u && u + p < usize::MAX / 8
}

/// The `Authorization` value of basic authentication, if one is sent.
pub open spec fn basic_value(username: Seq<char>, password: Seq<char>) -> Option<Seq<char>> {
    if username.len() == 0 && password.len() == 0 {
        None
    } else {
        Some("Basic "@ + base64_of(credentials(username, password)))
    }
}

/// The `Authorization` value of bearer authentication, if one is sent.
pub open spec fn bearer_value(token: Seq<char>) -> Option<Seq<char>> {
    if token.len() == 0 {
        None
    } else {
        Some("Bearer "@ + token)
    }
}

proof fn lemma_utf8_len_bound(s: Seq<char>)
    ensures
        encode_utf8(s).len() <= 4 * s.len(),
    decreases s.len(),
{
    if s.len() > 0 {
        assert(encode_scalar(s[0] as u32).len() <= 4);
        lemma_utf8_len_bound(s.drop_first());
    }
}

/// `Basic ` followed by an already encoded credential.
pub fn basic_header_value(encoded: &str) -> (r: String)
    ensures
        r@ == "Basic "@ + encoded@,
{
    let mut r = String::from_str("Basic ");
    r.append(encoded);
    r
}

/// The basic-authentication header value: none when both the user name and
/// the password are empty, else `Basic ` and the base64 of `user:password`.
pub fn basic_authorization(username: &str, password: &str) -> (r: Option<String>)
    requires
        credentials_fit(username@, password@),
    ensures
        value_view(&r) == basic_value(username@, password@),
{
    if username.is_empty() && password.is_empty() {
        return None;
    }
    let mut creds = String::from_str(username);
    creds.append(":");
    creds.append(password);
    proof {
        reveal_strlit(":");
        assert(creds@ =~= credentials(username@, password@));
        lemma_utf8_len_bound(creds@);
    }
    let encoded = encode_base64(creds.as_str());
    Some(basic_header_value(encoded.as_str()))
}

/// The bearer-authentication header value: none for an empty token, else
/// `Bearer ` and the token.
pub fn bearer_authorization(token: &str) -> (r: Option<String>)
    ensures
        value_view(&r) == bearer_value(token@),
{
    if token.is_empty() {
        return None;
    }
    let mut r = String::from_str("Bearer ");
    r.append(token);
    Some(r)
}

} // verus!
