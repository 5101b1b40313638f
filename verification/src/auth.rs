//! Signing in: the `Authorization` header sent to VRChat, the session
//! token taken from the cookie it sets, and the second factor it asks for.

use vstd::prelude::*;
use base64::Engine;
use vstd::string::StringSliceAdditionalSpecFns;
use crate::text::{split_on, split_pieces, lemma_split_nonempty, lemma_split_at_first, lemma_split_none, lacks_char};

verus! {

/// The digit of the standard base64 alphabet for a value below 64.
pub open spec fn base64_digit(v: int) -> char {
    if v < 26 {
        (65 + v) as char
    } else if v < 52 {
        (97 + v - 26) as char
    } else if v < 62 {
        (48 + v - 52) as char
    } else if v == 62 {
        '+'
    } else {
        '/'
    }
}

/// `bytes` in base64, standard alphabet, without padding (RFC 4648): each
/// three bytes give four digits, a last one or two bytes give two or three.
pub open spec fn base64_no_pad(bytes: Seq<u8>) -> Seq<char>
    decreases bytes.len(),
{
    let b0 = bytes[0] as int;
    let b1 = bytes[1] as int;
    let b2 = bytes[2] as int;
    if bytes.len() == 0 {
        Seq::empty()
    } else if bytes.len() == 1 {
        seq![base64_digit(b0 / 4), base64_digit((b0 % 4) * 16)]
    } else if bytes.len() == 2 {
        seq![
            base64_digit(b0 / 4),
            base64_digit((b0 % 4) * 16 + b1 / 16),
            base64_digit((b1 % 16) * 4),
        ]
    } else {
        seq![
            base64_digit(b0 / 4),
            base64_digit((b0 % 4) * 16 + b1 / 16),
            base64_digit((b1 % 16) * 4 + b2 / 64),
            base64_digit(b2 % 64),
        ] + base64_no_pad(bytes.skip(3))
    }
}

/// What `str::to_lowercase` makes of `text`.
pub uninterp spec fn lowercase(text: Seq<char>) -> Seq<char>;

/// Calls `Engine::encode` of `base64::engine::general_purpose::STANDARD_NO_PAD`
/// on the UTF-8 bytes of `text`. Claimed: the result is those bytes in
/// base64 without padding (`base64_no_pad`), and the call returns, which the
/// crate's source shows for any input whose encoded length fits in `usize`.
#[verifier::external_body]
fn encode_base64_no_pad(text: &str) -> (r: String)
    requires
        text.spec_bytes().len() <= isize::MAX,
    ensures
        r@ == base64_no_pad(text.spec_bytes()),
{
    base64::engine::general_purpose::STANDARD_NO_PAD.encode(text)
}

/// Calls `str::to_lowercase`. Claimed: the result is `lowercase` of `text`,
/// a function of the text alone (Unicode case mapping, no locale).
#[verifier::external_body]
fn to_lowercase(text: &str) -> (r: String)
    ensures
        r@ == lowercase(text@),
{
    text.to_lowercase()
}

/// The value of the `Authorization` header for Basic authentication with
/// the already encoded credentials `encoded`.
pub fn basic_credentials(encoded: &str) -> (r: String)
    ensures
        r@ == "Basic "@ + encoded@,
{
    let mut r = String::from_str("Basic ");
    r.append(encoded);
    r
}

/// The value of the `Authorization` header for signing in with `req`
/// (`user:password`): `Basic ` and the UTF-8 bytes of `req` in base64
/// without padding.
pub fn authorization_header(req: &str) -> (r: String)
    requires
        req.spec_bytes().len() <= isize::MAX,
    ensures
        r@ == "Basic "@ + base64_no_pad(req.spec_bytes()),
{
    let encoded = encode_base64_no_pad(req);
    basic_credentials(encoded.as_str())
}

/// The session token in a `set-cookie` header: the value of its first
/// `name=value` pair, as `auth=value`.
pub open spec fn token_in_cookie(cookie: Seq<char>) -> Option<Seq<char>> {
    let pair = split_on(split_on(cookie, ';')[0], '=');
    if pair.len() >= 2 {
        Some("auth="@ + pair[1])
    } else {
        None
    }
}

/// The session token in the `set-cookie` header `cookie`.
pub fn session_token(cookie: &str) -> (r: Option<String>)
    ensures
        r is Some == token_in_cookie(cookie@) is Some,
        r is Some ==> r->0@ == token_in_cookie(cookie@)->0,
{
    let pairs = split_pieces(cookie, ';');
    proof {
        lemma_split_nonempty(cookie@, ';');
        assert(pairs@[0]@ == split_on(cookie@, ';')[0]);
    }
    let pair = split_pieces(pairs[0].as_str(), '=');
    if pair.len() >= 2 {
        proof {
            assert(pair@[1]@ == split_on(split_on(cookie@, ';')[0], '=')[1]);
        }
        let mut token = String::from_str("auth=");
        token.append(pair[1].as_str());
        Some(token)
    } else {
        None
    }
}

/// A cookie `name=value;rest` holds the token `auth=value`, for a name and
/// a value without `=` or `;`.
pub proof fn lemma_token_in_cookie(name: Seq<char>, value: Seq<char>, rest: Seq<char>)
    requires
        lacks_char(name, '='),
        lacks_char(name, ';'),
        lacks_char(value, '='),
        lacks_char(value, ';'),
    ensures
        token_in_cookie(name + seq!['='] + value + seq![';'] + rest) == Some("auth="@ + value),
{
    let pair = name + seq!['='] + value;
    let cookie = pair + seq![';'] + rest;
    let k = pair.len() as int;
    assert forall|j: int| 0 <= j < k implies cookie[j] != ';' by {
        assert(cookie[j] == pair[j]);
        if j < name.len() {
            assert(pair[j] == name[j]);
        } else if j > name.len() {
            assert(pair[j] == value[j - name.len() - 1]);
        }
    }
    lemma_split_at_first(cookie, ';', k);
    assert(cookie.take(k) =~= pair);
    let n = name.len() as int;
    assert forall|j: int| 0 <= j < n implies pair[j] != '=' by {
        assert(pair[j] == name[j]);
    }
    lemma_split_at_first(pair, '=', n);
    assert(pair.skip(n + 1) =~= value);
    lemma_split_none(value, '=');
}

/// The first second-factor method in VRChat's answer, when the answer holds
/// a list whose first item is a string.
pub open spec fn first_method(methods: Option<Seq<Option<String>>>) -> Option<Seq<char>> {
    match methods {
        Some(m) => if m.len() > 0 && m[0] is Some {
            Some(m[0]->0@)
        } else {
            None
        },
        None => None,
    }
}

/// The views of a list of optional `String`s.
pub open spec fn optional_texts(v: Option<Vec<Option<String>>>) -> Option<Seq<Option<String>>> {
    match v {
        Some(m) => Some(m@),
        None => None,
    }
}

/// The first second-factor method named in `methods` (the items of
/// VRChat's `requiresTwoFactorAuth` list, each a string or not; `None`
/// when that field is not a list).
pub fn first_two_factor_method(methods: &Option<Vec<Option<String>>>) -> (r: Option<String>)
    ensures
        r is Some == first_method(optional_texts(*methods)) is Some,
        r is Some ==> r->0@ == first_method(optional_texts(*methods))->0,
{
    match methods {
        Some(m) => {
            if m.len() > 0 {
                match &m[0] {
                    Some(s) => Some(s.clone()),
                    None => None,
                }
            } else {
                None
            }
        },
        None => None,
    }
}

/// The second-factor method to report: the first one named, in lower case.
pub fn two_factor_kind(methods: &Option<Vec<Option<String>>>) -> (r: Option<String>)
    ensures
        r is Some == first_method(optional_texts(*methods)) is Some,
        r is Some ==> r->0@ == lowercase(first_method(optional_texts(*methods))->0),
{
    match first_two_factor_method(methods) {
        Some(m) => Some(to_lowercase(m.as_str())),
        None => None,
    }
}

/// The answer to a successful sign-in: the session token and the second
/// factor, joined by `:`.
pub fn auth_credential(token: &str, kind: &str) -> (r: String)
    ensures
        r@ == token@ + ":"@ + kind@,
{
    let mut r = String::from_str(token);
    r.append(":");
    r.append(kind);
    r
}

/// Why a sign-in could not be completed.
pub enum AuthError {
    /// The `set-cookie` header is missing or holds no session token.
    Cookie,
    /// VRChat named no second factor.
    NoTwoFactor,
}

impl AuthError {
    /// The message the client is given.
    pub fn message(&self) -> (r: String)
        ensures
            r@ == match self {
                AuthError::Cookie => "An error occurred while parsing the cookie."@,
                AuthError::NoTwoFactor => "No 2FA"@,
            },
    {
        match self {
            AuthError::Cookie => String::from_str("An error occurred while parsing the cookie."),
            AuthError::NoTwoFactor => String::from_str("No 2FA"),
        }
    }
}

} // verus!
