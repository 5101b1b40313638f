//! The requests clients send: colon-separated fields, checked and turned
//! into the address and body of the call made to VRChat.

use vstd::prelude::*;
use vstd::string::StringSliceAdditionalSpecFns;
use crate::text::{split_on, split_pieces, texts, index_of_char, join_with, lacks_char, lemma_split_join};

verus! {

/// A VRChat status code means success (`StatusCode::is_success`: 2xx).
pub fn is_success(status: u16) -> (r: bool)
    ensures
        r == (200 <= status < 300),
{
    200 <= status && status < 300
}

/// Why a client request was refused before anything was sent to VRChat.
pub enum RequestError {
    /// Fewer colon-separated fields than the request needs.
    MissingField,
    /// The authentication id of a second-factor request is over 50 characters.
    AuthTooLong,
    /// The HTTP method named in a friend request is not a method token.
    InvalidMethod,
}

impl RequestError {
    /// The message the client is given.
    pub fn message(&self) -> (r: String)
        ensures
            r@ == match self {
                RequestError::MissingField => "The request is missing a field."@,
                RequestError::AuthTooLong => "認証IDが長すぎます。"@,
                RequestError::InvalidMethod => "invalid HTTP method"@,
            },
    {
        match self {
            RequestError::MissingField => String::from_str("The request is missing a field."),
            RequestError::AuthTooLong => String::from_str("認証IDが長すぎます。"),
            RequestError::InvalidMethod => String::from_str("invalid HTTP method"),
        }
    }
}

/// The first `n` colon-separated fields of `req`, when it has that many.
pub open spec fn fields_of(req: Seq<char>, n: nat) -> Option<Seq<Seq<char>>> {
    let pieces = split_on(req, ':');
    if pieces.len() >= n {
        Some(pieces.take(n as int))
    } else {
        None
    }
}

/// The first `n` colon-separated fields of `req`; the rest are ignored.
/// Requests with a fixed number of fields are read this way: the next `n`
/// pieces of `str::split(':')` are taken, and the request is refused when
/// one is missing; fields after them are not looked at.
pub fn take_fields(req: &str, n: usize) -> (r: Result<Vec<String>, RequestError>)
    ensures
        r is Ok == fields_of(req@, n as nat) is Some,
        r matches Ok(v) ==> texts(v@) == fields_of(req@, n as nat)->0 && v@.len() == n,
        r matches Err(e) ==> e is MissingField,
{
    let mut pieces = split_pieces(req, ':');
    if pieces.len() < n {
        return Err(RequestError::MissingField);
    }
    let ghost all = pieces@;
    pieces.truncate(n);
    proof {
        assert(texts(pieces@) =~= texts(all).take(n as int));
    }
    Ok(pieces)
}

/// A request `auth:rest`, split at its first colon.
pub open spec fn split_first_colon(req: Seq<char>) -> Option<(Seq<char>, Seq<char>)> {
    let i = index_of_char(req, ':');
    if i < req.len() {
        Some((req.take(i as int), req.skip(i as int + 1)))
    } else {
        None
    }
}

/// Splits `req` at its first colon, as `str::split_once(':')` does; the
/// part after it may hold further colons (an instance location does).
pub fn split_colon(req: &str) -> (r: Result<(String, String), RequestError>)
    ensures
        r is Ok == split_first_colon(req@) is Some,
        r matches Ok(p) ==> split_first_colon(req@) == Some((p.0@, p.1@)),
        r matches Err(e) ==> e is MissingField,
{
    let n = req.unicode_len();
    let mut i: usize = 0;
    while i < n && req.get_char(i) != ':'
        invariant
            i <= n,
            n == req@.len(),
            forall|j: int| 0 <= j < i ==> req@[j] != ':',
        decreases n - i,
    {
        i = i + 1;
    }
    proof {
        crate::text::lemma_index_of_char(req@, ':', i as int);
    }
    if i == n {
        return Err(RequestError::MissingField);
    }
    let head = req.substring_char(0, i).to_owned();
    let tail = req.substring_char(i + 1, n).to_owned();
    proof {
        assert(head@ =~= req@.take(i as int));
        assert(tail@ =~= req@.skip(i + 1));
    }
    Ok((head, tail))
}

/// The fields of a friend request `auth:user:method`.
pub struct FriendRequest {
    pub auth: String,
    pub user: String,
    pub method: String,
}

/// Reads a friend request `auth:user:method`.
pub fn friend_request_fields(req: &str) -> (r: Result<FriendRequest, RequestError>)
    ensures
        r is Ok == fields_of(req@, 3) is Some,
        r matches Ok(f) ==> f.auth@ == split_on(req@, ':')[0] && f.user@ == split_on(req@, ':')[1]
            && f.method@ == split_on(req@, ':')[2],
        r matches Err(e) ==> e is MissingField,
{
    match take_fields(req, 3) {
        Ok(v) => {
            let mut v = v;
            proof {
                assert(texts(v@)[2] == v@[2]@);
                assert(texts(v@)[1] == v@[1]@);
                assert(texts(v@)[0] == v@[0]@);
            }
            let method = v.pop().unwrap();
            let user = v.pop().unwrap();
            let auth = v.pop().unwrap();
            Ok(FriendRequest { auth, user, method })
        },
        Err(e) => Err(e),
    }
}

/// The address a friend request for `user` goes to.
pub fn friend_request_url(user: &str) -> (r: String)
    ensures
        r@ == "https://api.vrchat.cloud/api/1/user/"@ + user@ + "/friendRequest"@,
{
    let mut r = String::from_str("https://api.vrchat.cloud/api/1/user/");
    r.append(user);
    r.append("/friendRequest");
    r
}

/// A byte that may stand in an HTTP method (`tchar` of RFC 9110).
pub open spec fn is_method_char(b: u8) -> bool {
    ||| 0x30 <= b <= 0x39
    ||| 0x41 <= b <= 0x5a
    ||| 0x61 <= b <= 0x7a
    ||| b == 0x21 || b == 0x23 || b == 0x24 || b == 0x25 || b == 0x26 || b == 0x27
    ||| b == 0x2a || b == 0x2b || b == 0x2d || b == 0x2e || b == 0x5e || b == 0x5f
    ||| b == 0x60 || b == 0x7c || b == 0x7e
}

/// `bytes` is an HTTP method: at least one byte, each of them a `tchar`.
pub open spec fn is_method_token(bytes: Seq<u8>) -> bool {
    bytes.len() > 0 && forall|i: int| 0 <= i < bytes.len() ==> is_method_char(#[trigger] bytes[i])
}

#[verifier::external_type_specification]
#[verifier::external_body]
pub struct ExMethod(reqwest::Method);

/// An HTTP method, with the bytes of its name as its model.
pub struct HttpMethod {
    inner: reqwest::Method,
    text: Ghost<Seq<u8>>,
}

impl HttpMethod {
    /// The bytes of the method's name.
    pub closed spec fn bytes(&self) -> Seq<u8> {
        self.text@
    }

    /// The method, for sending a request with it.
    pub fn into_inner(self) -> reqwest::Method {
        self.inner
    }
}

/// Calls `http::Method::from_bytes` (as `reqwest::Method`). Claimed, as its
/// source shows: it succeeds exactly when `src` is at least one byte long
/// and every byte is a method character, and the method it gives is the
/// one named by exactly these bytes (its `as_str` is `src`); the model
/// `bytes` of the result records them.
#[verifier::external_body]
fn method_from_bytes(src: &[u8]) -> (r: Option<HttpMethod>)
    ensures
        r is Some == is_method_token(src@),
        r matches Some(m) ==> m.bytes() == src@,
{
    match reqwest::Method::from_bytes(src) {
        Ok(inner) => Some(HttpMethod { inner, text: Ghost(src@) }),
        Err(_) => None,
    }
}

/// The HTTP method named `method` in a friend request: the method whose
/// name is the bytes of `method`, when those bytes form a method token.
pub fn friend_request_method(method: &str) -> (r: Result<HttpMethod, RequestError>)
    ensures
        r is Ok == is_method_token(method.spec_bytes()),
        r matches Ok(m) ==> m.bytes() == method.spec_bytes(),
        r matches Err(e) ==> e is InvalidMethod,
{
    match method_from_bytes(method.as_bytes()) {
        Some(m) => Ok(m),
        None => Err(RequestError::InvalidMethod),
    }
}

/// The address of an instance at VRChat.
pub fn instance_url(instance: &str) -> (r: String)
    ensures
        r@ == "https://api.vrchat.cloud/api/1/instances/"@ + instance@,
{
    let mut r = String::from_str("https://api.vrchat.cloud/api/1/instances/");
    r.append(instance);
    r
}

/// A second-factor request `token:type:code:auth`, checked.
pub struct TwoFactorRequest {
    /// The session token to verify.
    pub token: String,
    /// Where the code is sent.
    pub url: String,
    /// The code the user typed.
    pub code: String,
}

/// The address a second-factor code of kind `kind` is sent to.
pub open spec fn two_factor_url(kind: Seq<char>) -> Seq<char> {
    "https://api.vrchat.cloud/api/1/auth/twofactorauth/"@ + kind + "/verify"@
}

/// Reads a second-factor request `token:type:code:auth`; refused when a
/// field is missing or `auth` is over 50 characters.
pub fn two_factor_request(req: &str) -> (r: Result<TwoFactorRequest, RequestError>)
    ensures
        ({
            let p = split_on(req@, ':');
            if p.len() < 4 {
                r matches Err(e) && e is MissingField
            } else if p[3].len() > 50 {
                r matches Err(e) && e is AuthTooLong
            } else {
                r matches Ok(t) && t.token@ == p[0] && t.url@ == two_factor_url(p[1]) && t.code@
                    == p[2]
            }
        }),
{
    let v = match take_fields(req, 4) {
        Ok(v) => v,
        Err(e) => return Err(e),
    };
    proof {
        assert(texts(v@)[0] == v@[0]@);
        assert(texts(v@)[1] == v@[1]@);
        assert(texts(v@)[2] == v@[2]@);
        assert(texts(v@)[3] == v@[3]@);
    }
    if v[3].as_str().unicode_len() > 50 {
        return Err(RequestError::AuthTooLong);
    }
    let mut url = String::from_str("https://api.vrchat.cloud/api/1/auth/twofactorauth/");
    url.append(v[1].as_str());
    url.append("/verify");
    Ok(TwoFactorRequest { token: v[0].clone(), url, code: v[2].clone() })
}

/// The saved settings of the service.
pub struct Data {
    pub listen: String,
    pub cors: String,
    pub auth: String,
    pub token: String,
}

/// The settings with the session token replaced.
pub fn with_token(data: Data, token: String) -> (r: Data)
    ensures
        r.listen == data.listen,
        r.cors == data.cors,
        r.auth == data.auth,
        r.token == token,
{
    Data { listen: data.listen, cors: data.cors, auth: data.auth, token }
}

/// The session token for a client that presents `auth`: the saved one, when
/// `auth` is the saved authentication id. A client's credentials are
/// looked up against the saved settings only.
pub fn matched_token(data: &Data, auth: &str) -> (r: Result<String, String>)
    ensures
        data.auth@ == auth@ ==> r == Ok::<String, String>(data.token),
        data.auth@ != auth@ ==> (r matches Err(msg) && msg@ == "failed to auth."@),
{
    if data.auth == String::from_str(auth) {
        Ok(data.token.clone())
    } else {
        Err(String::from_str("failed to auth."))
    }
}

/// Different second-factor kinds are verified at different addresses: the
/// kind asked for is sent as it is.
pub proof fn lemma_two_factor_url_injective(k1: Seq<char>, k2: Seq<char>)
    requires
        two_factor_url(k1) == two_factor_url(k2),
    ensures
        k1 == k2,
{
    reveal_strlit("https://api.vrchat.cloud/api/1/auth/twofactorauth/");
    reveal_strlit("/verify");
    let u1 = two_factor_url(k1);
    let u2 = two_factor_url(k2);
    assert(u1.len() == 57 + k1.len());
    assert(u2.len() == 57 + k2.len());
    assert(u1.subrange(50, 50 + k1.len() as int) =~= k1);
    assert(u2.subrange(50, 50 + k2.len() as int) =~= k2);
}

/// The address of a second-factor kind is the fixed verify address with the
/// kind, verbatim, between its 50-character prefix and `/verify`.
pub proof fn lemma_two_factor_url_holds_kind(k: Seq<char>)
    ensures
        two_factor_url(k).len() == k.len() + 57,
        two_factor_url(k).subrange(50, 50 + k.len() as int) == k,
        two_factor_url(k).skip(50 + k.len() as int) == seq!['/', 'v', 'e', 'r', 'i', 'f', 'y'],
{
    reveal_strlit("https://api.vrchat.cloud/api/1/auth/twofactorauth/");
    reveal_strlit("/verify");
    let u = two_factor_url(k);
    assert(u.subrange(50, 50 + k.len() as int) =~= k);
    assert(u.skip(50 + k.len() as int) =~= seq!['/', 'v', 'e', 'r', 'i', 'f', 'y']);
}

/// A request made by joining fields that hold no colon is read back field
/// for field.
pub proof fn lemma_fields_of_join(parts: Seq<Seq<char>>, n: nat)
    requires
        1 <= n <= parts.len(),
        forall|i: int| 0 <= i < parts.len() ==> lacks_char(#[trigger] parts[i], ':'),
    ensures
        fields_of(join_with(parts, ':'), n) == Some(parts.take(n as int)),
{
    lemma_split_join(parts, ':');
}

/// A request `auth:rest` with no colon in `auth` is split into `auth` and
/// `rest`, whatever `rest` holds (an instance location holds colons).
pub proof fn lemma_split_first_colon(auth: Seq<char>, rest: Seq<char>)
    requires
        lacks_char(auth, ':'),
    ensures
        split_first_colon(auth + seq![':'] + rest) == Some((auth, rest)),
{
    let s = auth + seq![':'] + rest;
    let k = auth.len() as int;
    assert forall|j: int| 0 <= j < k implies s[j] != ':' by {
        assert(s[j] == auth[j]);
    }
    crate::text::lemma_index_of_char(s, ':', k);
    assert(s.take(k) =~= auth);
    assert(s.skip(k + 1) =~= rest);
}

} // verus!
