//! Who may give orders to the agent over its REST API.

use base64::Engine;
use vstd::prelude::*;

use crate::text;
use crate::text::{chars_of, str_eq, string_of, strip_prefix, trim, until_from};

verus! {

/// The bytes that a text stands for in base64; `None` where it is not base64.
pub uninterp spec fn base64_bytes(s: Seq<char>) -> Option<Seq<u8>>;

/// Bytes in base64.
pub uninterp spec fn base64_text(b: Seq<u8>) -> Seq<char>;

/// `base64::engine::general_purpose::STANDARD.decode`.
///
/// Trusted: the bytes, or that there are none, depend on the text alone.
#[verifier::external_body]
fn base64_decode(s: &str) -> (r: Option<Vec<u8>>)
    ensures
        match r {
            Some(b) => base64_bytes(s@) == Some(b@),
            None => base64_bytes(s@) is None,
        },
{
    base64::engine::general_purpose::STANDARD.decode(s).ok()
}

/// `base64::engine::general_purpose::STANDARD.encode`.
///
/// Trusted: the text depends on the bytes of the argument alone.
#[verifier::external_body]
fn base64_encode(s: &str) -> (r: String)
    ensures
        r@ == base64_text(vstd::utf8::encode_utf8(s@)),
{
    base64::engine::general_purpose::STANDARD.encode(s)
}

/// `String::from_utf8` of the standard library.
///
/// Trusted: there is a text exactly if the bytes are valid UTF-8, and it is what they decode to.
#[verifier::external_body]
fn utf8_text(b: Vec<u8>) -> (r: Option<String>)
    ensures
        match r {
            Some(s) => vstd::utf8::valid_utf8(b@) && s@ == vstd::utf8::decode_utf8(b@),
            None => !vstd::utf8::valid_utf8(b@),
        },
{
    String::from_utf8(b).ok()
}

/// Who may give orders: whoever knows the name and the password, or everybody where they are not
/// both given.
#[derive(Debug, Clone)]
pub struct AuthConfig {
    pub username: Option<String>,
    pub password: Option<String>,
}

/// The name before the first colon and the password after it are these.
pub open spec fn credentials_match(decoded: Seq<char>, user: Seq<char>, pass: Seq<char>) -> bool {
    let i = text::until(decoded, ':') as int;
    i < decoded.len() && decoded.take(i) == user && decoded.skip(i + 1) == pass
}

/// Whether a decoded header holds this name and this password.
pub fn check_credentials(decoded: &str, user: &str, pass: &str) -> (r: bool)
    ensures
        r == credentials_match(decoded@, user@, pass@),
{
    let v = chars_of(decoded);
    let n: usize = v.len();
    let i = until_from(&v, 0, ':');
    assert(v@.skip(0) =~= v@);
    if i >= n {
        return false;
    }
    let u = string_of(&v, 0, i);
    let p = string_of(&v, i + 1, n);
    assert(u@ =~= decoded@.take(i as int));
    assert(p@ =~= decoded@.skip(i + 1));
    str_eq(u.as_str(), user) && str_eq(p.as_str(), pass)
}

/// The header names this user with this password: as basic credentials, or as a token that is made
/// of them.
pub open spec fn header_matches(header: Seq<char>, user: Seq<char>, pass: Seq<char>) -> bool {
    match text::after_prefix(header, "Basic "@) {
        Some(rest) => match base64_bytes(text::trimmed(rest)) {
            Some(b) => vstd::utf8::valid_utf8(b) && credentials_match(
                vstd::utf8::decode_utf8(b),
                user,
                pass,
            ),
            None => false,
        },
        None => match text::after_prefix(header, "Bearer "@) {
            Some(token) => text::trimmed(token) == base64_text(
                vstd::utf8::encode_utf8(user + ":"@ + pass),
            ),
            None => false,
        },
    }
}

impl AuthConfig {
    /// Whether a name and a password are needed.
    pub fn is_enabled(&self) -> (r: bool)
        ensures
            r == (self.username is Some && self.password is Some),
    {
        self.username.is_some() && self.password.is_some()
    }

    fn header_ok(header: &str, user: &str, pass: &str) -> (r: bool)
        ensures
            r == header_matches(header@, user@, pass@),
    {
        if let Some(rest) = strip_prefix(header, "Basic ") {
            let encoded = trim(rest.as_str());
            match base64_decode(encoded.as_str()) {
                Some(b) => match utf8_text(b) {
                    Some(decoded) => check_credentials(decoded.as_str(), user, pass),
                    None => false,
                },
                None => false,
            }
        } else if let Some(token) = strip_prefix(header, "Bearer ") {
            let mut credentials = user.to_string();
            credentials.append(":");
            credentials.append(pass);
            let expected = base64_encode(credentials.as_str());
            let given = trim(token.as_str());
            str_eq(given.as_str(), expected.as_str())
        } else {
            false
        }
    }

    /// Whether a request with this `Authorization` header may pass.
    pub fn authorize(&self, header: Option<&str>) -> (r: bool)
        ensures
            match (self.username, self.password) {
                (Some(user), Some(pass)) => match header {
                    Some(h) => r == header_matches(h@, user@, pass@),
                    None => !r,
                },
                _ => r,
            },
    {
        match (&self.username, &self.password) {
            (Some(user), Some(pass)) => match header {
                Some(h) => AuthConfig::header_ok(h, user.as_str(), pass.as_str()),
                None => false,
            },
            _ => true,
        }
    }
}

/// A name without a colon and a password are accepted exactly as `name:password`.
pub proof fn law_credentials_are_exact(decoded: Seq<char>, user: Seq<char>, pass: Seq<char>)
    requires
        !user.contains(':'),
    ensures
        credentials_match(decoded, user, pass) <==> decoded == user + seq![':'] + pass,
{
    text::lemma_until(decoded, ':');
    let i = text::until(decoded, ':') as int;
    if credentials_match(decoded, user, pass) {
        assert(decoded =~= decoded.take(i) + seq![':'] + decoded.skip(i + 1));
    }
    if decoded == user + seq![':'] + pass {
        let n = user.len() as int;
        assert(decoded[n] == ':');
        if i < n {
            assert(user[i] == ':');
            assert(user.contains(':'));
        }
        assert(i == n);
        assert(decoded.take(n) =~= user);
        assert(decoded.skip(n + 1) =~= pass);
    }
}

/// Basic credentials for a name without a colon pass exactly if they are the base64 of the bytes of
/// `name:password`, with or without white space around them.
pub proof fn law_basic_credentials(header: Seq<char>, user: Seq<char>, pass: Seq<char>)
    requires
        "Basic "@.is_prefix_of(header),
        !user.contains(':'),
    ensures
        header_matches(header, user, pass) <==> base64_bytes(
            text::trimmed(header.skip("Basic "@.len() as int)),
        ) == Some(vstd::utf8::encode_utf8(user + seq![':'] + pass)),
{
    let whole = user + seq![':'] + pass;
    vstd::utf8::encode_utf8_valid_utf8(whole);
    vstd::utf8::encode_utf8_decode_utf8(whole);
    match base64_bytes(text::trimmed(header.skip("Basic "@.len() as int))) {
        Some(b) => {
            if vstd::utf8::valid_utf8(b) {
                vstd::utf8::decode_utf8_encode_utf8(b);
                law_credentials_are_exact(vstd::utf8::decode_utf8(b), user, pass);
            }
        },
        None => {},
    }
}

/// A token passes exactly if it is the base64 of the bytes of `name:password`; a header of another
/// kind never passes.
pub proof fn law_token_credentials(header: Seq<char>, user: Seq<char>, pass: Seq<char>)
    requires
        !"Basic "@.is_prefix_of(header),
    ensures
        "Bearer "@.is_prefix_of(header) ==> (header_matches(header, user, pass) <==> text::trimmed(
            header.skip("Bearer "@.len() as int),
        ) == base64_text(vstd::utf8::encode_utf8(user + seq![':'] + pass))),
        !"Bearer "@.is_prefix_of(header) ==> !header_matches(header, user, pass),
{
    reveal_strlit(":");
    assert(":"@ =~= seq![':']);
}

} // verus!
