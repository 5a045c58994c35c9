use vstd::prelude::*;

use crate::error::AppError;
use crate::models::user::{Claims, Keys, OptionalClaims};

verus! {

// ---------------------------------------------------------------------------
// Names for the results of the outside calls the token service relies on.
// ---------------------------------------------------------------------------

/// The encoded hash that argon2's `hash_encoded` computes from a password's
/// UTF-8 bytes and a salt with the default configuration.
pub uninterp spec fn argon2_hash_of(password: Seq<char>, salt: Seq<u8>) -> Seq<char>;

/// Whether argon2's `verify_encoded` accepts a password's UTF-8 bytes
/// against an encoded hash.
pub uninterp spec fn argon2_verify_of(encoded: Seq<char>, password: Seq<char>) -> bool;

/// The signed token that jsonwebtoken's `encode` produces, with the default
/// header, from claims `{id, email, exp}` and an HMAC secret.
pub uninterp spec fn jwt_of(id: i32, email: Seq<char>, exp: u64, secret: Seq<u8>) -> Seq<char>;

/// The name/value pair that cookie's `Cookie::parse` reads off the front of a
/// cookie header, when the header parses at all.
pub uninterp spec fn cookie_pair_of(header: Seq<char>) -> Option<(Seq<char>, Seq<char>)>;

/// The string field stored under `key` in a decoded JSON object, as
/// serde_json's `get` and `as_str` read it.
pub uninterp spec fn json_str_field(v: serde_json::Value, key: Seq<char>) -> Option<Seq<char>>;

/// The integer field stored under `key` in a decoded JSON object, as
/// serde_json's `get` and `as_i64` read it.
pub uninterp spec fn json_int_field(v: serde_json::Value, key: Seq<char>) -> Option<i64>;

// ---------------------------------------------------------------------------
// Trusted declarations and wrappers for the outside calls themselves.
// ---------------------------------------------------------------------------

#[verifier::external_type_specification]
#[verifier::external_body]
pub struct ExJsonValue(serde_json::Value);

/// Whether a string is an encoded hash that argon2's `hash_encoded` can
/// produce from some in-bounds password and salt.
pub open spec fn is_argon2_hash(encoded: Seq<char>) -> bool {
    exists|pw: Seq<char>, salt: Seq<u8>|
        8 <= salt.len() <= 0xffff_ffff && pw.len() <= 0xffff_ffff && encoded == argon2_hash_of(
            pw,
            salt,
        )
}

/// Relies on argon2's `hash_encoded` (with `Config::default()`) over the
/// password's UTF-8 bytes: the result depends on the password and the salt
/// alone and verifies against the password. The call fails only over argon2's
/// input bounds: it succeeds whenever the salt is 8 to 2^32 - 1 bytes long
/// and the password is at most 2^30 - 1 characters (its UTF-8 form then fits
/// argon2's limit), and a salt out of those bounds or a password over
/// 2^32 - 1 characters fails it.
#[verifier::external_body]
pub(crate) fn hash_password(password: &str, salt: &[u8]) -> (r: Option<String>)
    ensures
        r matches Some(h) ==> h@ == argon2_hash_of(password@, salt@),
        r matches Some(h) ==> argon2_verify_of(h@, password@),
        r matches Some(h) ==> is_argon2_hash(h@),
        8 <= salt@.len() <= 0xffff_ffff && password@.len() <= 0x3fff_ffff ==> r is Some,
        r is Some ==> 8 <= salt@.len() <= 0xffff_ffff && password@.len() <= 0xffff_ffff,
{
    match argon2::hash_encoded(password.as_bytes(), salt, &argon2::Config::default()) {
        Ok(h) => Some(h),
        Err(_) => None,
    }
}

/// Relies on argon2's `verify_encoded` over the password's UTF-8 bytes: the
/// result depends on the encoded hash and the password alone, and the call
/// succeeds on any string that `hash_encoded` produced, provided the
/// submitted password stays under argon2's input ceiling (at most 2^30 - 1
/// characters keeps its UTF-8 form within the 2^32 - 1 byte limit that
/// `verify_encoded` re-checks).
#[verifier::external_body]
pub(crate) fn check_password(encoded: &str, password: &str) -> (r: Option<bool>)
    ensures
        r matches Some(b) ==> b == argon2_verify_of(encoded@, password@),
        is_argon2_hash(encoded@) && password@.len() <= 0x3fff_ffff ==> r is Some,
{
    match argon2::verify_encoded(encoded, password.as_bytes()) {
        Ok(b) => Some(b),
        Err(_) => None,
    }
}

/// Relies on jsonwebtoken's `encode` with `Header::default()` (HS256) and a
/// secret key: the token depends on the claims and the secret alone, and
/// HMAC signing of a JSON object cannot fail.
#[verifier::external_body]
fn jwt_encode(id: i32, email: &str, exp: u64, secret: &[u8]) -> (r: Option<String>)
    ensures
        r matches Some(t) ==> t@ == jwt_of(id, email@, exp, secret@),
        r is Some,
{
    let mut claims = serde_json::Map::new();
    claims.insert("id".to_owned(), serde_json::Value::from(id));
    claims.insert("email".to_owned(), serde_json::Value::from(email));
    claims.insert("exp".to_owned(), serde_json::Value::from(exp));
    let key = jsonwebtoken::EncodingKey::from_secret(secret);
    let header = jsonwebtoken::Header::default();
    match jsonwebtoken::encode(&header, &serde_json::Value::Object(claims), &key) {
        Ok(t) => Some(t),
        Err(_) => None,
    }
}

/// Relies on jsonwebtoken's `decode::<serde_json::Value>` with
/// `Validation::default()`: a token that `encode` built from claims
/// `{id, email, exp}` carries exactly those fields in its payload, so if the
/// decode succeeds (it checks the signature and the expiry against the
/// clock), the returned object holds them.
#[verifier::external_body]
fn jwt_decode(token: &str, secret: &[u8]) -> (r: Option<serde_json::Value>)
    ensures
        r matches Some(v) ==> forall|id: i32, email: Seq<char>, exp: u64|
            token@ == #[trigger] jwt_of(id, email, exp, secret@) && exp <= i64::MAX ==> {
                &&& json_int_field(v, "id"@) == Some(id as i64)
                &&& json_str_field(v, "email"@) == Some(email)
                &&& json_int_field(v, "exp"@) == Some(exp as i64)
            },
{
    let key = jsonwebtoken::DecodingKey::from_secret(secret);
    let validation = jsonwebtoken::Validation::default();
    match jsonwebtoken::decode::<serde_json::Value>(token, &key, &validation) {
        Ok(data) => Some(data.claims),
        Err(_) => None,
    }
}

/// Relies on serde_json's `Value::get` and `Value::as_str`.
#[verifier::external_body]
fn json_get_str(v: &serde_json::Value, key: &str) -> (r: Option<String>)
    ensures
        r matches Some(s) ==> json_str_field(*v, key@) == Some(s@),
        r is None ==> json_str_field(*v, key@) is None,
{
    match v.get(key) {
        Some(f) => match f.as_str() {
            Some(s) => Some(s.to_owned()),
            None => None,
        },
        None => None,
    }
}

/// Relies on serde_json's `Value::get` and `Value::as_i64`.
#[verifier::external_body]
fn json_get_i64(v: &serde_json::Value, key: &str) -> (r: Option<i64>)
    ensures
        r matches Some(n) ==> json_int_field(*v, key@) == Some(n),
        r is None ==> json_int_field(*v, key@) is None,
{
    match v.get(key) {
        Some(f) => f.as_i64(),
        None => None,
    }
}

/// Relies on cookie's `Cookie::build(..).http_only(true)` and its `Display`:
/// the Set-Cookie text of such a cookie is `<name>=<value>; HttpOnly`.
#[verifier::external_body]
pub(crate) fn jwt_cookie(token: &str) -> (r: String)
    ensures
        r@ == "jwt="@ + token@ + "; HttpOnly"@,
{
    cookie::Cookie::build("jwt", token).http_only(true).finish().to_string()
}

/// Relies on cookie's `Cookie::parse`: the result depends on the header text
/// alone.
#[verifier::external_body]
fn parse_cookie_pair(header: &str) -> (r: Option<(String, String)>)
    ensures
        r matches Some(p) ==> cookie_pair_of(header@) == Some((p.0@, p.1@)),
        r is None ==> cookie_pair_of(header@) is None,
{
    match cookie::Cookie::parse(header) {
        Ok(c) => Some((c.name().to_owned(), c.value().to_owned())),
        Err(_) => None,
    }
}

// ---------------------------------------------------------------------------
// The verified token service.
// ---------------------------------------------------------------------------

/// Sign the given claims into a session token.
pub fn issue_token(claims: &Claims, keys: &Keys) -> (r: Result<String, AppError>)
    ensures
        r matches Ok(t) && t@ == jwt_of(claims.id, claims.email@, claims.exp, keys.secret@),
{
    match jwt_encode(claims.id, claims.email.as_str(), claims.exp, &keys.secret) {
        Some(t) => Ok(t),
        None => Err(AppError::MissingCredentials),
    }
}

/// Read session claims off a decoded token payload: accepted exactly when
/// the object carries an `id` that fits an `i32`, a string `email`, and a
/// non-negative `exp`; the accepted claims are exactly those fields, and
/// anything else is an invalid token.
pub fn claims_from_json(v: &serde_json::Value) -> (r: Result<Claims, AppError>)
    ensures
        r is Ok <==> (json_int_field(*v, "id"@) matches Some(i) && i32::MIN <= i <= i32::MAX
            && json_str_field(*v, "email"@) is Some && (json_int_field(*v, "exp"@) matches Some(
            e,
        ) && 0 <= e)),
        r matches Ok(c) ==> json_int_field(*v, "id"@) == Some(c.id as i64) && json_str_field(
            *v,
            "email"@,
        ) == Some(c.email@) && json_int_field(*v, "exp"@) == Some(c.exp as i64) && c.exp
            <= i64::MAX,
        r is Err ==> r == Err::<Claims, AppError>(AppError::InvalidToken),
{
    let id = match json_get_i64(v, "id") {
        Some(n) => n,
        None => {
            return Err(AppError::InvalidToken);
        },
    };
    if id < i32::MIN as i64 || id > i32::MAX as i64 {
        return Err(AppError::InvalidToken);
    }
    let email = match json_get_str(v, "email") {
        Some(s) => s,
        None => {
            return Err(AppError::InvalidToken);
        },
    };
    let exp = match json_get_i64(v, "exp") {
        Some(n) => n,
        None => {
            return Err(AppError::InvalidToken);
        },
    };
    if exp < 0 {
        return Err(AppError::InvalidToken);
    }
    Ok(Claims { id: id as i32, email, exp: exp as u64 })
}

/// Validate a session token and recover the claims it carries. Whether a
/// genuine, unexpired token is accepted rests on the clock inside the
/// decoder; what is done with an accepted payload is pinned by
/// `claims_from_json`, and whatever comes out carries the fields the token
/// was signed with.
pub fn verify_token(token: &str, keys: &Keys) -> (r: Result<Claims, AppError>)
    ensures
        r matches Ok(c) ==> forall|id: i32, email: Seq<char>, exp: u64|
            token@ == #[trigger] jwt_of(id, email, exp, keys.secret@) && exp <= i64::MAX ==> {
                &&& c.id == id
                &&& c.email@ == email
                &&& c.exp == exp
            },
        r is Err ==> r == Err::<Claims, AppError>(AppError::InvalidToken),
{
    let v = match jwt_decode(token, &keys.secret) {
        Some(v) => v,
        None => {
            return Err(AppError::InvalidToken);
        },
    };
    match claims_from_json(&v) {
        Ok(c) => {
            proof {
                assert forall|id: i32, email: Seq<char>, exp: u64|
                    token@ == #[trigger] jwt_of(id, email, exp, keys.secret@) && exp
                        <= i64::MAX implies c.id == id && c.email@ == email && c.exp == exp by {
                    assert(json_int_field(v, "id"@) == Some(id as i64));
                    assert(json_str_field(v, "email"@) == Some(email));
                    assert(json_int_field(v, "exp"@) == Some(exp as i64));
                }
            }
            Ok(c)
        },
        Err(e) => Err(e),
    }
}

/// The token carried by a request's cookie header: the value of the leading
/// cookie when that cookie is named `jwt`.
pub fn jwt_from_cookie_header(header: &str) -> (r: Option<String>)
    ensures
        r matches Some(t) ==> cookie_pair_of(header@) matches Some(p) && p.0 == "jwt"@ && p.1
            == t@,
        r is None ==> !(cookie_pair_of(header@) matches Some(p) && p.0 == "jwt"@),
{
    proof {
        reveal_strlit("jwt");
    }
    match parse_cookie_pair(header) {
        Some((name, value)) => {
            let jwt_name: String = "jwt".to_owned();
            if name == jwt_name {
                Some(value)
            } else {
                None
            }
        },
        None => None,
    }
}

impl Claims {
    /// Resolve a required identity from a request's cookie header, as the
    /// auth middleware does: a missing header, a missing or misnamed cookie,
    /// and a token the service rejects all fail with `InvalidToken`.
    pub fn from_cookie_header(header: Option<&str>, keys: &Keys) -> (r: Result<Claims, AppError>)
        ensures
            r matches Ok(c) ==> header matches Some(h) && (cookie_pair_of(h@) matches Some(p)
                && p.0 == "jwt"@ && (forall|id: i32, email: Seq<char>, exp: u64|
                p.1 == #[trigger] jwt_of(id, email, exp, keys.secret@) && exp <= i64::MAX
                    ==> c.id == id && c.email@ == email && c.exp == exp)),
            r is Err ==> r == Err::<Claims, AppError>(AppError::InvalidToken),
    {
        let h = match header {
            Some(h) => h,
            None => {
                return Err(AppError::InvalidToken);
            },
        };
        let token = match jwt_from_cookie_header(h) {
            Some(t) => t,
            None => {
                return Err(AppError::InvalidToken);
            },
        };
        verify_token(token.as_str(), keys)
    }
}

impl OptionalClaims {
    /// Resolve an optional identity from a request's cookie header: where
    /// `Claims::from_cookie_header` would fail, this yields no identity.
    pub fn from_cookie_header(header: Option<&str>, keys: &Keys) -> (r: OptionalClaims)
        ensures
            r.0 matches Some(c) ==> header matches Some(h) && (cookie_pair_of(h@) matches Some(p)
                && p.0 == "jwt"@ && (forall|id: i32, email: Seq<char>, exp: u64|
                p.1 == #[trigger] jwt_of(id, email, exp, keys.secret@) && exp <= i64::MAX
                    ==> c.id == id && c.email@ == email && c.exp == exp)),
    {
        match Claims::from_cookie_header(header, keys) {
            Ok(c) => OptionalClaims(Some(c)),
            Err(_) => OptionalClaims(None),
        }
    }
}

} // verus!
