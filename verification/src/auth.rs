//! The caller identity the core needs: an opaque identifier resolved out of
//! an opaque cookie token, and the claims of a signed token.

use vstd::prelude::*;
use crate::errors::AppError;
use crate::ids::uuid_canonical;
use crate::strutil::split_on_char;

verus! {

/// The resolved caller, carried through a request.
#[derive(Debug, Clone)]
pub struct AuthenticatedUser {
    pub user_id: String,
}

impl AuthenticatedUser {
    pub fn new(user_id: String) -> (r: AuthenticatedUser)
        ensures
            r.user_id == user_id,
    {
        AuthenticatedUser { user_id }
    }

    /// The caller's identifier, as audit columns record it.
    pub fn user_id(&self) -> (r: String)
        ensures
            r == self.user_id,
    {
        self.user_id.clone()
    }
}

/// The claims of a signed token.
#[derive(Debug, Clone)]
pub struct Claims {
    /// The subject: the user's identifier in canonical text.
    pub sub: String,
    pub username: String,
    pub email: String,
    /// Issued-at, in seconds.
    pub iat: i64,
    /// Expiry, in seconds: a day past issuance.
    pub exp: i64,
    pub iss: String,
}

/// How long a token lives, in seconds.
pub const TOKEN_LIFETIME_SECONDS: i64 = 86400;

impl Claims {
    /// Claims for a user, issued at `now` and expiring a day later.
    pub fn new(user_id: String, username: String, email: String, now: i64) -> (r: Claims)
        requires
            now <= i64::MAX - TOKEN_LIFETIME_SECONDS,
        ensures
            r.sub == user_id,
            r.username == username,
            r.email == email,
            r.iat == now,
            r.exp == now + TOKEN_LIFETIME_SECONDS,
            r.iss@ == "rust-base-api"@,
    {
        Claims {
            sub: user_id,
            username,
            email,
            iat: now,
            exp: now + TOKEN_LIFETIME_SECONDS,
            iss: "rust-base-api".to_owned(),
        }
    }

    /// The subject as an identifier; a subject that is no identifier leaves
    /// the caller unauthorized.
    pub fn user_id(&self) -> (r: Result<String, AppError>)
        ensures
            r is Ok <==> uuid_canonical(self.sub@) is Some,
            r matches Ok(u) ==> uuid_canonical(self.sub@) == Some(u@),
            r matches Err(e) ==> e == AppError::Unauthorized,
    {
        match crate::ids::parse_uuid(self.sub.as_str()) {
            Some(u) => Ok(u),
            None => Err(AppError::Unauthorized),
        }
    }
}

/// What an opaque cookie token resolves to: tokens are `user-{id}.exp.sign`,
/// and anything else carries no identity.
pub open spec fn token_user_id(token: Seq<char>) -> Option<Seq<char>> {
    let parts = split_on_char(token, '.');
    if parts.len() != 3 {
        None
    } else if parts[0].len() >= 5 && parts[0].take(5) == "user-"@ {
        uuid_canonical(parts[0].skip(5))
    } else {
        None
    }
}

/// Resolves the caller out of an opaque cookie token, exactly as
/// `token_user_id` describes; anything else is `Unauthorized`.
pub fn parse_token(token: &str) -> (r: Result<String, AppError>)
    ensures
        r is Ok <==> token_user_id(token@) is Some,
        r matches Ok(u) ==> token_user_id(token@) == Some(u@),
        r matches Err(e) ==> e == AppError::Unauthorized,
{
    proof {
        reveal_strlit("user-");
    }
    let parts = crate::strutil::split_char(token, '.');
    if parts.len() != 3 {
        return Err(AppError::Unauthorized);
    }
    let head = &parts[0];
    let head_len = head.as_str().unicode_len();
    if head_len < 5 {
        return Err(AppError::Unauthorized);
    }
    let marker = String::from_str(head.as_str().substring_char(0, 5));
    if !(marker == "user-".to_owned()) {
        proof {
            assert(head@.subrange(0, 5) =~= head@.take(5));
        }
        return Err(AppError::Unauthorized);
    }
    let id_part = head.as_str().substring_char(5, head_len);
    proof {
        assert(head@.subrange(0, 5) =~= head@.take(5));
        assert(head@.subrange(5, head_len as int) =~= head@.skip(5));
        assert(parts@[0]@ == crate::strutil::strs(parts@)[0]);
    }
    match crate::ids::parse_uuid(id_part) {
        Some(u) => Ok(u),
        None => Err(AppError::Unauthorized),
    }
}

} // verus!
