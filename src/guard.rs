//! Role-based authorization of operations.

use vstd::prelude::*;
use crate::auth::{token_result, secret_bytes, Auth};
use crate::claims::{Claims, Role};
use crate::error::{AppError, AuthErrorCode, Fault};

verus! {

/// The roles allowed to run an operation.
pub struct RoleGuard {
    pub allowed_roles: Vec<Role>,
}

/// The guard's verdict on verified claims: allowed, or refused with the
/// subject named.
pub open spec fn guard_outcome(allowed: Seq<Role>, c: Claims) -> Result<(), AppError> {
    if allowed.contains(c.role) {
        Ok(())
    } else {
        Err(AppError::Auth { code: AuthErrorCode::InsufficientPermissions, user_id: Some(c.user_id) })
    }
}

/// The guard's verdict on a request: no token is invalid credentials, a
/// token that does not check out is refused with its error, and then the
/// role decides.
pub open spec fn check_outcome(
    allowed: Seq<Role>,
    secret: Option<String>,
    token: Option<Seq<char>>,
    now: int,
) -> Result<Claims, AppError> {
    match token {
        None => Err(AppError::auth(AuthErrorCode::InvalidCredentials)),
        Some(t) => match secret {
            None => Err(AppError::Internal(Fault::MissingTokenSecret)),
            Some(_) => match token_result(secret_bytes(secret), t, now) {
                Err(e) => Err(e),
                Ok(c) => match guard_outcome(allowed, c) {
                    Err(e) => Err(e),
                    Ok(_) => Ok(c),
                },
            },
        },
    }
}

impl RoleGuard {
    pub fn new(roles: Vec<Role>) -> (r: RoleGuard)
        ensures
            r.allowed_roles@ == roles@,
    {
        RoleGuard { allowed_roles: roles }
    }

    /// Allows the claims when their role is one of the allowed roles.
    pub fn authorize(&self, claims: &Claims) -> (r: Result<(), AppError>)
        ensures
            r == guard_outcome(self.allowed_roles@, *claims),
    {
        let mut i: usize = 0;
        while i < self.allowed_roles.len()
            invariant
                i <= self.allowed_roles@.len(),
                forall|k: int| 0 <= k < i ==> self.allowed_roles@[k] != claims.role,
            decreases self.allowed_roles@.len() - i,
        {
            if self.allowed_roles[i] == claims.role {
                assert(self.allowed_roles@.contains(claims.role));
                return Ok(());
            }
            i = i + 1;
        }
        Err(AppError::Auth { code: AuthErrorCode::InsufficientPermissions, user_id: Some(claims.user_id) })
    }

    /// Checks the bearer token of a request at time `now`, then its role.
    pub fn check_at(&self, auth: &Auth, token: Option<&str>, now: i64) -> (r: Result<Claims, AppError>)
        ensures
            r == check_outcome(
                self.allowed_roles@,
                auth.token_secret,
                match token {
                    None => None,
                    Some(t) => Some(t@),
                },
                now as int,
            ),
    {
        let t = match token {
            None => return Err(AppError::Auth { code: AuthErrorCode::InvalidCredentials, user_id: None }),
            Some(t) => t,
        };
        let claims = auth.verify_token_at(t, now)?;
        self.authorize(&claims)?;
        Ok(claims)
    }
}

/// A guard that allows suppliers alone refuses customers, naming them,
/// and allows suppliers.
pub proof fn lemma_supplier_guard(c: Claims)
    ensures
        c.role == Role::Customer ==> guard_outcome(seq![Role::Supplier], c) == Err::<(), AppError>(
            AppError::Auth { code: AuthErrorCode::InsufficientPermissions, user_id: Some(c.user_id) },
        ),
        c.role == Role::Supplier ==> guard_outcome(seq![Role::Supplier], c) == Ok::<(), AppError>(()),
{
    if c.role == Role::Customer {
        assert(!seq![Role::Supplier].contains(c.role)) by {
            assert(seq![Role::Supplier][0] == Role::Supplier);
        }
    } else {
        assert(seq![Role::Supplier][0] == c.role);
    }
}

} // verus!
