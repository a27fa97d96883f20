//! Users and their customer or supplier profiles: registration, login,
//! password change and email verification.

use vstd::prelude::*;
use vstd::string::StringSliceAdditionalSpecFns;
use crate::auth::{argon2_verdict, hashable, issued_at, secret_bytes, token_result, Auth, FIFTEEN_MINUTES, THIRTY_DAYS};
use crate::claims::{Claims, Role};
use crate::credentials::{strong_password, valid_email};
use crate::error::{AppError, AuthErrorCode, Fault, Invalid, Resource};

verus! {

/// A stored user. `created_at` is in seconds since the epoch.
pub struct Users {
    pub user_id: i32,
    pub email: String,
    pub password: String,
    pub role: Role,
    pub created_at: Option<i64>,
    pub email_verified: Option<bool>,
}

pub struct LoginUser {
    pub email: String,
    pub password: String,
}

/// What a successful login returns.
pub struct AuthUser {
    pub token: String,
    pub user_role: String,
}

pub struct RegisterUser {
    pub email: String,
    pub password: String,
    pub role: String,
}

/// A user about to be stored: the password is already hashed.
pub struct NewUser {
    pub email: String,
    pub password_hash: String,
    pub role: Role,
}

pub struct RegisterCustomer {
    pub first_name: String,
    pub last_name: String,
}

/// A customer profile. `registration_date` is in seconds since the epoch.
pub struct Customers {
    pub customer_id: i32,
    pub first_name: String,
    pub last_name: String,
    pub registration_date: Option<i64>,
    pub user_id: i32,
}

pub struct Suppliers {
    pub supplier_id: i32,
    pub name: String,
    pub contact_phone: Option<String>,
    pub user_id: i32,
}

pub struct RegisterSupplier {
    pub name: String,
    pub contact_phone: Option<String>,
}

/// The resolver of user operations.
#[derive(Debug, Clone, Copy, PartialEq, Eq, Structural)]
pub struct UsersMutation;

/// Why a registration is refused, in the order the checks run.
pub open spec fn registration_error(input: RegisterUser, email_taken: bool) -> Option<AppError> {
    if !valid_email(input.email@) {
        Some(AppError::ValidationError(Invalid::MalformedEmail))
    } else if email_taken {
        Some(AppError::ValidationError(Invalid::UserAlreadyExists))
    } else if Role::spec_from_name(input.role@) is None {
        Some(AppError::ValidationError(Invalid::UnknownRole))
    } else if !strong_password(input.password@) {
        Some(AppError::ValidationError(Invalid::WeakPassword))
    } else {
        None
    }
}

/// The link of a verification email, pointing at the local server.
pub open spec fn verification_body(port: Seq<char>, token: Seq<char>) -> Seq<char> {
    "<a href=\"http://localhost:"@ + port + "/verify/"@ + token + "\">Click here to verify your email</a>"@
}

/// The profile id of the token's subject, when a profile was found for it.
pub fn get_customer_supplier_id(role: Role, profile_id: Option<i32>) -> (r: Result<i32, AppError>)
    ensures
        r == match profile_id {
            Some(id) => Ok::<i32, AppError>(id),
            None => Err(AppError::NotFound(
                match role {
                    Role::Customer => Resource::Customer,
                    Role::Supplier => Resource::Supplier,
                },
            )),
        },
{
    match profile_id {
        Some(id) => Ok(id),
        None => match role {
            Role::Customer => Err(AppError::NotFound(Resource::Customer)),
            Role::Supplier => Err(AppError::NotFound(Resource::Supplier)),
        },
    }
}

impl UsersMutation {
    /// Checks a registration and hashes its password: the email must be
    /// well formed and free, the role known, the password strong.
    pub fn register_user(&self, auth: &Auth, input: &RegisterUser, email_taken: bool) -> (r: Result<NewUser, AppError>)
        ensures
            registration_error(*input, email_taken) is Some ==> r == Err::<NewUser, AppError>(
                registration_error(*input, email_taken)->0,
            ),
            registration_error(*input, email_taken) is None ==> match auth.password_secret {
                None => r == Err::<NewUser, AppError>(AppError::Internal(Fault::MissingPasswordSecret)),
                Some(_) => r is Ok || r == Err::<NewUser, AppError>(AppError::Internal(Fault::PasswordHashing)),
            },
            registration_error(*input, email_taken) is None && hashable(auth.password_secret, input.password@) ==> r is Ok,
            r is Ok ==> ({
                let u = r->Ok_0;
                &&& u.email == input.email
                &&& Some(u.role) == Role::spec_from_name(input.role@)
                &&& argon2_verdict(secret_bytes(auth.password_secret), vstd::utf8::encode_utf8(input.password@), u.password_hash@)
                    == Some(true)
            }),
    {
        Auth::check_email(input.email.as_str())?;
        if email_taken {
            return Err(AppError::ValidationError(Invalid::UserAlreadyExists));
        }
        let role = match Role::from_name(input.role.as_str()) {
            None => return Err(AppError::ValidationError(Invalid::UnknownRole)),
            Some(r) => r,
        };
        Auth::check_password_strength(input.password.as_str())?;
        let hash = auth.hash_password(input.password.as_str())?;
        Ok(NewUser { email: input.email.clone(), password_hash: hash, role })
    }

    /// Logs a user in: a token valid for thirty days when the password
    /// matches the stored hash.
    pub fn login(&self, auth: &Auth, input: &LoginUser, user: Option<&Users>) -> (r: Result<AuthUser, AppError>)
        ensures
            user is None ==> r == Err::<AuthUser, AppError>(AppError::NotFound(Resource::User)),
            user is Some && auth.password_secret is None ==> r == Err::<AuthUser, AppError>(
                AppError::Internal(Fault::MissingPasswordSecret),
            ),
            user is Some && auth.password_secret is Some ==> match argon2_verdict(
                secret_bytes(auth.password_secret),
                vstd::utf8::encode_utf8(input.password@),
                user->0.password@,
            ) {
                None => r == Err::<AuthUser, AppError>(AppError::Internal(Fault::MalformedPasswordHash)),
                Some(false) => r == Err::<AuthUser, AppError>(AppError::auth(AuthErrorCode::InvalidCredentials)),
                Some(true) => match auth.token_secret {
                    None => r == Err::<AuthUser, AppError>(AppError::Internal(Fault::MissingTokenSecret)),
                    Some(_) => r is Ok || r == Err::<AuthUser, AppError>(AppError::Internal(Fault::TimeOutOfRange)),
                },
            },
            r is Ok ==> r->Ok_0.user_role@ == user->0.role.spec_name(),
            r is Ok ==> exists|now: i64| #[trigger] issued_at(
                secret_bytes(auth.token_secret),
                r->Ok_0.token@,
                user->0.user_id,
                user->0.role,
                THIRTY_DAYS,
                now,
            ),
    {
        let u = match user {
            None => return Err(AppError::NotFound(Resource::User)),
            Some(u) => u,
        };
        let ok = auth.verify_password(input.password.as_str(), u.password.as_str())?;
        if !ok {
            return Err(AppError::Auth { code: AuthErrorCode::InvalidCredentials, user_id: None });
        }
        let token = match auth.create_token(u.user_id, u.role, THIRTY_DAYS) {
            Err(e) => return Err(e),
            Ok(t) => t,
        };
        let ghost now = choose|now: i64| #[trigger] issued_at(secret_bytes(auth.token_secret), token@, u.user_id, u.role, THIRTY_DAYS, now);
        assert(issued_at(secret_bytes(auth.token_secret), token@, u.user_id, u.role, THIRTY_DAYS, now));
        let out = AuthUser { token, user_role: u.role.name() };
        assert(issued_at(secret_bytes(auth.token_secret), out.token@, user->0.user_id, user->0.role, THIRTY_DAYS, now));
        Ok(out)
    }

    /// Replaces a user's password: the old one must match. Returns the new
    /// hash to store.
    pub fn change_password(
        &self,
        auth: &Auth,
        user: Option<&Users>,
        old_password: &str,
        new_password: &str,
    ) -> (r: Result<String, AppError>)
        ensures
            user is None ==> r == Err::<String, AppError>(AppError::NotFound(Resource::User)),
            user is Some && auth.password_secret is None ==> r == Err::<String, AppError>(
                AppError::Internal(Fault::MissingPasswordSecret),
            ),
            user is Some && auth.password_secret is Some ==> match argon2_verdict(
                secret_bytes(auth.password_secret),
                old_password.spec_bytes(),
                user->0.password@,
            ) {
                None => r == Err::<String, AppError>(AppError::Internal(Fault::MalformedPasswordHash)),
                Some(false) => r == Err::<String, AppError>(AppError::auth(AuthErrorCode::InvalidCredentials)),
                Some(true) => (r is Ok || r == Err::<String, AppError>(AppError::Internal(Fault::PasswordHashing)))
                    && (hashable(auth.password_secret, new_password@) ==> r is Ok),
            },
            r is Ok ==> argon2_verdict(secret_bytes(auth.password_secret), new_password.spec_bytes(), r->Ok_0@) == Some(true),
    {
        let u = match user {
            None => return Err(AppError::NotFound(Resource::User)),
            Some(u) => u,
        };
        let ok = auth.verify_password(old_password, u.password.as_str())?;
        if !ok {
            return Err(AppError::Auth { code: AuthErrorCode::InvalidCredentials, user_id: None });
        }
        auth.hash_password(new_password)
    }

    /// Makes the link of a verification email for the given user: a token
    /// valid for fifteen minutes, in a link to the local server on `port`.
    pub fn send_email_verification(&self, auth: &Auth, user_id: i32, role: Role, port: &str) -> (r: Result<String, AppError>)
        ensures
            auth.token_secret is None ==> r == Err::<String, AppError>(AppError::Internal(Fault::MissingTokenSecret)),
            auth.token_secret is Some ==> (r is Ok || r == Err::<String, AppError>(AppError::Internal(Fault::TimeOutOfRange))),
            r is Ok ==> exists|token: Seq<char>, now: i64|
                #[trigger] issued_at(secret_bytes(auth.token_secret), token, user_id, role, FIFTEEN_MINUTES, now)
                    && r->Ok_0@ == verification_body(port@, token),
    {
        let token = auth.create_token(user_id, role, FIFTEEN_MINUTES)?;
        Ok(verification_link(port, token.as_str()))
    }

    /// Marks a user's email as verified when the link's token checks out at
    /// `now`; returns the user id it names.
    pub fn verify_mail_at(&self, auth: &Auth, token: &str, now: i64) -> (r: Result<i32, AppError>)
        ensures
            auth.token_secret is None ==> r == Err::<i32, AppError>(AppError::Internal(Fault::MissingTokenSecret)),
            auth.token_secret is Some ==> r == match token_result(secret_bytes(auth.token_secret), token@, now as int) {
                Ok(c) => Ok::<i32, AppError>(c.user_id),
                Err(_) => Err(AppError::auth(AuthErrorCode::InvalidCredentials)),
            },
    {
        match auth.verify_token_at(token, now) {
            Ok(c) => Ok(c.user_id),
            Err(AppError::Internal(f)) => Err(AppError::Internal(f)),
            Err(_) => Err(AppError::Auth { code: AuthErrorCode::InvalidCredentials, user_id: None }),
        }
    }
}

/// The HTML body of a verification email.
pub fn verification_link(port: &str, token: &str) -> (r: String)
    ensures
        r@ == verification_body(port@, token@),
{
    let mut body = String::from_str("<a href=\"http://localhost:");
    body.append(port);
    body.append("/verify/");
    body.append(token);
    body.append("\">Click here to verify your email</a>");
    body
}

} // verus!
