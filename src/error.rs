//! The error taxonomy shared by every operation of the library.

use vstd::prelude::*;

verus! {

/// Why an authentication or authorization check failed.
#[derive(Debug, Clone, Copy, PartialEq, Eq, Structural)]
pub enum AuthErrorCode {
    InvalidCredentials,
    TokenExpired,
    InsufficientPermissions,
}

impl AuthErrorCode {
    /// The machine-readable code that clients receive.
    pub open spec fn spec_code(self) -> Seq<char> {
        match self {
            AuthErrorCode::InvalidCredentials => "INVALID_CREDENTIALS"@,
            AuthErrorCode::TokenExpired => "TOKEN_EXPIRED"@,
            AuthErrorCode::InsufficientPermissions => "INSUFFICIENT_PERMISSIONS"@,
        }
    }

    pub fn code(&self) -> (r: String)
        ensures
            r@ == self.spec_code(),
    {
        match self {
            AuthErrorCode::InvalidCredentials => String::from_str("INVALID_CREDENTIALS"),
            AuthErrorCode::TokenExpired => String::from_str("TOKEN_EXPIRED"),
            AuthErrorCode::InsufficientPermissions => String::from_str("INSUFFICIENT_PERMISSIONS"),
        }
    }
}

/// The kind of record that a lookup did not find.
#[derive(Debug, Clone, Copy, PartialEq, Eq, Structural)]
pub enum Resource {
    User,
    Customer,
    Supplier,
    Product,
    Discount,
    Order,
    Address,
    AddressType,
    Review,
    Cart,
    CartItem,
}

/// What made an input malformed.
#[derive(Debug, Clone, Copy, PartialEq, Eq, Structural)]
pub enum Invalid {
    WeakPassword,
    MalformedEmail,
    UnknownRole,
    UserAlreadyExists,
    UnknownPaymentType,
    MissingCardNumber,
    MissingCardExpiration,
    MissingUpiId,
    MissingIban,
    MissingBankName,
    MissingAccountHolder,
    MissingBankAccountNumber,
    MissingIfscCode,
    NonPositiveQuantity,
    AmountOutOfRange,
    UnknownOrderStatus,
    AmbiguousProductFilter,
    PageOutOfRange,
    DefaultAddressDeletion,
    ProductNotOrdered,
    MalformedPrice,
}

/// What went wrong in the configuration or the machinery around the core.
#[derive(Debug, Clone, Copy, PartialEq, Eq, Structural)]
pub enum Fault {
    MissingPasswordSecret,
    MissingTokenSecret,
    PasswordHashing,
    MalformedPasswordHash,
    TokenSigning,
    TimeOutOfRange,
}

/// Every failure of an operation of this library.
#[derive(Debug, Clone, Copy, PartialEq, Eq, Structural)]
pub enum AppError {
    /// Token missing or unverifiable, token expired, or the wrong role;
    /// `user_id` names the token's subject where it is known.
    Auth { code: AuthErrorCode, user_id: Option<i32> },
    /// The caller does not own the record it acts on.
    Unauthorized,
    NotFound(Resource),
    /// A line item asks for more units of the product than are in stock.
    InsufficientStock { product_id: i32 },
    ValidationError(Invalid),
    /// The record is not in a state that allows the operation.
    InvalidState,
    Internal(Fault),
}

impl AppError {
    pub open spec fn auth(code: AuthErrorCode) -> AppError {
        AppError::Auth { code, user_id: None }
    }

    /// The machine-readable code of an error payload.
    pub open spec fn spec_code(self) -> Seq<char> {
        match self {
            AppError::Auth { code, .. } => code.spec_code(),
            AppError::Unauthorized => "UNAUTHORIZED"@,
            AppError::NotFound(_) => "NOT_FOUND"@,
            AppError::InsufficientStock { .. } => "INSUFFICIENT_STOCK"@,
            AppError::ValidationError(_) => "VALIDATION_ERROR"@,
            AppError::InvalidState => "INVALID_STATE"@,
            AppError::Internal(_) => "INTERNAL_ERROR"@,
        }
    }

    pub fn code(&self) -> (r: String)
        ensures
            r@ == self.spec_code(),
    {
        match self {
            AppError::Auth { code, .. } => code.code(),
            AppError::Unauthorized => String::from_str("UNAUTHORIZED"),
            AppError::NotFound(_) => String::from_str("NOT_FOUND"),
            AppError::InsufficientStock { .. } => String::from_str("INSUFFICIENT_STOCK"),
            AppError::ValidationError(_) => String::from_str("VALIDATION_ERROR"),
            AppError::InvalidState => String::from_str("INVALID_STATE"),
            AppError::Internal(_) => String::from_str("INTERNAL_ERROR"),
        }
    }

    /// The subject that an authorization refusal names, for audit.
    pub fn user_id(&self) -> (r: Option<i32>)
        ensures
            r == match self {
                AppError::Auth { user_id, .. } => *user_id,
                _ => None,
            },
    {
        match self {
            AppError::Auth { user_id, .. } => *user_id,
            _ => None,
        }
    }
}

} // verus!
