//! The service's error type.

use vstd::prelude::*;
use crate::text::from_literal;

verus! {

/// Everything that can go wrong in the service. Errors of outside crates and of the
/// operating system are carried as their message text.
#[derive(Debug)]
pub enum TksError {
    ParameterError,
    NotFound(Option<String>),
    CryptoError,
    IOError(String),
    SerializationError(String),
    PermissionDenied,
    Duplicate,
    LockingError,
    ConfigurationError(String),
    InternalError(String),
    BackendError(String),
    NoPinentryBinaryFound,
    PinentryError(String),
    ItemNotFound,
    DBusError(String),
    ContextError(String),
    GetHomeError(String),
    NotSupported(String),
}

/// `r` failed with a serialization error carrying `msg`.
pub open spec fn is_serialization_error<T>(r: Result<T, TksError>, msg: Seq<char>) -> bool {
    r matches Err(TksError::SerializationError(m)) && m@ == msg
}

impl TksError {
    /// The text shown to users for this error.
    pub open spec fn description(&self) -> Seq<char> {
        match self {
            TksError::ParameterError => "Parameter error"@,
            TksError::CryptoError => "Crypto error"@,
            TksError::IOError(e) => "IO error: "@ + e@,
            TksError::NotFound(_) => "Not found"@,
            TksError::SerializationError(s) => "Serialization error: "@ + s@,
            TksError::PermissionDenied => "Access denied"@,
            TksError::Duplicate => "Duplicate element"@,
            TksError::LockingError => "Locking error"@,
            TksError::ConfigurationError(x) => "Configuration error: "@ + x@,
            TksError::InternalError(x) => "Internal error: "@ + x@,
            TksError::BackendError(x) => "Backend error: "@ + x@,
            TksError::NoPinentryBinaryFound => "No pinentry binary found, please install it."@,
            TksError::PinentryError(e) => "Pinentry returned error "@ + e@,
            TksError::ItemNotFound =>
                "Item not found upon unlocking collection. Maybe data is corrupted?"@,
            TksError::DBusError(x) => "DBusError: "@ + x@,
            TksError::ContextError(x) => "ContextError: "@ + x@,
            TksError::GetHomeError(x) => "GetHomeError: "@ + x@,
            TksError::NotSupported(x) => "Not supported: "@ + x@,
        }
    }

    /// The text shown to users for this error, as the service's `Display` renders it.
    pub fn to_string(&self) -> (r: String)
        ensures
            r@ == self.description(),
    {
        match self {
            TksError::ParameterError => from_literal("Parameter error"),
            TksError::CryptoError => from_literal("Crypto error"),
            TksError::IOError(e) => from_literal("IO error: ").concat(e.as_str()),
            TksError::NotFound(_) => from_literal("Not found"),
            TksError::SerializationError(s) => from_literal("Serialization error: ").concat(s.as_str()),
            TksError::PermissionDenied => from_literal("Access denied"),
            TksError::Duplicate => from_literal("Duplicate element"),
            TksError::LockingError => from_literal("Locking error"),
            TksError::ConfigurationError(x) => from_literal("Configuration error: ").concat(x.as_str()),
            TksError::InternalError(x) => from_literal("Internal error: ").concat(x.as_str()),
            TksError::BackendError(x) => from_literal("Backend error: ").concat(x.as_str()),
            TksError::NoPinentryBinaryFound => from_literal("No pinentry binary found, please install it."),
            TksError::PinentryError(e) => from_literal("Pinentry returned error ").concat(e.as_str()),
            TksError::ItemNotFound => from_literal(
                "Item not found upon unlocking collection. Maybe data is corrupted?",
            ),
            TksError::DBusError(x) => from_literal("DBusError: ").concat(x.as_str()),
            TksError::ContextError(x) => from_literal("ContextError: ").concat(x.as_str()),
            TksError::GetHomeError(x) => from_literal("GetHomeError: ").concat(x.as_str()),
            TksError::NotSupported(x) => from_literal("Not supported: ").concat(x.as_str()),
        }
    }

    /// An error of the `openssl` crate is reported as a crypto error.
    pub fn from_openssl(_e: openssl::error::ErrorStack) -> (r: TksError)
        ensures
            r == TksError::CryptoError,
    {
        TksError::CryptoError
    }
}

} // verus!
