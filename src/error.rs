//! Error kinds of the library and of the services around it.

use vstd::prelude::*;

verus! {

/// Failure of a data access.
#[derive(Debug, Clone, Copy, PartialEq, Eq, Structural)]
pub enum DataAccessError {
    NotFound,
    InternalError,
}

/// Failure while starting the service.
#[derive(Debug, Clone, Copy, PartialEq, Eq, Structural)]
pub enum BootError {
    DBSetupError,
    KVDBSetupError,
    CronJobSetupError,
}

/// Failure of indexing or searching: a single opaque kind.
#[derive(Debug, Clone, Copy, PartialEq, Eq, Structural)]
pub enum SearchError {
    InternalError,
}

/// Failure while sending an email.
#[derive(Debug, Clone, Copy, PartialEq, Eq, Structural)]
pub enum EmailError {
    InternalError,
}

/// Failure of a security check.
#[derive(Debug, Clone, Copy, PartialEq, Eq, Structural)]
pub enum SecurityError {
    RateLimitError,
    InternalError,
}

/// Failure of the tag suggestion service.
#[derive(Debug, Clone, Copy, PartialEq, Eq, Structural)]
pub enum AIError {
    InternalError,
}

/// Failure of authentication.
#[derive(Debug, Clone, Copy, PartialEq, Eq, Structural)]
pub enum AuthError {
    InvalidToken,
    InternalError,
}

/// Failure while importing outside content.
#[derive(Debug, Clone, Copy, PartialEq, Eq, Structural)]
pub enum ImportError {
    InvalidUrl,
    InternalError,
}

} // verus!
