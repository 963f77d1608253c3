//! Application error kinds and their HTTP status mapping.

use vstd::prelude::*;

verus! {

/// Every failure the service reports, one variant per kind.
#[derive(Debug, Clone, PartialEq)]
pub enum AppError {
    UsernameTaken,
    EmailTaken,
    InvalidCredentials,
    InvalidToken,
    Unauthorized,
    Forbidden,
    OwnerOnly,
    AdminOnly,
    UserNotFound,
    ServerNotFound,
    ChannelNotFound,
    MessageNotFound,
    InvalidInvitationCode,
    AlreadyMember,
    OwnerCannotLeave,
    ValidationError(String),
    DatabaseError(String),
    InternalServerError,
}

impl AppError {
    /// The HTTP status code each error kind maps to.
    pub open spec fn spec_status(self) -> int {
        match self {
            AppError::UsernameTaken => 409,
            AppError::EmailTaken => 409,
            AppError::AlreadyMember => 409,
            AppError::InvalidCredentials => 401,
            AppError::InvalidToken => 401,
            AppError::Unauthorized => 401,
            AppError::Forbidden => 403,
            AppError::OwnerOnly => 403,
            AppError::AdminOnly => 403,
            AppError::UserNotFound => 404,
            AppError::ServerNotFound => 404,
            AppError::ChannelNotFound => 404,
            AppError::MessageNotFound => 404,
            AppError::InvalidInvitationCode => 404,
            AppError::ValidationError(_) => 400,
            AppError::OwnerCannotLeave => 400,
            AppError::DatabaseError(_) => 500,
            AppError::InternalServerError => 500,
        }
    }

    /// HTTP status code of this error.
    pub fn status_code(&self) -> (code: u16)
        ensures
            code as int == self.spec_status(),
    {
        match self {
            AppError::UsernameTaken => 409,
            AppError::EmailTaken => 409,
            AppError::AlreadyMember => 409,
            AppError::InvalidCredentials => 401,
            AppError::InvalidToken => 401,
            AppError::Unauthorized => 401,
            AppError::Forbidden => 403,
            AppError::OwnerOnly => 403,
            AppError::AdminOnly => 403,
            AppError::UserNotFound => 404,
            AppError::ServerNotFound => 404,
            AppError::ChannelNotFound => 404,
            AppError::MessageNotFound => 404,
            AppError::InvalidInvitationCode => 404,
            AppError::ValidationError(_) => 400,
            AppError::OwnerCannotLeave => 400,
            AppError::DatabaseError(_) => 500,
            AppError::InternalServerError => 500,
        }
    }
}

} // verus!
