//! The error taxonomy of the service and its caller-facing rendering.

use vstd::prelude::*;
use vstd::string::*;

verus! {

/// Everything an operation of this crate can fail with.
///
/// `Database` and `Redis` carry the rendered failure of the durable store and
/// of the cache; the other variants are raised by the service itself.
#[derive(Debug)]
pub enum AppError {
    Database(String),
    Redis(String),
    NotFound(String),
    InvalidUrl(String),
    AlreadyExists(String),
    Internal(String),
    Validation(String),
}

/// What a caller is shown for a failure.
#[derive(Debug)]
pub struct ErrorResponse {
    pub error: String,
    pub message: String,
    pub code: u16,
}

/// The category an error belongs to, as a caller sees it.
#[derive(Debug, Clone, Copy, PartialEq, Eq, Structural)]
pub enum ErrorKind {
    Database,
    Redis,
    NotFound,
    InvalidUrl,
    AlreadyExists,
    Internal,
    Validation,
}

/// The status code a caller receives for each category.
pub open spec fn status_of(kind: ErrorKind) -> u16 {
    match kind {
        ErrorKind::NotFound => 404,
        ErrorKind::InvalidUrl => 400,
        ErrorKind::AlreadyExists => 409,
        ErrorKind::Validation => 400,
        ErrorKind::Database => 500,
        ErrorKind::Redis => 500,
        ErrorKind::Internal => 500,
    }
}

/// The text that introduces the detail of an error of each category.
pub open spec fn prefix_of(kind: ErrorKind) -> Seq<char> {
    match kind {
        ErrorKind::Database => "Database error: "@,
        ErrorKind::Redis => "Redis error: "@,
        ErrorKind::NotFound => "URL not found: "@,
        ErrorKind::InvalidUrl => "Invalid URL: "@,
        ErrorKind::AlreadyExists => "URL already exists: "@,
        ErrorKind::Internal => "Internal server error: "@,
        ErrorKind::Validation => "Validation error: "@,
    }
}

/// The short summary shown beside the rendered error.
pub open spec fn summary_of(kind: ErrorKind) -> Seq<char> {
    match kind {
        ErrorKind::NotFound => "Resource not found"@,
        ErrorKind::InvalidUrl => "Invalid URL provided"@,
        ErrorKind::AlreadyExists => "Resource already exists"@,
        ErrorKind::Validation => "Validation failed"@,
        ErrorKind::Database => "Internal server error"@,
        ErrorKind::Redis => "Internal server error"@,
        ErrorKind::Internal => "Internal server error"@,
    }
}

impl ErrorResponse {
    /// What a caller is shown who asked to delete a short code that has no
    /// record.
    pub fn short_code_not_found() -> (response: ErrorResponse)
        ensures
            response.error@ == "Short code not found"@,
            response.message@ == "The specified short code does not exist"@,
            response.code == 404,
    {
        ErrorResponse {
            error: "Short code not found".to_owned(),
            message: "The specified short code does not exist".to_owned(),
            code: 404,
        }
    }
}

impl AppError {
    /// The category of this error.
    pub open spec fn kind_spec(&self) -> ErrorKind {
        match self {
            AppError::Database(_) => ErrorKind::Database,
            AppError::Redis(_) => ErrorKind::Redis,
            AppError::NotFound(_) => ErrorKind::NotFound,
            AppError::InvalidUrl(_) => ErrorKind::InvalidUrl,
            AppError::AlreadyExists(_) => ErrorKind::AlreadyExists,
            AppError::Internal(_) => ErrorKind::Internal,
            AppError::Validation(_) => ErrorKind::Validation,
        }
    }

    /// The detail this error carries.
    pub open spec fn detail(&self) -> Seq<char> {
        match self {
            AppError::Database(m) => m@,
            AppError::Redis(m) => m@,
            AppError::NotFound(m) => m@,
            AppError::InvalidUrl(m) => m@,
            AppError::AlreadyExists(m) => m@,
            AppError::Internal(m) => m@,
            AppError::Validation(m) => m@,
        }
    }

    /// The rendered error: the category's prefix followed by the detail.
    pub open spec fn rendered(&self) -> Seq<char> {
        prefix_of(self.kind_spec()) + self.detail()
    }

    #[verifier::when_used_as_spec(kind_spec)]
    pub fn kind(&self) -> (k: ErrorKind)
        ensures
            k == self.kind_spec(),
    {
        match self {
            AppError::Database(_) => ErrorKind::Database,
            AppError::Redis(_) => ErrorKind::Redis,
            AppError::NotFound(_) => ErrorKind::NotFound,
            AppError::InvalidUrl(_) => ErrorKind::InvalidUrl,
            AppError::AlreadyExists(_) => ErrorKind::AlreadyExists,
            AppError::Internal(_) => ErrorKind::Internal,
            AppError::Validation(_) => ErrorKind::Validation,
        }
    }

    /// Renders the error as one line of text.
    pub fn to_string(&self) -> (text: String)
        ensures
            text@ == self.rendered(),
    {
        let (prefix, detail): (&str, &String) = match self {
            AppError::Database(m) => ("Database error: ", m),
            AppError::Redis(m) => ("Redis error: ", m),
            AppError::NotFound(m) => ("URL not found: ", m),
            AppError::InvalidUrl(m) => ("Invalid URL: ", m),
            AppError::AlreadyExists(m) => ("URL already exists: ", m),
            AppError::Internal(m) => ("Internal server error: ", m),
            AppError::Validation(m) => ("Validation error: ", m),
        };
        let mut text = prefix.to_owned();
        text.append(detail.as_str());
        text
    }

    /// The status code a caller receives for this error.
    pub fn status_code(&self) -> (code: u16)
        ensures
            code == status_of(self.kind_spec()),
    {
        match self {
            AppError::NotFound(_) => 404,
            AppError::InvalidUrl(_) => 400,
            AppError::AlreadyExists(_) => 409,
            AppError::Validation(_) => 400,
            _ => 500,
        }
    }

    /// The body a caller receives for this error.
    pub fn error_response(&self) -> (response: ErrorResponse)
        ensures
            response.error@ == self.rendered(),
            response.message@ == summary_of(self.kind_spec()),
            response.code == status_of(self.kind_spec()),
    {
        let message = match self {
            AppError::NotFound(_) => "Resource not found".to_owned(),
            AppError::InvalidUrl(_) => "Invalid URL provided".to_owned(),
            AppError::AlreadyExists(_) => "Resource already exists".to_owned(),
            AppError::Validation(_) => "Validation failed".to_owned(),
            _ => "Internal server error".to_owned(),
        };
        ErrorResponse { error: self.to_string(), message, code: self.status_code() }
    }
}

} // verus!
