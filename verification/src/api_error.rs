//! Errors that the management interface reports, and the response status each one maps to.
use std::collections::HashMap;
use vstd::prelude::*;
use vstd::string::StringExecFns;

verus! {

/// Why the body of a request could not be taken as JSON.
#[derive(Debug, Clone)]
pub enum JsonValidationError {
    /// The body could not be read; the text says why.
    Io(String),
    /// The body is no valid JSON: what is wrong, and the line and the column where.
    Parse(String, usize, usize),
}

/// Why a request was not authorized.
#[derive(Debug, Clone)]
pub enum AuthorizationError {
    /// The given API key is wrong.
    KeyInvalid,
    /// No API key was given.
    KeyMissing,
    /// The given certificate grants too little.
    CertificateInvalid,
    /// No certificate was given.
    CertificateMissing,
    /// The configuration names an authorization method that does not exist.
    InvalidAuthMethod(String),
    /// The stored credentials could not be read; the text says why.
    InternalSerialError(String),
    /// The certificate could not be parsed; the text says why.
    ParseError(String),
}

/// Errors, that might occur during request processing
#[derive(Debug, Clone)]
pub enum ApiError {
    /// The given body does not contain a valid JSON String
    BadJsonError {
        /// Error message of the JSON parser
        message: String,
    },
    /// The given JSON cannot be parsed correctly because of incorrect fields
    ParseJsonError {
        /// Error message of the JSON parser
        message: String,
        /// The line position of the error
        line: usize,
        /// The column position of the error
        column: usize,
    },
    /// A requested resource was not found
    ResourceNotFound {
        /// Error message
        message: String,
        /// ID of the requested resource
        id: String,
    },
    /// Cannot create a resource, that already exists
    ResourceExists {
        /// Error message
        message: String,
        /// ID of the existing resource
        id: String,
    },
    /// Cannot parse the query parameters
    ParseQueryError {
        /// Error message
        message: String,
        /// The erroneous parameter with a description of the error
        field_errors: HashMap<String, String>,
    },
    /// A resource is in a different state, that is needed for the requested action
    BadResourceState {
        /// Error message
        message: String,
        /// Expected state to perform the action
        expected: Vec<String>,
        /// Current state of the resource
        got: String,
    },
    /// The requested action is not implemented
    ActionNotSupported {
        /// Error message
        message: String,
        /// Available actions
        available: Vec<String>,
        /// Requested action
        got: String,
    },
    /// Unable to read data in request body. E.g. the given JSON is too large
    IOError {
        /// Error message
        message: String,
    },
    /// Something unexpected happened, this is a server internal error
    Unexpected {
        /// Error message
        message: String,
    },
    /// The given API key is invalid
    InvalidApiKey {
        /// Error message
        message: String,
    },
    /// No API key was given
    MissingApiKey {
        /// Error message
        message: String,
    },
    /// The given certificate grants too little
    InvalidCertificate {
        /// Error message
        message: String,
    },
    /// No certificate was given
    MissingCertificate {
        /// Error message
        message: String,
    },
    /// The given certificate could not be parsed
    CertParseError {
        /// Error message
        message: String,
    },
}

/// The variant of an [`ApiError`], without what it carries.
#[derive(Clone, Copy, Debug, PartialEq, Eq, Structural)]
pub enum ApiErrorKind {
    /// See [`ApiError::BadJsonError`].
    BadJsonError,
    /// See [`ApiError::ParseJsonError`].
    ParseJsonError,
    /// See [`ApiError::ResourceNotFound`].
    ResourceNotFound,
    /// See [`ApiError::ResourceExists`].
    ResourceExists,
    /// See [`ApiError::ParseQueryError`].
    ParseQueryError,
    /// See [`ApiError::BadResourceState`].
    BadResourceState,
    /// See [`ApiError::ActionNotSupported`].
    ActionNotSupported,
    /// See [`ApiError::IOError`].
    IOError,
    /// See [`ApiError::Unexpected`].
    Unexpected,
    /// See [`ApiError::InvalidApiKey`].
    InvalidApiKey,
    /// See [`ApiError::MissingApiKey`].
    MissingApiKey,
    /// See [`ApiError::InvalidCertificate`].
    InvalidCertificate,
    /// See [`ApiError::MissingCertificate`].
    MissingCertificate,
    /// See [`ApiError::CertParseError`].
    CertParseError,
}

impl ApiErrorKind {
    /// The status of the response that reports an error of this kind.
    pub open spec fn spec_status(self) -> u16 {
        match self {
            ApiErrorKind::ResourceNotFound => 404,
            ApiErrorKind::ResourceExists
            | ApiErrorKind::ParseQueryError
            | ApiErrorKind::BadJsonError
            | ApiErrorKind::ParseJsonError => 400,
            ApiErrorKind::BadResourceState => 406,
            ApiErrorKind::ActionNotSupported => 501,
            ApiErrorKind::IOError => 422,
            ApiErrorKind::Unexpected => 500,
            ApiErrorKind::InvalidApiKey
            | ApiErrorKind::MissingApiKey
            | ApiErrorKind::InvalidCertificate
            | ApiErrorKind::MissingCertificate
            | ApiErrorKind::CertParseError => 401,
        }
    }

    /// The status of the response that reports an error of this kind.
    #[verifier::when_used_as_spec(spec_status)]
    pub fn status(self) -> (r: u16)
        ensures
            r == self.spec_status(),
    {
        match self {
            ApiErrorKind::ResourceNotFound => 404,
            ApiErrorKind::ResourceExists
            | ApiErrorKind::ParseQueryError
            | ApiErrorKind::BadJsonError
            | ApiErrorKind::ParseJsonError => 400,
            ApiErrorKind::BadResourceState => 406,
            ApiErrorKind::ActionNotSupported => 501,
            ApiErrorKind::IOError => 422,
            ApiErrorKind::Unexpected => 500,
            ApiErrorKind::InvalidApiKey
            | ApiErrorKind::MissingApiKey
            | ApiErrorKind::InvalidCertificate
            | ApiErrorKind::MissingCertificate
            | ApiErrorKind::CertParseError => 401,
        }
    }
}

impl ApiError {
    /// The variant of the error.
    pub open spec fn spec_kind(&self) -> ApiErrorKind {
        match self {
            ApiError::BadJsonError { .. } => ApiErrorKind::BadJsonError,
            ApiError::ParseJsonError { .. } => ApiErrorKind::ParseJsonError,
            ApiError::ResourceNotFound { .. } => ApiErrorKind::ResourceNotFound,
            ApiError::ResourceExists { .. } => ApiErrorKind::ResourceExists,
            ApiError::ParseQueryError { .. } => ApiErrorKind::ParseQueryError,
            ApiError::BadResourceState { .. } => ApiErrorKind::BadResourceState,
            ApiError::ActionNotSupported { .. } => ApiErrorKind::ActionNotSupported,
            ApiError::IOError { .. } => ApiErrorKind::IOError,
            ApiError::Unexpected { .. } => ApiErrorKind::Unexpected,
            ApiError::InvalidApiKey { .. } => ApiErrorKind::InvalidApiKey,
            ApiError::MissingApiKey { .. } => ApiErrorKind::MissingApiKey,
            ApiError::InvalidCertificate { .. } => ApiErrorKind::InvalidCertificate,
            ApiError::MissingCertificate { .. } => ApiErrorKind::MissingCertificate,
            ApiError::CertParseError { .. } => ApiErrorKind::CertParseError,
        }
    }

    /// The variant of the error.
    #[verifier::when_used_as_spec(spec_kind)]
    pub fn kind(&self) -> (r: ApiErrorKind)
        ensures
            r == self.spec_kind(),
    {
        match self {
            ApiError::BadJsonError { .. } => ApiErrorKind::BadJsonError,
            ApiError::ParseJsonError { .. } => ApiErrorKind::ParseJsonError,
            ApiError::ResourceNotFound { .. } => ApiErrorKind::ResourceNotFound,
            ApiError::ResourceExists { .. } => ApiErrorKind::ResourceExists,
            ApiError::ParseQueryError { .. } => ApiErrorKind::ParseQueryError,
            ApiError::BadResourceState { .. } => ApiErrorKind::BadResourceState,
            ApiError::ActionNotSupported { .. } => ApiErrorKind::ActionNotSupported,
            ApiError::IOError { .. } => ApiErrorKind::IOError,
            ApiError::Unexpected { .. } => ApiErrorKind::Unexpected,
            ApiError::InvalidApiKey { .. } => ApiErrorKind::InvalidApiKey,
            ApiError::MissingApiKey { .. } => ApiErrorKind::MissingApiKey,
            ApiError::InvalidCertificate { .. } => ApiErrorKind::InvalidCertificate,
            ApiError::MissingCertificate { .. } => ApiErrorKind::MissingCertificate,
            ApiError::CertParseError { .. } => ApiErrorKind::CertParseError,
        }
    }

    /// The text of the message that the error carries.
    pub open spec fn message_text(&self) -> Seq<char> {
        match self {
            ApiError::BadJsonError { message } => message@,
            ApiError::ParseJsonError { message, .. } => message@,
            ApiError::ResourceNotFound { message, .. } => message@,
            ApiError::ResourceExists { message, .. } => message@,
            ApiError::ParseQueryError { message, .. } => message@,
            ApiError::BadResourceState { message, .. } => message@,
            ApiError::ActionNotSupported { message, .. } => message@,
            ApiError::IOError { message } => message@,
            ApiError::Unexpected { message } => message@,
            ApiError::InvalidApiKey { message } => message@,
            ApiError::MissingApiKey { message } => message@,
            ApiError::InvalidCertificate { message } => message@,
            ApiError::MissingCertificate { message } => message@,
            ApiError::CertParseError { message } => message@,
        }
    }

    /// The message that the error carries.
    pub fn message(&self) -> (r: &String)
        ensures
            r@ == self.message_text(),
    {
        match self {
            ApiError::BadJsonError { message } => message,
            ApiError::ParseJsonError { message, .. } => message,
            ApiError::ResourceNotFound { message, .. } => message,
            ApiError::ResourceExists { message, .. } => message,
            ApiError::ParseQueryError { message, .. } => message,
            ApiError::BadResourceState { message, .. } => message,
            ApiError::ActionNotSupported { message, .. } => message,
            ApiError::IOError { message } => message,
            ApiError::Unexpected { message } => message,
            ApiError::InvalidApiKey { message } => message,
            ApiError::MissingApiKey { message } => message,
            ApiError::InvalidCertificate { message } => message,
            ApiError::MissingCertificate { message } => message,
            ApiError::CertParseError { message } => message,
        }
    }

    /// What the error prints as: its message.
    pub fn to_string(&self) -> (r: String)
        ensures
            r@ == self.message_text(),
    {
        self.message().clone()
    }

    /// The status of the response that reports the error: 404 for a resource that was not
    /// found, 400 for a request that is wrong, 406 for a resource in the wrong state, 501 for
    /// an action that does not exist, 422 for a body that cannot be read, 401 for a missing or
    /// wrong credential, and 500 for anything else.
    pub fn status(&self) -> (r: u16)
        ensures
            r == self.spec_kind().spec_status(),
    {
        self.kind().status()
    }
}

impl ApiError {
    /// The line and the column that the error points at, where it carries them.
    pub open spec fn position(&self) -> Option<(usize, usize)> {
        match self {
            ApiError::ParseJsonError { line, column, .. } => Some((*line, *column)),
            _ => None,
        }
    }
}

impl JsonValidationError {
    /// The variant of the error that reports this one.
    pub open spec fn kind(&self) -> ApiErrorKind {
        match self {
            JsonValidationError::Io(_) => ApiErrorKind::IOError,
            JsonValidationError::Parse(_, _, _) => ApiErrorKind::ParseJsonError,
        }
    }

    /// The message of the error that reports this one.
    pub open spec fn message_text(&self) -> Seq<char> {
        match self {
            JsonValidationError::Io(message) => message@,
            JsonValidationError::Parse(message, _, _) => message@,
        }
    }

    /// The line and the column of the error that reports this one.
    pub open spec fn position(&self) -> Option<(usize, usize)> {
        match self {
            JsonValidationError::Io(_) => None,
            JsonValidationError::Parse(_, line, column) => Some((*line, *column)),
        }
    }
}

impl AuthorizationError {
    /// The variant of the error that reports this one.
    pub open spec fn kind(&self) -> ApiErrorKind {
        match self {
            AuthorizationError::KeyInvalid => ApiErrorKind::InvalidApiKey,
            AuthorizationError::KeyMissing => ApiErrorKind::MissingApiKey,
            AuthorizationError::CertificateInvalid => ApiErrorKind::InvalidCertificate,
            AuthorizationError::CertificateMissing => ApiErrorKind::MissingCertificate,
            AuthorizationError::InvalidAuthMethod(_) => ApiErrorKind::Unexpected,
            AuthorizationError::InternalSerialError(_) => ApiErrorKind::Unexpected,
            AuthorizationError::ParseError(_) => ApiErrorKind::CertParseError,
        }
    }

    /// The message of the error that reports this one.
    pub open spec fn message_text(&self) -> Seq<char> {
        match self {
            AuthorizationError::KeyInvalid => "The given API key is invalid"@,
            AuthorizationError::KeyMissing => "No API key was given"@,
            AuthorizationError::CertificateInvalid | AuthorizationError::CertificateMissing => {
                "The given Certificate has insufficient permission"@
            },
            AuthorizationError::InvalidAuthMethod(method) => {
                "An invalid auth method was provided in the webserver config ("@ + method@
                    + ")"@
            },
            AuthorizationError::InternalSerialError(message) => message@,
            AuthorizationError::ParseError(message) => message@,
        }
    }
}

impl<'a> From<&'a JsonValidationError> for ApiError {
    /// The error that reports a body that is no JSON: an input error keeps its message, a
    /// parse error its message, line and column.
    fn from(value: &'a JsonValidationError) -> (r: Self)
        ensures
            r.spec_kind() == value.kind(),
            r.message_text() == value.message_text(),
            r.position() == value.position(),
    {
        match value {
            JsonValidationError::Io(message) => ApiError::IOError { message: message.clone() },
            JsonValidationError::Parse(message, line, column) => ApiError::ParseJsonError {
                message: message.clone(),
                line: *line,
                column: *column,
            },
        }
    }
}

/// The conversion is stated by the contract of `from`: a text cannot be made in a
/// specification, so no function of specifications gives the error itself.
impl<'a> vstd::std_specs::convert::FromSpecImpl<&'a JsonValidationError> for ApiError {
    open spec fn obeys_from_spec() -> bool {
        false
    }

    open spec fn from_spec(value: &'a JsonValidationError) -> Self {
        arbitrary()
    }
}

impl From<AuthorizationError> for ApiError {
    /// The error that reports a request that was not authorized, with the message that
    /// belongs to the reason.
    fn from(value: AuthorizationError) -> (r: Self)
        ensures
            r.spec_kind() == value.kind(),
            r.message_text() == value.message_text(),
            r.position() is None,
    {
        match value {
            AuthorizationError::KeyInvalid => ApiError::InvalidApiKey {
                message: "The given API key is invalid".to_owned(),
            },
            AuthorizationError::KeyMissing => ApiError::MissingApiKey {
                message: "No API key was given".to_owned(),
            },
            AuthorizationError::CertificateInvalid => ApiError::InvalidCertificate {
                message: "The given Certificate has insufficient permission".to_owned(),
            },
            AuthorizationError::CertificateMissing => ApiError::MissingCertificate {
                message: "The given Certificate has insufficient permission".to_owned(),
            },
            AuthorizationError::InvalidAuthMethod(method) => {
                let start = "An invalid auth method was provided in the webserver config (";
                let message = start.to_owned().concat(method.as_str()).concat(")");
                ApiError::Unexpected { message }
            },
            AuthorizationError::InternalSerialError(message) => ApiError::Unexpected { message },
            AuthorizationError::ParseError(message) => ApiError::CertParseError { message },
        }
    }
}

/// The conversion is stated by the contract of `from`: a text cannot be made in a
/// specification, so no function of specifications gives the error itself.
impl vstd::std_specs::convert::FromSpecImpl<AuthorizationError> for ApiError {
    open spec fn obeys_from_spec() -> bool {
        false
    }

    open spec fn from_spec(value: AuthorizationError) -> Self {
        arbitrary()
    }
}

} // verus!
