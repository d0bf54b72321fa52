use vstd::prelude::*;

verus! {

#[verifier::external_type_specification]
#[verifier::external_body]
pub struct ExIoError(std::io::Error);

#[verifier::external_type_specification]
#[verifier::external_body]
pub struct ExErrorStack(openssl::error::ErrorStack);

#[verifier::external_type_specification]
#[verifier::external_body]
pub struct ExTomlError(toml::de::Error);

#[verifier::external_type_specification]
#[verifier::external_body]
pub struct ExSetGlobalDefaultError(tracing::subscriber::SetGlobalDefaultError);

#[verifier::external_type_specification]
#[verifier::external_body]
pub struct ExPingoraError(pingora_error::Error);

/// The error that caused a [`ServerError`], kept as it was raised.
#[derive(Debug)]
pub enum ErrorCause {
    Io(std::io::Error),
    OpenSsl(openssl::error::ErrorStack),
    Toml(toml::de::Error),
    Tracing(tracing::subscriber::SetGlobalDefaultError),
    Pingora(Box<pingora_error::Error>),
}

/// Errors of the proxy: a failure while running, or a bad configuration.
#[derive(Debug)]
pub enum ServerError {
    RunTime(ErrorCause),
    Config(ErrorCause),
}

pub type ServerResult<T> = Result<T, ServerError>;

/// A failure of the proxy framework is a run-time error.
impl From<Box<pingora_error::Error>> for ServerError {
    fn from(value: Box<pingora_error::Error>) -> (r: Self) {
        ServerError::RunTime(ErrorCause::Pingora(value))
    }
}

impl vstd::std_specs::convert::FromSpecImpl<Box<pingora_error::Error>> for ServerError {
    open spec fn obeys_from_spec() -> bool {
        true
    }

    open spec fn from_spec(v: Box<pingora_error::Error>) -> Self {
        ServerError::RunTime(ErrorCause::Pingora(v))
    }
}

/// An I/O failure is a run-time error.
impl From<std::io::Error> for ServerError {
    fn from(value: std::io::Error) -> (r: Self) {
        ServerError::RunTime(ErrorCause::Io(value))
    }
}

impl vstd::std_specs::convert::FromSpecImpl<std::io::Error> for ServerError {
    open spec fn obeys_from_spec() -> bool {
        true
    }

    open spec fn from_spec(v: std::io::Error) -> Self {
        ServerError::RunTime(ErrorCause::Io(v))
    }
}

/// An OpenSSL failure is a run-time error.
impl From<openssl::error::ErrorStack> for ServerError {
    fn from(value: openssl::error::ErrorStack) -> (r: Self) {
        ServerError::RunTime(ErrorCause::OpenSsl(value))
    }
}

impl vstd::std_specs::convert::FromSpecImpl<openssl::error::ErrorStack> for ServerError {
    open spec fn obeys_from_spec() -> bool {
        true
    }

    open spec fn from_spec(v: openssl::error::ErrorStack) -> Self {
        ServerError::RunTime(ErrorCause::OpenSsl(v))
    }
}

/// A configuration file that does not deserialize is a configuration error.
impl From<toml::de::Error> for ServerError {
    fn from(value: toml::de::Error) -> (r: Self) {
        ServerError::Config(ErrorCause::Toml(value))
    }
}

impl vstd::std_specs::convert::FromSpecImpl<toml::de::Error> for ServerError {
    open spec fn obeys_from_spec() -> bool {
        true
    }

    open spec fn from_spec(v: toml::de::Error) -> Self {
        ServerError::Config(ErrorCause::Toml(v))
    }
}

/// Failing to install the log subscriber is a run-time error.
impl From<tracing::subscriber::SetGlobalDefaultError> for ServerError {
    fn from(value: tracing::subscriber::SetGlobalDefaultError) -> (r: Self) {
        ServerError::RunTime(ErrorCause::Tracing(value))
    }
}

impl vstd::std_specs::convert::FromSpecImpl<tracing::subscriber::SetGlobalDefaultError> for ServerError {
    open spec fn obeys_from_spec() -> bool {
        true
    }

    open spec fn from_spec(v: tracing::subscriber::SetGlobalDefaultError) -> Self {
        ServerError::RunTime(ErrorCause::Tracing(v))
    }
}

} // verus!
