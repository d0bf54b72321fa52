use true_track_proxy::errors::{ErrorCause, ServerError};

#[test]
fn io_errors_are_run_time_errors() {
    let e: ServerError = std::io::Error::new(std::io::ErrorKind::NotFound, "missing").into();
    assert!(matches!(e, ServerError::RunTime(ErrorCause::Io(_))));
}

#[test]
fn toml_errors_are_configuration_errors() {
    let err = toml::from_str::<toml::Table>("proxies = [").unwrap_err();
    let e = ServerError::from(err);
    assert!(matches!(e, ServerError::Config(ErrorCause::Toml(_))));
}

#[test]
fn openssl_errors_are_run_time_errors() {
    let err = openssl::x509::X509::from_pem(b"x").unwrap_err();
    let e = ServerError::from(err);
    assert!(matches!(e, ServerError::RunTime(ErrorCause::OpenSsl(_))));
}

#[test]
fn pingora_errors_are_run_time_errors() {
    let err = pingora_error::Error::new(pingora_error::ErrorType::InternalError);
    let e = ServerError::from(err);
    assert!(matches!(e, ServerError::RunTime(ErrorCause::Pingora(_))));
}

#[test]
fn tracing_errors_are_run_time_errors() {
    let first = tracing::subscriber::set_global_default(tracing::subscriber::NoSubscriber::default());
    let second = tracing::subscriber::set_global_default(tracing::subscriber::NoSubscriber::default());
    let err = match (first, second) {
        (Err(e), _) | (Ok(()), Err(e)) => e,
        (Ok(()), Ok(())) => panic!("two global subscribers"),
    };
    assert!(matches!(ServerError::from(err), ServerError::RunTime(ErrorCause::Tracing(_))));
}
