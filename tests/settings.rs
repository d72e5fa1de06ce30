use sed_bot::config::{Builder, DEFAULT_MAX_FAILURES_PER_MINUTE};
use sed_bot::describe::Describe;
use sed_bot::channel::Disconnected;
use sed_bot::app::AppError;
use sed_bot::replace::ParseError;

#[test]
fn builder_defaults() {
    let config = Builder::new(String::from("SECRET-REDACTED")).finish();
    assert_eq!(config.token(), "SECRET-REDACTED");
    assert_eq!(config.handle(), None);
    assert_eq!(config.max_failures_per_minute(), DEFAULT_MAX_FAILURES_PER_MINUTE);
    assert_eq!(DEFAULT_MAX_FAILURES_PER_MINUTE, 30);
}

#[test]
fn builder_sets_fields() {
    let config = Builder::new(String::from("t"))
        .handle(String::from("sedbot"))
        .max_failures_per_minute(5)
        .finish();
    assert_eq!(config.token(), "t");
    assert_eq!(config.handle(), Some("sedbot"));
    assert_eq!(config.max_failures_per_minute(), 5);
}

#[test]
fn descriptions() {
    assert_eq!(Disconnected.description(), "message channel disconnected");
    assert_eq!(ParseError::MissingQuery.description(), "missing query regex in rule");
    let e: AppError<Disconnected, ParseError> = AppError::Handler(ParseError::DuplicatedFlag('x'));
    assert_eq!(e.description(), "'x' flag is duplicated");
    let e: AppError<Disconnected, ParseError> = AppError::Receiver(Disconnected);
    assert_eq!(e.description(), "message channel disconnected");
}
