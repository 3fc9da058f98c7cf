use exercises::error::Error;

#[test]
fn new_error_has_defaults() {
    let err = Error::new("NO_USER");
    assert_eq!(err.code(), "NO_USER");
    assert_eq!(err.get_status(), 500);
    assert_eq!(err.get_message(), "Unknown error has happened.");
}

#[test]
fn builder_sets_status_and_message() {
    let mut err = Error::new("NO_USER");
    err.status(404).message("User not found");
    assert_eq!(err.code(), "NO_USER");
    assert_eq!(err.get_status(), 404);
    assert_eq!(err.get_message(), "User not found");
}

#[test]
fn default_error() {
    let err = Error::default();
    assert_eq!(err.code(), "UNKNOWN");
    assert_eq!(err.get_status(), 500);
}
