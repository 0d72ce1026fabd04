use nok::util::validation::{LoginValidator, ValidationError};

#[test]
fn test_username_validation() {
    assert!(LoginValidator::validate_username("testuser").is_ok());
    assert!(LoginValidator::validate_username("@testuser:nok.local").is_ok());
    assert!(LoginValidator::validate_username("user123").is_ok());
    assert!(LoginValidator::validate_username("user_name").is_ok());
    assert!(LoginValidator::validate_username("user-name").is_ok());

    assert!(LoginValidator::validate_username("").is_err());
    assert!(LoginValidator::validate_username("   ").is_err());
    assert!(LoginValidator::validate_username("user\nname").is_err());
    assert!(LoginValidator::validate_username("@").is_err());
    assert!(LoginValidator::validate_username("@user").is_err());
    assert!(LoginValidator::validate_username("@:domain").is_err());
    assert!(LoginValidator::validate_username("@user:").is_err());
}

#[test]
fn test_password_validation() {
    assert!(LoginValidator::validate_password("password123").is_ok());
    assert!(LoginValidator::validate_password("SuperSecure!").is_ok());

    assert!(LoginValidator::validate_password("").is_err());
    assert!(LoginValidator::validate_password("short").is_err());
    assert!(LoginValidator::validate_password("1234567").is_err());
}

#[test]
fn test_matrix_format_validation() {
    assert!(LoginValidator::is_valid_matrix_format("@user:example.com"));
    assert!(LoginValidator::is_valid_matrix_format("@test123:nok.local"));
    assert!(LoginValidator::is_valid_matrix_format("@user_name:server.org"));

    assert!(!LoginValidator::is_valid_matrix_format("user:example.com"));
    assert!(!LoginValidator::is_valid_matrix_format("@user"));
    assert!(!LoginValidator::is_valid_matrix_format("@:example.com"));
    assert!(!LoginValidator::is_valid_matrix_format("@user:"));
    assert!(!LoginValidator::is_valid_matrix_format("@"));
}

#[test]
fn username_errors_by_kind() {
    assert_eq!(LoginValidator::validate_username("  "), Err(ValidationError::EmptyUsername));
    assert_eq!(
        LoginValidator::validate_username(&"a".repeat(256)),
        Err(ValidationError::UsernameTooLong)
    );
    assert!(LoginValidator::validate_username(&"a".repeat(255)).is_ok());
    assert_eq!(
        LoginValidator::validate_username("bad\0name"),
        Err(ValidationError::InvalidUsernameCharacters)
    );
    assert_eq!(
        LoginValidator::validate_username("bad\rname"),
        Err(ValidationError::InvalidUsernameCharacters)
    );
    assert_eq!(
        LoginValidator::validate_username("@us er:host"),
        Err(ValidationError::InvalidMatrixUsername)
    );
    assert_eq!(
        LoginValidator::validate_username("@a:b:c"),
        Err(ValidationError::InvalidMatrixUsername)
    );
}

#[test]
fn username_is_trimmed() {
    assert_eq!(LoginValidator::validate_username("  alice \t"), Ok("alice".to_string()));
    assert_eq!(
        LoginValidator::validate_username("\u{3000}@bob:nok.local\n"),
        Ok("@bob:nok.local".to_string())
    );
}

#[test]
fn password_errors_by_kind() {
    assert_eq!(LoginValidator::validate_password(""), Err(ValidationError::EmptyPassword));
    assert_eq!(LoginValidator::validate_password("1234567"), Err(ValidationError::PasswordTooShort));
    assert_eq!(LoginValidator::validate_password("12345678"), Ok("12345678".to_string()));
    assert_eq!(LoginValidator::validate_password("ぱすわ"), Ok("ぱすわ".to_string()));
}

#[test]
fn credentials_check_user_name_first() {
    assert_eq!(
        LoginValidator::validate_login_credentials("", "short"),
        Err(ValidationError::EmptyUsername)
    );
    assert_eq!(
        LoginValidator::validate_login_credentials("alice", "short"),
        Err(ValidationError::PasswordTooShort)
    );
    assert_eq!(
        LoginValidator::validate_login_credentials(" alice ", "password123"),
        Ok(("alice".to_string(), "password123".to_string()))
    );
}
