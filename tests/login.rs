use argon2::password_hash::{PasswordHasher, SaltString};
use argon2::{Algorithm, Argon2, Params, Version};
use zero2prod::auth::{AuthError, CredentialStore, CredentialVerifier, Credentials};
use zero2prod::login::{flash_error_html, login, sign_flash, FlashMessage, LoginError};
use zero2prod::signing::SignedTokenCodec;

fn phc(password: &str) -> String {
    let salt = SaltString::b64_encode(b"another test salt").unwrap();
    let params = Params::new(1024, 1, 1, None).unwrap();
    Argon2::new(Algorithm::Argon2id, Version::V0x13, params)
        .hash_password(password.as_bytes(), &salt)
        .unwrap()
        .to_string()
}

fn codec() -> SignedTokenCodec {
    SignedTokenCodec::new(b"a secret of at least thirty-two bytes!".to_vec()).unwrap()
}

#[test]
fn login_succeeds_with_the_right_password() {
    let v = CredentialVerifier::new(phc("dummy")).unwrap();
    let mut s = CredentialStore::new();
    assert!(s.add(5, "admin".to_string(), phc("hunter2")));
    let c = Credentials { username: "admin".to_string(), password: "hunter2".to_string() };
    assert!(matches!(login(&v, &s, &codec(), &c), Ok(5)));
}

#[test]
fn a_failed_login_carries_a_signed_flash() {
    let v = CredentialVerifier::new(phc("dummy")).unwrap();
    let s = CredentialStore::new();
    let c = Credentials { username: "admin".to_string(), password: "nope".to_string() };
    let flash = login(&v, &s, &codec(), &c).err().unwrap();
    assert_eq!(flash.message, "Authentication failed");
    assert!(codec().verify(flash.message.as_bytes(), &flash.tag));
    assert_eq!(flash_error_html(&codec(), Some(&flash)), "<p><i>Authentication failed</i></p>");
}

#[test]
fn unknown_user_and_wrong_password_get_the_same_flash() {
    let v = CredentialVerifier::new(phc("dummy")).unwrap();
    let mut s = CredentialStore::new();
    assert!(s.add(5, "admin".to_string(), phc("hunter2")));
    let unknown = Credentials { username: "nobody".to_string(), password: "x".to_string() };
    let wrong = Credentials { username: "admin".to_string(), password: "wrong".to_string() };
    let a = login(&v, &s, &codec(), &unknown).err().unwrap();
    let b = login(&v, &s, &codec(), &wrong).err().unwrap();
    assert_eq!(a.message, "Authentication failed");
    assert_eq!(a.message, b.message);
    assert_eq!(a.tag, b.tag);
}

#[test]
fn a_forged_flash_renders_nothing() {
    let mut flash = sign_flash(&codec(), "Authentication failed".to_string());
    flash.message = "<script>alert(1)</script>".to_string();
    assert_eq!(flash_error_html(&codec(), Some(&flash)), "");
    let unsigned = FlashMessage { message: "hi".to_string(), tag: vec![0u8; 32] };
    assert_eq!(flash_error_html(&codec(), Some(&unsigned)), "");
    assert_eq!(flash_error_html(&codec(), None), "");
}

#[test]
fn login_errors_keep_their_kind() {
    let e = LoginError::from_auth_error(AuthError::InvalidCredentials("Invalid password.".to_string()));
    assert_eq!(e.status_code(), 401);
    assert_eq!(e.message(), "Authentication failed");
    let e = LoginError::from_auth_error(AuthError::Unexpected("db down".to_string()));
    assert_eq!(e.status_code(), 500);
    assert_eq!(e.message(), "Something went wrong");
}

#[test]
fn a_fault_during_login_says_something_went_wrong() {
    let v = CredentialVerifier::new(phc("dummy")).unwrap();
    let mut s = CredentialStore::new();
    assert!(s.add(1, "x".to_string(), "not a hash".to_string()));
    let c = Credentials { username: "x".to_string(), password: "y".to_string() };
    let flash = login(&v, &s, &codec(), &c).err().unwrap();
    assert_eq!(flash.message, "Something went wrong");
}
