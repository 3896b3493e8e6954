use argon2::password_hash::{PasswordHasher, SaltString};
use argon2::{Algorithm, Argon2, Params, Version};
use zero2prod::auth::{AuthError, CredentialStore, CredentialVerifier, Credentials};
use zero2prod::newsletters::{authorize_publisher, basic_authentication, BasicAuthError, PublishError};

fn hash(password: &str) -> String {
    let salt = SaltString::b64_encode(b"a fixed test salt").unwrap();
    let params = Params::new(1024, 1, 1, None).unwrap();
    Argon2::new(Algorithm::Argon2id, Version::V0x13, params)
        .hash_password(password.as_bytes(), &salt)
        .unwrap()
        .to_string()
}

fn setup() -> (CredentialVerifier, CredentialStore) {
    let verifier = CredentialVerifier::new(hash("never a real password")).unwrap();
    let mut store = CredentialStore::new();
    assert!(store.add(42, "alice".to_string(), hash("correct-pw")));
    (verifier, store)
}

fn creds(username: &str, password: &str) -> Credentials {
    Credentials { username: username.to_string(), password: password.to_string() }
}

#[test]
fn validate_accepts_the_right_password() {
    let (v, s) = setup();
    assert!(matches!(v.validate_credentials(&s, &creds("alice", "correct-pw")), Ok(42)));
}

#[test]
fn wrong_password_and_unknown_user_are_the_same_denial() {
    let (v, s) = setup();
    assert!(matches!(
        v.validate_credentials(&s, &creds("alice", "wrong-pw")),
        Err(AuthError::InvalidCredentials(_))
    ));
    assert!(matches!(
        v.validate_credentials(&s, &creds("bob-does-not-exist", "x")),
        Err(AuthError::InvalidCredentials(_))
    ));
}

#[test]
fn the_dummy_password_never_logs_anyone_in() {
    let (v, s) = setup();
    assert!(matches!(
        v.validate_credentials(&s, &creds("bob-does-not-exist", "never a real password")),
        Err(AuthError::InvalidCredentials(m)) if m == "Unknown username."
    ));
}

#[test]
fn an_unparsable_stored_hash_is_a_fault() {
    let v = CredentialVerifier::new(hash("x")).unwrap();
    let mut s = CredentialStore::new();
    assert!(s.add(1, "carol".to_string(), "not a phc string".to_string()));
    assert!(matches!(
        v.validate_credentials(&s, &creds("carol", "x")),
        Err(AuthError::Unexpected(_))
    ));
}

#[test]
fn usernames_are_unique_in_the_store() {
    let (_, mut s) = setup();
    assert!(!s.add(43, "alice".to_string(), hash("other")));
    let (id, _) = s.get_stored_credentials("alice").unwrap();
    assert_eq!(id, 42);
    assert!(s.get_stored_credentials("bob").is_none());
}

fn basic(user_pass: &str) -> Vec<u8> {
    format!("Basic {}", base64::encode(user_pass)).into_bytes()
}

#[test]
fn basic_credentials_split_at_the_first_colon() {
    let h = basic("alice:pa:ss");
    let c = basic_authentication(Some(&h)).ok().unwrap();
    assert_eq!(c.username, "alice");
    assert_eq!(c.password, "pa:ss");
}

#[test]
fn basic_authentication_errors() {
    assert!(matches!(basic_authentication(None), Err(BasicAuthError::MissingHeader)));
    assert!(matches!(
        basic_authentication(Some(&b"Basic \x01abc"[..])),
        Err(BasicAuthError::NotVisibleAscii)
    ));
    assert!(matches!(
        basic_authentication(Some(&b"Bearer abc"[..])),
        Err(BasicAuthError::NotBasicScheme)
    ));
    assert!(matches!(
        basic_authentication(Some(&b"Basic !!!!"[..])),
        Err(BasicAuthError::NotBase64)
    ));
    let bad_utf8 = format!("Basic {}", base64::encode([0xffu8, 0xfe, 0x3a])).into_bytes();
    assert!(matches!(basic_authentication(Some(&bad_utf8)), Err(BasicAuthError::NotUtf8)));
    let no_colon = basic("alice");
    assert!(matches!(
        basic_authentication(Some(&no_colon)),
        Err(BasicAuthError::MissingPassword)
    ));
}

#[test]
fn unknown_user_and_wrong_password_get_the_same_publish_response() {
    let (v, s) = setup();
    let unknown = basic("bob-does-not-exist:x");
    let wrong = basic("alice:wrong-pw");
    let a = authorize_publisher(&v, &s, Some(&unknown)).err().unwrap();
    let b = authorize_publisher(&v, &s, Some(&wrong)).err().unwrap();
    assert!(matches!(a, PublishError::Auth(_)));
    assert!(matches!(b, PublishError::Auth(_)));
    assert_eq!(a.status_code(), b.status_code());
    assert_eq!(a.www_authenticate(), b.www_authenticate());
}

#[test]
fn publishers_are_authorized_by_header() {
    let (v, s) = setup();
    let ok = basic("alice:correct-pw");
    assert!(matches!(authorize_publisher(&v, &s, Some(&ok)), Ok(42)));
    let wrong = basic("alice:wrong-pw");
    match authorize_publisher(&v, &s, Some(&wrong)) {
        Err(e @ PublishError::Auth(_)) => {
            assert_eq!(e.status_code(), 401);
            assert_eq!(e.www_authenticate().unwrap(), "Basic realm=\"publish\"");
        }
        _ => panic!("expected a denial"),
    }
    assert!(matches!(authorize_publisher(&v, &s, None), Err(PublishError::Auth(_))));
}

#[test]
fn a_broken_dummy_hash_is_refused() {
    assert!(CredentialVerifier::new("broken".to_string()).is_none());
}

#[test]
fn a_broken_stored_hash_is_a_fault_not_a_denial() {
    let v = CredentialVerifier::new(hash("x")).unwrap();
    let mut s = CredentialStore::new();
    assert!(s.add(1, "nobody".to_string(), "broken".to_string()));
    let h = basic("nobody:x");
    match authorize_publisher(&v, &s, Some(&h)) {
        Err(e @ PublishError::Unexpected(_)) => {
            assert_eq!(e.status_code(), 500);
            assert!(e.www_authenticate().is_none());
        }
        _ => panic!("expected a fault"),
    }
}
