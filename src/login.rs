//! Session login: the decision after a credential check, and the signed
//! flash message that carries a failure to the next rendering of the form.

use vstd::prelude::*;
use vstd::string::*;
use vstd::utf8::encode_utf8;

use crate::auth::{
    argon2_verifies, has_username, phc_parses, stored_credentials, validation_result, AuthError,
    CredentialRecord, CredentialStore, CredentialVerifier, Credentials,
};
use crate::signing::{tag_matches, SignedTokenCodec};

verus! {

/// Why a login failed.
pub enum LoginError {
    /// The credentials were denied.
    Auth(String),
    /// A fault that is no decision on the credentials.
    Unexpected(String),
}

pub const AUTH_FAILED_MESSAGE: &'static str = "Authentication failed";

pub const SOMETHING_WRONG_MESSAGE: &'static str = "Something went wrong";

/// The text shown to the user for a failure of this kind.
pub open spec fn login_message(denied: bool) -> Seq<char> {
    if denied {
        AUTH_FAILED_MESSAGE@
    } else {
        SOMETHING_WRONG_MESSAGE@
    }
}

impl LoginError {
    /// The HTTP status that answers this failure: 401 for a denial, 500 for
    /// a fault.
    pub fn status_code(&self) -> (r: u16)
        ensures
            r == if self is Auth { 401u16 } else { 500u16 },
    {
        match self {
            LoginError::Auth(_) => 401,
            LoginError::Unexpected(_) => 500,
        }
    }

    /// A denial stays a denial, and a fault stays a fault.
    pub fn from_auth_error(e: AuthError) -> (r: LoginError)
        ensures
            match e {
                AuthError::InvalidCredentials(m) => r matches LoginError::Auth(n) && n@ == m@,
                AuthError::Unexpected(m) => r matches LoginError::Unexpected(n) && n@ == m@,
            },
    {
        match e {
            AuthError::InvalidCredentials(m) => LoginError::Auth(m),
            AuthError::Unexpected(m) => LoginError::Unexpected(m),
        }
    }

    /// The text shown to the user, which names no factor.
    pub fn message(&self) -> (r: String)
        ensures
            r@ == login_message(self is Auth),
    {
        match self {
            LoginError::Auth(_) => String::from_str(AUTH_FAILED_MESSAGE),
            LoginError::Unexpected(_) => String::from_str(SOMETHING_WRONG_MESSAGE),
        }
    }
}

/// A message for the client to carry, with its tag.
pub struct FlashMessage {
    pub message: String,
    pub tag: Vec<u8>,
}

/// Signs `message` for the client to carry.
pub fn sign_flash(codec: &SignedTokenCodec, message: String) -> (r: FlashMessage)
    ensures
        r.message@ == message@,
        tag_matches(codec.key(), encode_utf8(message@), r.tag@),
{
    let tag = codec.sign(message.as_str().as_bytes());
    FlashMessage { message, tag }
}

/// What a login attempt gives.
pub open spec fn login_result(
    key: Seq<u8>,
    records: Seq<crate::auth::CredentialRecord>,
    dummy_hash: Seq<char>,
    username: Seq<char>,
    password: Seq<char>,
    r: Result<u128, FlashMessage>,
) -> bool {
    exists|v: Result<u128, AuthError>| #[trigger] validation_result(records, dummy_hash, username, password, v)
        && match v {
            Ok(id) => r == Ok::<u128, FlashMessage>(id),
            Err(e) => r matches Err(f) && f.message@ == login_message(e is InvalidCredentials)
                && tag_matches(key, encode_utf8(f.message@), f.tag@),
        }
}

/// Checks the credentials. On success the user's id, for a redirect home;
/// on failure a signed flash message for a redirect back to the form, and
/// no server-side state.
pub fn login(
    verifier: &CredentialVerifier,
    store: &CredentialStore,
    codec: &SignedTokenCodec,
    credentials: &Credentials,
) -> (r: Result<u128, FlashMessage>)
    requires
        store.wf(),
    ensures
        login_result(
            codec.key(),
            store.records(),
            verifier.dummy_hash(),
            credentials.username@,
            credentials.password@,
            r,
        ),
{
    let v = verifier.validate_credentials(store, credentials);
    match v {
        Ok(id) => Ok(id),
        Err(e) => {
            let ghost denied = e is InvalidCredentials;
            let err = LoginError::from_auth_error(e);
            assert((err is Auth) == denied);
            Err(sign_flash(codec, err.message()))
        },
    }
}

/// The error paragraph of the login form: the flash message if its tag
/// verifies, and nothing otherwise, so that a forged message never shows.
pub fn flash_error_html(codec: &SignedTokenCodec, flash: Option<&FlashMessage>) -> (r: String)
    ensures
        match flash {
            None => r@ == Seq::<char>::empty(),
            Some(f) => if tag_matches(codec.key(), encode_utf8(f.message@), f.tag@) {
                r@ == "<p><i>"@ + f.message@ + "</i></p>"@
            } else {
                r@ == Seq::<char>::empty()
            },
        },
{
    match flash {
        None => String::new(),
        Some(f) => {
            if codec.verify(f.message.as_str().as_bytes(), f.tag.as_slice()) {
                let mut html = String::from_str("<p><i>");
                html.append(f.message.as_str());
                html.append("</i></p>");
                html
            } else {
                String::new()
            }
        },
    }
}

/// An unknown username and a known username with a wrong password get the
/// same flash message with the same tag: the response shows neither which
/// factor failed nor whether the user exists.
pub proof fn lemma_login_same_denial(
    key: Seq<u8>,
    records: Seq<CredentialRecord>,
    dummy_hash: Seq<char>,
    unknown: Seq<char>,
    any_password: Seq<char>,
    known: Seq<char>,
    wrong_password: Seq<char>,
    r1: Result<u128, FlashMessage>,
    r2: Result<u128, FlashMessage>,
)
    requires
        phc_parses(dummy_hash),
        !has_username(records, unknown),
        stored_credentials(records, known) matches Some((_, h)) && phc_parses(h) && !argon2_verifies(h, wrong_password),
        login_result(key, records, dummy_hash, unknown, any_password, r1),
        login_result(key, records, dummy_hash, known, wrong_password, r2),
    ensures
        r1 is Err,
        r2 is Err,
        r1->Err_0.message@ == AUTH_FAILED_MESSAGE@,
        r2->Err_0.message@ == AUTH_FAILED_MESSAGE@,
        r1->Err_0.tag@ == r2->Err_0.tag@,
{
    let v1 = choose|v: Result<u128, AuthError>| #[trigger] validation_result(records, dummy_hash, unknown, any_password, v)
        && match v {
            Ok(id) => r1 == Ok::<u128, FlashMessage>(id),
            Err(e) => r1 matches Err(f) && f.message@ == login_message(e is InvalidCredentials)
                && tag_matches(key, encode_utf8(f.message@), f.tag@),
        };
    let v2 = choose|v: Result<u128, AuthError>| #[trigger] validation_result(records, dummy_hash, known, wrong_password, v)
        && match v {
            Ok(id) => r2 == Ok::<u128, FlashMessage>(id),
            Err(e) => r2 matches Err(f) && f.message@ == login_message(e is InvalidCredentials)
                && tag_matches(key, encode_utf8(f.message@), f.tag@),
        };
    assert(v1 matches Err(AuthError::InvalidCredentials(_)));
    assert(v2 matches Err(AuthError::InvalidCredentials(_)));
}

} // verus!
