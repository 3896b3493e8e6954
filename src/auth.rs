//! Publisher credentials: parsing `Basic` authorization headers and checking
//! a username and password against stored Argon2 hashes, with the same work
//! done whether or not the username exists.

use argon2::{Argon2, PasswordHash, PasswordVerifier};
use vstd::prelude::*;
use vstd::string::*;

use crate::domain::str_eq;

verus! {

/// A username and password as a client presented them.
pub struct Credentials {
    pub username: String,
    pub password: String,
}

/// Why credentials were not accepted.
pub enum AuthError {
    /// A denial: an unknown username or a wrong password, alike.
    InvalidCredentials(String),
    /// A fault that is no decision on the credentials.
    Unexpected(String),
}

pub open spec fn is_invalid_credentials(r: Result<u128, AuthError>) -> bool {
    r matches Err(AuthError::InvalidCredentials(_))
}

/// Whether `hash` parses as a PHC string.
pub uninterp spec fn phc_parses(hash: Seq<char>) -> bool;

/// Whether `password` matches the PHC string `hash` under Argon2.
pub uninterp spec fn argon2_verifies(hash: Seq<char>, password: Seq<char>) -> bool;

/// Relies on password-hash's `PasswordHash::new`: whether the string parses
/// in the PHC string format.
#[verifier::external_body]
fn parses_as_phc(hash: &str) -> (r: bool)
    ensures
        r == phc_parses(hash@),
{
    PasswordHash::new(hash).is_ok()
}

/// Relies on argon2's `verify_password` (with `Argon2::default`, which takes
/// the algorithm and parameters from the hash): whether the password hashes
/// to the stored output. The password-hash crate compares in constant time.
#[verifier::external_body]
fn argon2_verify(hash: &str, password: &str) -> (r: bool)
    requires
        phc_parses(hash@),
    ensures
        r == argon2_verifies(hash@, password@),
{
    match PasswordHash::new(hash) {
        Ok(parsed) => Argon2::default().verify_password(password.as_bytes(), &parsed).is_ok(),
        Err(_) => false,
    }
}

/// A stored credential.
pub struct CredentialRecord {
    pub user_id: u128,
    pub username: String,
    pub password_hash: String,
}

pub open spec fn usernames_unique(s: Seq<CredentialRecord>) -> bool {
    forall|i: int, j: int|
        0 <= i < s.len() && 0 <= j < s.len() && i != j ==> (#[trigger] s[i]).username@ != (#[trigger] s[j]).username@
}

pub open spec fn has_username(s: Seq<CredentialRecord>, username: Seq<char>) -> bool {
    exists|i: int| 0 <= i < s.len() && (#[trigger] s[i]).username@ == username
}

/// The id and hash stored for `username`, if any.
pub open spec fn stored_credentials(s: Seq<CredentialRecord>, username: Seq<char>) -> Option<(u128, Seq<char>)> {
    if has_username(s, username) {
        let i = choose|i: int| 0 <= i < s.len() && (#[trigger] s[i]).username@ == username;
        Some((s[i].user_id, s[i].password_hash@))
    } else {
        None
    }
}

/// Username to password-hash records, usernames unique.
pub struct CredentialStore {
    records: Vec<CredentialRecord>,
}

impl CredentialStore {
    pub closed spec fn records(&self) -> Seq<CredentialRecord> {
        self.records@
    }

    pub open spec fn wf(&self) -> bool {
        usernames_unique(self.records())
    }

    pub fn new() -> (r: CredentialStore)
        ensures
            r.wf(),
            r.records().len() == 0,
    {
        CredentialStore { records: Vec::new() }
    }

    /// Adds a record, unless the username is taken; returns whether it was
    /// added.
    pub fn add(&mut self, user_id: u128, username: String, password_hash: String) -> (r: bool)
        requires
            old(self).wf(),
        ensures
            final(self).wf(),
            r == !has_username(old(self).records(), username@),
            r ==> final(self).records() == old(self).records().push(
                CredentialRecord { user_id, username, password_hash },
            ),
            !r ==> final(self).records() == old(self).records(),
    {
        if self.find(username.as_str()).is_some() {
            return false;
        }
        let rec = CredentialRecord { user_id, username, password_hash };
        let ghost s = self.records@;
        self.records.push(rec);
        proof {
            let s2 = self.records@;
            assert forall|i: int, j: int|
                0 <= i < s2.len() && 0 <= j < s2.len() && i != j implies (#[trigger] s2[i]).username@ != (#[trigger] s2[j]).username@ by {
                if i == s.len() {
                    assert(s[j] == s2[j]);
                } else if j == s.len() {
                    assert(s[i] == s2[i]);
                } else {
                    assert(s[i] == s2[i] && s[j] == s2[j]);
                }
            }
        }
        true
    }

    fn find(&self, username: &str) -> (r: Option<usize>)
        requires
            self.wf(),
        ensures
            r is None == !has_username(self.records(), username@),
            r matches Some(i) ==> i < self.records().len() && self.records()[i as int].username@ == username@,
    {
        let n = self.records.len();
        let mut i: usize = 0;
        while i < n
            invariant
                n == self.records@.len(),
                i <= n,
                forall|j: int| 0 <= j < i ==> (#[trigger] self.records@[j]).username@ != username@,
            decreases n - i,
        {
            if str_eq(self.records[i].username.as_str(), username) {
                return Some(i);
            }
            i = i + 1;
        }
        None
    }

    /// The id and password hash stored for `username`.
    pub fn get_stored_credentials(&self, username: &str) -> (r: Option<(u128, String)>)
        requires
            self.wf(),
        ensures
            match stored_credentials(self.records(), username@) {
                None => r is None,
                Some((id, h)) => r matches Some((rid, rh)) && rid == id && rh@ == h,
            },
    {
        match self.find(username) {
            None => None,
            Some(i) => {
                proof {
                    let s = self.records@;
                    let c = choose|c: int| 0 <= c < s.len() && (#[trigger] s[c]).username@ == username@;
                    if c != i as int {
                        assert(s[c].username@ != s[i as int].username@);
                    }
                }
                Some((self.records[i].user_id, String::from_str(self.records[i].password_hash.as_str())))
            },
        }
    }
}

/// The message of a hash that does not parse.
pub const UNPARSABLE_HASH_MESSAGE: &'static str = "Failed to parse hash in PHC string format.";

/// The message of a password that does not match.
pub const INVALID_PASSWORD_MESSAGE: &'static str = "Invalid password.";

/// The message of an unknown username.
pub const UNKNOWN_USERNAME_MESSAGE: &'static str = "Unknown username.";

/// What checking `username` and `password` against `records` gives, with
/// `dummy_hash` standing in for the hash of an unknown username.
pub open spec fn validation_result(
    records: Seq<CredentialRecord>,
    dummy_hash: Seq<char>,
    username: Seq<char>,
    password: Seq<char>,
    r: Result<u128, AuthError>,
) -> bool {
    let hash = match stored_credentials(records, username) {
        Some((_, h)) => h,
        None => dummy_hash,
    };
    if !phc_parses(hash) {
        r matches Err(AuthError::Unexpected(m)) && m@ == UNPARSABLE_HASH_MESSAGE@
    } else if !argon2_verifies(hash, password) {
        r matches Err(AuthError::InvalidCredentials(m)) && m@ == INVALID_PASSWORD_MESSAGE@
    } else {
        match stored_credentials(records, username) {
            Some((id, _)) => r == Ok::<u128, AuthError>(id),
            None => r matches Err(AuthError::InvalidCredentials(m)) && m@ == UNKNOWN_USERNAME_MESSAGE@,
        }
    }
}

/// Checks credentials against a store, with a fixed dummy hash for unknown
/// usernames so that both paths do the same hashing work.
pub struct CredentialVerifier {
    dummy_hash: String,
}

impl CredentialVerifier {
    pub closed spec fn dummy_hash(&self) -> Seq<char> {
        self.dummy_hash@
    }

    /// The dummy hash must be a validly formatted PHC string, so that an
    /// unknown username costs the same hashing work as a known one.
    pub open spec fn wf(&self) -> bool {
        phc_parses(self.dummy_hash())
    }

    /// A verifier with `dummy_hash`; `None` when it does not parse.
    pub fn new(dummy_hash: String) -> (r: Option<CredentialVerifier>)
        ensures
            r is Some <==> phc_parses(dummy_hash@),
            r matches Some(v) ==> v.wf() && v.dummy_hash() == dummy_hash@,
    {
        if parses_as_phc(dummy_hash.as_str()) {
            Some(CredentialVerifier { dummy_hash })
        } else {
            None
        }
    }

    /// The id of the user whose stored hash `credentials.password` matches.
    /// The hash is verified exactly once on every path: against the stored
    /// hash, or against the dummy hash when the username is unknown. Run it
    /// off the request-handling scheduler: the hashing is deliberately slow.
    pub fn validate_credentials(
        &self,
        store: &CredentialStore,
        credentials: &Credentials,
    ) -> (r: Result<u128, AuthError>)
        requires
            store.wf(),
        ensures
            validation_result(
                store.records(),
                self.dummy_hash(),
                credentials.username@,
                credentials.password@,
                r,
            ),
    {
        let (user_id, expected_hash) = match store.get_stored_credentials(credentials.username.as_str()) {
            Some((id, h)) => (Some(id), h),
            None => (None, String::from_str(self.dummy_hash.as_str())),
        };
        if !parses_as_phc(expected_hash.as_str()) {
            return Err(AuthError::Unexpected(String::from_str(UNPARSABLE_HASH_MESSAGE)));
        }
        if !argon2_verify(expected_hash.as_str(), credentials.password.as_str()) {
            return Err(AuthError::InvalidCredentials(String::from_str(INVALID_PASSWORD_MESSAGE)));
        }
        match user_id {
            Some(id) => Ok(id),
            None => Err(AuthError::InvalidCredentials(String::from_str(UNKNOWN_USERNAME_MESSAGE))),
        }
    }
}

/// An unknown username and a known username with a wrong password are denied
/// with the same kind of error, provided the hash used parses.
pub proof fn lemma_same_denial_kind(
    records: Seq<CredentialRecord>,
    dummy_hash: Seq<char>,
    unknown: Seq<char>,
    any_password: Seq<char>,
    known: Seq<char>,
    wrong_password: Seq<char>,
    r1: Result<u128, AuthError>,
    r2: Result<u128, AuthError>,
)
    requires
        !has_username(records, unknown),
        phc_parses(dummy_hash),
        stored_credentials(records, known) matches Some((_, h)) && phc_parses(h) && !argon2_verifies(h, wrong_password),
        validation_result(records, dummy_hash, unknown, any_password, r1),
        validation_result(records, dummy_hash, known, wrong_password, r2),
    ensures
        is_invalid_credentials(r1),
        is_invalid_credentials(r2),
{
}

} // verus!
