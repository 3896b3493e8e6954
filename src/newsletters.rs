//! Publishing an issue: authorizing the publisher from a `Basic`
//! authorization header, reading the confirmed subscribers, and driving one
//! delivery per recipient so that a failed delivery stops nobody else's.

use vstd::prelude::*;
use vstd::slice::slice_subrange;
use vstd::string::*;
use vstd::utf8::{decode_utf8, valid_utf8};

use crate::auth::{
    argon2_verifies, has_username, phc_parses, stored_credentials, validation_result, AuthError,
    CredentialRecord, CredentialStore, CredentialVerifier, Credentials,
};
use crate::domain::{invalid_email_message, valid_email, SubscriberEmail};
use crate::registry::{Subscriber, SubscriberRegistry, SubscriptionStatus};

verus! {

/// The body of a publish request.
pub struct BodyData {
    pub title: String,
    pub content: Content,
}

/// The two renderings of an issue.
pub struct Content {
    pub html: String,
    pub text: String,
}

/// Why a publish request failed.
pub enum PublishError {
    /// The publisher was not authenticated.
    Auth(String),
    /// A fault that is no decision on the publisher.
    Unexpected(String),
}

/// The challenge sent with a denied publish request.
pub const PUBLISH_CHALLENGE: &'static str = "Basic realm=\"publish\"";

impl PublishError {
    /// The HTTP status that answers this failure: 401 for a denial, 500 for
    /// a fault.
    pub fn status_code(&self) -> (r: u16)
        ensures
            r == if self is Auth { 401u16 } else { 500u16 },
    {
        match self {
            PublishError::Auth(_) => 401,
            PublishError::Unexpected(_) => 500,
        }
    }

    /// The `WWW-Authenticate` value that goes with a denial.
    pub fn www_authenticate(&self) -> (r: Option<String>)
        ensures
            self is Auth ==> (r matches Some(v) && v@ == PUBLISH_CHALLENGE@),
            self is Unexpected ==> r is None,
    {
        match self {
            PublishError::Auth(_) => Some(String::from_str(PUBLISH_CHALLENGE)),
            PublishError::Unexpected(_) => None,
        }
    }
}

/// Why an authorization header yields no credentials.
#[derive(Clone, Copy, Debug, PartialEq, Eq, Structural)]
pub enum BasicAuthError {
    MissingHeader,
    NotVisibleAscii,
    NotBasicScheme,
    NotBase64,
    NotUtf8,
    MissingPassword,
}

impl BasicAuthError {
    /// A description for logs.
    pub fn message(&self) -> (r: String)
        ensures
            r@.len() > 0,
    {
        let m = match self {
            BasicAuthError::MissingHeader => "The 'Authorization' header was missing.",
            BasicAuthError::NotVisibleAscii => "The 'Authorization' header was not a valid UTF8 string.",
            BasicAuthError::NotBasicScheme => "The authorization scheme was not 'Basic'.",
            BasicAuthError::NotBase64 => "Failed to base64-decode 'Basic' credentials.",
            BasicAuthError::NotUtf8 => "The decoded credential string is not valid UTF8.",
            BasicAuthError::MissingPassword => "A password must be provided in 'Basic' auth.",
        };
        proof {
            reveal_strlit("The 'Authorization' header was missing.");
            reveal_strlit("The 'Authorization' header was not a valid UTF8 string.");
            reveal_strlit("The authorization scheme was not 'Basic'.");
            reveal_strlit("Failed to base64-decode 'Basic' credentials.");
            reveal_strlit("The decoded credential string is not valid UTF8.");
            reveal_strlit("A password must be provided in 'Basic' auth.");
        }
        String::from_str(m)
    }
}

/// The bytes that `base64` decodes `s` to with the standard alphabet, or
/// `None` where it is no such encoding.
pub uninterp spec fn base64_decoded(s: Seq<u8>) -> Option<Seq<u8>>;

/// Relies on base64's `decode` (standard alphabet): the decoded bytes, or an
/// error for input that is no such encoding.
#[verifier::external_body]
fn decode_base64(s: &[u8]) -> (r: Option<Vec<u8>>)
    ensures
        match r {
            Some(v) => base64_decoded(s@) == Some(v@),
            None => base64_decoded(s@) is None,
        },
{
    base64::decode(s).ok()
}

/// Relies on `String::from_utf8`: the text that valid UTF-8 encodes, or an
/// error for bytes that are no valid UTF-8.
#[verifier::external_body]
fn utf8_text(b: Vec<u8>) -> (r: Option<String>)
    ensures
        match r {
            Some(s) => valid_utf8(b@) && s@ == decode_utf8(b@),
            None => !valid_utf8(b@),
        },
{
    String::from_utf8(b).ok()
}

/// A byte that an HTTP header value may hold and still read as text.
pub open spec fn is_visible_ascii(b: u8) -> bool {
    (32 <= b && b < 127) || b == 9
}

/// `Basic ` in ASCII.
pub open spec fn basic_prefix() -> Seq<u8> {
    seq![66u8, 97u8, 115u8, 105u8, 99u8, 32u8]
}

/// What parsing the decoded `user:password` text gives.
pub open spec fn split_credentials(text: Seq<char>, r: Result<Credentials, BasicAuthError>) -> bool {
    if !text.contains(':') {
        r == Err::<Credentials, BasicAuthError>(BasicAuthError::MissingPassword)
    } else {
        r matches Ok(c) && !c.username@.contains(':') && text == c.username@ + seq![':'] + c.password@
    }
}

/// What `basic_authentication` gives for a header value, or its absence.
pub open spec fn basic_auth_result(header: Option<Seq<u8>>, r: Result<Credentials, BasicAuthError>) -> bool {
    match header {
        None => r == Err::<Credentials, BasicAuthError>(BasicAuthError::MissingHeader),
        Some(h) => if !(forall|i: int| 0 <= i < h.len() ==> is_visible_ascii(#[trigger] h[i])) {
            r == Err::<Credentials, BasicAuthError>(BasicAuthError::NotVisibleAscii)
        } else if !(h.len() >= 6 && h.subrange(0, 6) == basic_prefix()) {
            r == Err::<Credentials, BasicAuthError>(BasicAuthError::NotBasicScheme)
        } else {
            match base64_decoded(h.subrange(6, h.len() as int)) {
                None => r == Err::<Credentials, BasicAuthError>(BasicAuthError::NotBase64),
                Some(d) => if !valid_utf8(d) {
                    r == Err::<Credentials, BasicAuthError>(BasicAuthError::NotUtf8)
                } else {
                    split_credentials(decode_utf8(d), r)
                },
            }
        },
    }
}

fn all_visible_ascii(h: &[u8]) -> (r: bool)
    ensures
        r == (forall|i: int| 0 <= i < h@.len() ==> is_visible_ascii(#[trigger] h@[i])),
{
    let mut i: usize = 0;
    while i < h.len()
        invariant
            i <= h@.len(),
            forall|j: int| 0 <= j < i ==> is_visible_ascii(#[trigger] h@[j]),
        decreases h@.len() - i,
    {
        let b = h[i];
        if !((32 <= b && b < 127) || b == 9) {
            return false;
        }
        i = i + 1;
    }
    true
}

fn has_basic_prefix(h: &[u8]) -> (r: bool)
    ensures
        r == (h@.len() >= 6 && h@.subrange(0, 6) == basic_prefix()),
{
    if h.len() < 6 {
        return false;
    }
    let ok = h[0] == 66 && h[1] == 97 && h[2] == 115 && h[3] == 105 && h[4] == 99 && h[5] == 32;
    if ok {
        assert(h@.subrange(0, 6) =~= basic_prefix());
    } else {
        assert(h@.subrange(0, 6)[0] == h@[0]);
        assert(h@.subrange(0, 6)[1] == h@[1]);
        assert(h@.subrange(0, 6)[2] == h@[2]);
        assert(h@.subrange(0, 6)[3] == h@[3]);
        assert(h@.subrange(0, 6)[4] == h@[4]);
        assert(h@.subrange(0, 6)[5] == h@[5]);
    }
    ok
}

fn split_at_colon(text: &str) -> (r: Result<Credentials, BasicAuthError>)
    ensures
        split_credentials(text@, r),
{
    let n = text.unicode_len();
    let mut i: usize = 0;
    while i < n
        invariant
            n == text@.len(),
            i <= n,
            forall|j: int| 0 <= j < i ==> text@[j] != ':',
        decreases n - i,
    {
        if text.get_char(i) == ':' {
            let username = String::from_str(text.substring_char(0, i));
            let password = String::from_str(text.substring_char(i + 1, n));
            proof {
                assert(text@ =~= username@ + seq![':'] + password@);
                assert(!username@.contains(':')) by {
                    if username@.contains(':') {
                        let k = choose|k: int| 0 <= k < username@.len() && username@[k] == ':';
                        assert(text@[k] == ':');
                    }
                }
            }
            return Ok(Credentials { username, password });
        }
        i = i + 1;
    }
    Err(BasicAuthError::MissingPassword)
}

/// Reads `Basic` credentials from an `Authorization` header value: visible
/// ASCII, the `Basic ` scheme, base64 of UTF-8 `user:password`, split at the
/// first colon.
pub fn basic_authentication(header: Option<&[u8]>) -> (r: Result<Credentials, BasicAuthError>)
    ensures
        basic_auth_result(
            match header {
                Some(h) => Some(h@),
                None => None,
            },
            r,
        ),
{
    let h = match header {
        Some(h) => h,
        None => return Err(BasicAuthError::MissingHeader),
    };
    if !all_visible_ascii(h) {
        return Err(BasicAuthError::NotVisibleAscii);
    }
    if !has_basic_prefix(h) {
        return Err(BasicAuthError::NotBasicScheme);
    }
    let encoded = slice_subrange(h, 6, h.len());
    let decoded = match decode_base64(encoded) {
        Some(d) => d,
        None => return Err(BasicAuthError::NotBase64),
    };
    let text = match utf8_text(decoded) {
        Some(t) => t,
        None => return Err(BasicAuthError::NotUtf8),
    };
    split_at_colon(text.as_str())
}

/// What authorizing a publisher gives.
pub open spec fn authorize_result(
    store: Seq<crate::auth::CredentialRecord>,
    dummy_hash: Seq<char>,
    header: Option<Seq<u8>>,
    r: Result<u128, PublishError>,
) -> bool {
    exists|c: Result<Credentials, BasicAuthError>| #[trigger] basic_auth_result(header, c) && match c {
        Err(_) => r matches Err(PublishError::Auth(_)),
        Ok(cred) => exists|v: Result<u128, AuthError>| #[trigger] validation_result(store, dummy_hash, cred.username@, cred.password@, v)
            && match v {
                Ok(id) => r == Ok::<u128, PublishError>(id),
                Err(AuthError::InvalidCredentials(_)) => r matches Err(PublishError::Auth(_)),
                Err(AuthError::Unexpected(_)) => r matches Err(PublishError::Unexpected(_)),
            },
    }
}

/// The publisher's user id, from the `Authorization` header checked against
/// the credential store. Header problems and denials are `Auth`; faults are
/// `Unexpected`.
pub fn authorize_publisher(
    verifier: &CredentialVerifier,
    store: &CredentialStore,
    header: Option<&[u8]>,
) -> (r: Result<u128, PublishError>)
    requires
        store.wf(),
    ensures
        authorize_result(
            store.records(),
            verifier.dummy_hash(),
            match header {
                Some(h) => Some(h@),
                None => None,
            },
            r,
        ),
{
    let c = basic_authentication(header);
    let credentials = match c {
        Ok(cr) => cr,
        Err(e) => return Err(PublishError::Auth(e.message())),
    };
    let v = verifier.validate_credentials(store, &credentials);
    match v {
        Ok(id) => Ok(id),
        Err(AuthError::InvalidCredentials(m)) => Err(PublishError::Auth(m)),
        Err(AuthError::Unexpected(m)) => Err(PublishError::Unexpected(m)),
    }
}

proof fn lemma_split_unique(text: Seq<char>, a1: Seq<char>, b1: Seq<char>, a2: Seq<char>, b2: Seq<char>)
    requires
        !a1.contains(':'),
        !a2.contains(':'),
        text == a1 + seq![':'] + b1,
        text == a2 + seq![':'] + b2,
    ensures
        a1 == a2,
        b1 == b2,
{
    if a1.len() < a2.len() {
        assert(text[a1.len() as int] == ':');
        assert(a2[a1.len() as int] == text[a1.len() as int]);
        assert(a2.contains(':'));
    } else if a2.len() < a1.len() {
        assert(text[a2.len() as int] == ':');
        assert(a1[a2.len() as int] == text[a2.len() as int]);
        assert(a1.contains(':'));
    }
    assert(a1 =~= text.subrange(0, a1.len() as int));
    assert(a2 =~= text.subrange(0, a2.len() as int));
    assert(b1 =~= text.subrange(a1.len() as int + 1, text.len() as int));
    assert(b2 =~= text.subrange(a2.len() as int + 1, text.len() as int));
}

/// A header determines the credentials it carries.
proof fn lemma_basic_auth_unique(h: Seq<u8>, c: Credentials, x: Result<Credentials, BasicAuthError>)
    requires
        basic_auth_result(Some(h), Ok(c)),
        basic_auth_result(Some(h), x),
    ensures
        x is Ok,
        x->Ok_0.username@ == c.username@,
        x->Ok_0.password@ == c.password@,
{
    let d = base64_decoded(h.subrange(6, h.len() as int))->Some_0;
    let text = decode_utf8(d);
    let c2 = x->Ok_0;
    lemma_split_unique(text, c.username@, c.password@, c2.username@, c2.password@);
}

/// A header naming an unknown user and one naming a known user with a wrong
/// password are both denied as `Auth`, whose status and challenge depend on
/// the variant alone: the response shows neither which factor failed nor
/// whether the user exists.
pub proof fn lemma_publish_same_denial(
    records: Seq<CredentialRecord>,
    dummy_hash: Seq<char>,
    h1: Seq<u8>,
    c1: Credentials,
    h2: Seq<u8>,
    c2: Credentials,
    r1: Result<u128, PublishError>,
    r2: Result<u128, PublishError>,
)
    requires
        phc_parses(dummy_hash),
        basic_auth_result(Some(h1), Ok(c1)),
        !has_username(records, c1.username@),
        basic_auth_result(Some(h2), Ok(c2)),
        stored_credentials(records, c2.username@) matches Some((_, h)) && phc_parses(h) && !argon2_verifies(h, c2.password@),
        authorize_result(records, dummy_hash, Some(h1), r1),
        authorize_result(records, dummy_hash, Some(h2), r2),
    ensures
        r1 matches Err(PublishError::Auth(_)),
        r2 matches Err(PublishError::Auth(_)),
{
    let x1 = choose|x: Result<Credentials, BasicAuthError>| #[trigger] basic_auth_result(Some(h1), x) && match x {
        Err(_) => r1 matches Err(PublishError::Auth(_)),
        Ok(cred) => exists|v: Result<u128, AuthError>| #[trigger] validation_result(records, dummy_hash, cred.username@, cred.password@, v)
            && match v {
                Ok(id) => r1 == Ok::<u128, PublishError>(id),
                Err(AuthError::InvalidCredentials(_)) => r1 matches Err(PublishError::Auth(_)),
                Err(AuthError::Unexpected(_)) => r1 matches Err(PublishError::Unexpected(_)),
            },
    };
    lemma_basic_auth_unique(h1, c1, x1);
    let x2 = choose|x: Result<Credentials, BasicAuthError>| #[trigger] basic_auth_result(Some(h2), x) && match x {
        Err(_) => r2 matches Err(PublishError::Auth(_)),
        Ok(cred) => exists|v: Result<u128, AuthError>| #[trigger] validation_result(records, dummy_hash, cred.username@, cred.password@, v)
            && match v {
                Ok(id) => r2 == Ok::<u128, PublishError>(id),
                Err(AuthError::InvalidCredentials(_)) => r2 matches Err(PublishError::Auth(_)),
                Err(AuthError::Unexpected(_)) => r2 matches Err(PublishError::Unexpected(_)),
            },
    };
    lemma_basic_auth_unique(h2, c2, x2);
}

/// A confirmed subscriber whose stored email passed validation again.
pub struct ConfirmedSubscriber {
    pub email: SubscriberEmail,
}

/// The emails of the confirmed rows, in row order.
pub open spec fn confirmed_emails(s: Seq<Subscriber>) -> Seq<Seq<char>>
    decreases s.len(),
{
    if s.len() == 0 {
        Seq::empty()
    } else if s.last().status == SubscriptionStatus::Confirmed {
        confirmed_emails(s.drop_last()).push(s.last().email@)
    } else {
        confirmed_emails(s.drop_last())
    }
}

/// The confirmed subscribers, each re-validated: an entry is `Ok` with the
/// email where it still passes validation, and `Err` with the validation
/// message where it does not, so that the caller can skip it.
pub fn get_confirmed_subscribers(registry: &SubscriberRegistry) -> (r: Vec<Result<ConfirmedSubscriber, String>>)
    ensures
        r@.len() == confirmed_emails(registry.subscribers()).len(),
        forall|i: int| 0 <= i < r@.len() ==> match #[trigger] r@[i] {
            Ok(c) => valid_email(confirmed_emails(registry.subscribers())[i]) && c.email@ == confirmed_emails(registry.subscribers())[i],
            Err(m) => !valid_email(confirmed_emails(registry.subscribers())[i]) && m@ == invalid_email_message(confirmed_emails(registry.subscribers())[i]),
        },
{
    let rows = registry.subscriber_rows();
    let mut out: Vec<Result<ConfirmedSubscriber, String>> = Vec::new();
    let mut i: usize = 0;
    while i < rows.len()
        invariant
            i <= rows@.len(),
            out@.len() == confirmed_emails(rows@.subrange(0, i as int)).len(),
            forall|k: int| 0 <= k < out@.len() ==> match #[trigger] out@[k] {
                Ok(c) => valid_email(confirmed_emails(rows@.subrange(0, i as int))[k]) && c.email@ == confirmed_emails(rows@.subrange(0, i as int))[k],
                Err(m) => !valid_email(confirmed_emails(rows@.subrange(0, i as int))[k]) && m@ == invalid_email_message(confirmed_emails(rows@.subrange(0, i as int))[k]),
            },
        decreases rows@.len() - i,
    {
        let ghost prev = rows@.subrange(0, i as int);
        let ghost next = rows@.subrange(0, i + 1);
        assert(next.drop_last() =~= prev);
        if rows[i].status == SubscriptionStatus::Confirmed {
            let parsed = SubscriberEmail::parse(String::from_str(rows[i].email.as_str()));
            match parsed {
                Ok(email) => out.push(Ok(ConfirmedSubscriber { email })),
                Err(m) => out.push(Err(m)),
            }
        }
        i = i + 1;
    }
    assert(rows@.subrange(0, rows@.len() as int) =~= rows@);
    out
}

/// The emails of the entries that passed validation, in order.
pub open spec fn valid_recipients(s: Seq<Result<ConfirmedSubscriber, String>>) -> Seq<Seq<char>>
    decreases s.len(),
{
    if s.len() == 0 {
        Seq::empty()
    } else {
        match s.last() {
            Ok(c) => valid_recipients(s.drop_last()).push(c.email@),
            Err(_) => valid_recipients(s.drop_last()),
        }
    }
}

/// The recipients whose delivery failed, by the outcome of each, in order.
pub open spec fn failed_recipients(recipients: Seq<Seq<char>>, delivered: Seq<bool>) -> Seq<Seq<char>>
    decreases delivered.len(),
{
    if delivered.len() == 0 || recipients.len() < delivered.len() {
        Seq::empty()
    } else if delivered.last() {
        failed_recipients(recipients, delivered.drop_last())
    } else {
        failed_recipients(recipients, delivered.drop_last()).push(recipients[delivered.len() - 1])
    }
}

/// The progress of delivering one issue: the recipients in order, how many
/// have been attempted, and those whose delivery failed. The caller sends to
/// `next_recipient` and reports each outcome with `record_outcome`.
pub struct NewsletterDispatch {
    recipients: Vec<String>,
    position: usize,
    failed: Vec<String>,
}

/// One recorded outcome: the next recipient counts as attempted whatever
/// the outcome, and a failure is noted.
pub open spec fn record_step(d0: NewsletterDispatch, d1: NewsletterDispatch, delivered: bool) -> bool {
    &&& d1.recipients() == d0.recipients()
    &&& d1.position() == d0.position() + 1
    &&& d1.failures() == if delivered {
        d0.failures()
    } else {
        d0.failures().push(d0.recipients()[d0.position() as int])
    }
}

impl NewsletterDispatch {
    pub closed spec fn recipients(&self) -> Seq<Seq<char>> {
        self.recipients@.map_values(|s: String| s@)
    }

    pub closed spec fn position(&self) -> nat {
        self.position as nat
    }

    pub closed spec fn failures(&self) -> Seq<Seq<char>> {
        self.failed@.map_values(|s: String| s@)
    }

    pub closed spec fn wf(&self) -> bool {
        self.position <= self.recipients@.len()
    }

    /// A dispatch to the entries that passed validation; the others are
    /// skipped.
    pub fn new(subscribers: Vec<Result<ConfirmedSubscriber, String>>) -> (d: NewsletterDispatch)
        ensures
            d.wf(),
            d.recipients() == valid_recipients(subscribers@),
            d.position() == 0,
            d.failures().len() == 0,
    {
        let mut recipients: Vec<String> = Vec::new();
        let mut i: usize = 0;
        while i < subscribers.len()
            invariant
                i <= subscribers@.len(),
                recipients@.map_values(|s: String| s@) == valid_recipients(subscribers@.subrange(0, i as int)),
            decreases subscribers@.len() - i,
        {
            let ghost prev = subscribers@.subrange(0, i as int);
            let ghost next = subscribers@.subrange(0, i + 1);
            assert(next.drop_last() =~= prev);
            match &subscribers[i] {
                Ok(c) => {
                    recipients.push(String::from_str(c.email.as_str()));
                },
                Err(_) => {},
            }
            assert(recipients@.map_values(|s: String| s@) =~= valid_recipients(next));
            i = i + 1;
        }
        assert(subscribers@.subrange(0, subscribers@.len() as int) =~= subscribers@);
        let d = NewsletterDispatch { recipients, position: 0, failed: Vec::new() };
        assert(d.failures() =~= Seq::<Seq<char>>::empty());
        d
    }

    /// The recipient to attempt next, or `None` when every one was attempted.
    pub fn next_recipient(&self) -> (r: Option<String>)
        requires
            self.wf(),
        ensures
            self.position() < self.recipients().len() ==> (r matches Some(e) && e@ == self.recipients()[self.position() as int]),
            self.position() == self.recipients().len() ==> r is None,
    {
        if self.position < self.recipients.len() {
            Some(String::from_str(self.recipients[self.position].as_str()))
        } else {
            None
        }
    }

    /// Records whether the delivery to the current recipient succeeded, and
    /// moves on to the next either way.
    pub fn record_outcome(&mut self, delivered: bool)
        requires
            old(self).wf(),
            old(self).position() < old(self).recipients().len(),
        ensures
            final(self).wf(),
            record_step(*old(self), *final(self), delivered),
    {
        let n = self.recipients.len();
        assert(self.recipients().len() == n);
        if !delivered {
            let e = String::from_str(self.recipients[self.position].as_str());
            self.failed.push(e);
        }
        self.position = self.position + 1;
        assert(self.recipients() =~= old(self).recipients());
        assert(self.failures() =~= if delivered {
            old(self).failures()
        } else {
            old(self).failures().push(old(self).recipients()[old(self).position() as int])
        });
    }

    /// The recipients whose delivery failed, for the caller's log.
    pub fn failed_recipients(&self) -> (r: Vec<String>)
        ensures
            r@.map_values(|s: String| s@) == self.failures(),
    {
        let mut out: Vec<String> = Vec::new();
        let mut i: usize = 0;
        while i < self.failed.len()
            invariant
                i <= self.failed@.len(),
                out@.len() == i,
                forall|k: int| 0 <= k < i ==> (#[trigger] out@[k])@ == self.failed@[k]@,
            decreases self.failed@.len() - i,
        {
            out.push(String::from_str(self.failed[i].as_str()));
            i = i + 1;
        }
        assert(out@.map_values(|s: String| s@) =~= self.failures());
        out
    }

    /// Whether every recipient was attempted.
    pub fn is_finished(&self) -> (r: bool)
        ensures
            r == (self.position() >= self.recipients().len()),
    {
        self.position >= self.recipients.len()
    }

    /// The outcome of the publish call: a failed delivery is no failure of
    /// the whole.
    pub fn finish(&self) -> (r: Result<(), PublishError>)
        requires
            self.position() == self.recipients().len(),
        ensures
            r is Ok,
    {
        Ok(())
    }
}

/// However each delivery turns out, a run of recorded outcomes attempts
/// every recipient once, in order: after one outcome per recipient the
/// dispatch is finished, and its failures are exactly the recipients whose
/// delivery failed.
pub proof fn lemma_every_recipient_attempted(states: Seq<NewsletterDispatch>, delivered: Seq<bool>)
    requires
        states.len() == delivered.len() + 1,
        states[0].position() == 0,
        states[0].failures().len() == 0,
        delivered.len() <= states[0].recipients().len(),
        forall|i: int| 0 <= i < delivered.len() ==> record_step(#[trigger] states[i], states[i + 1], delivered[i]),
    ensures
        states.last().recipients() == states[0].recipients(),
        states.last().position() == delivered.len(),
        states.last().failures() == failed_recipients(states[0].recipients(), delivered),
    decreases delivered.len(),
{
    if delivered.len() == 0 {
        assert(states[0].failures() =~= Seq::<Seq<char>>::empty());
    } else {
        let n = delivered.len() - 1;
        let s2 = states.drop_last();
        let d2 = delivered.drop_last();
        assert forall|i: int| 0 <= i < d2.len() implies record_step(#[trigger] s2[i], s2[i + 1], d2[i]) by {
            assert(record_step(states[i], states[i + 1], delivered[i]));
        }
        lemma_every_recipient_attempted(s2, d2);
        assert(record_step(states[n], states[n + 1], delivered[n]));
    }
}

} // verus!
