//! Subscribers and their confirmation tokens, held in memory with the
//! storage constraints of the service: unique ids, emails and tokens, every
//! token naming a subscriber, and no subscriber visible without a token.

use vstd::prelude::*;
use vstd::string::*;

use crate::domain::{
    invalid_email_message, invalid_name_message, str_eq, valid_email, valid_name, FormData,
    NewSubscriber,
};

verus! {

#[derive(Clone, Copy, Debug, PartialEq, Eq, Structural)]
pub enum SubscriptionStatus {
    PendingConfirmation,
    Confirmed,
}

/// The message that denies a confirmation.
pub const UNKNOWN_TOKEN_MESSAGE: &'static str = "No associated subscriber id was found for the provided subscription token";

/// The length of a confirmation token.
pub const TOKEN_LEN: usize = 25;

/// Why a registration failed.
pub enum SubscribeError {
    Validation(String),
    UnexpectedError(StorageError),
}

impl SubscribeError {
    /// The HTTP status that answers this failure: 400 for bad input, 500
    /// for a fault.
    pub fn status_code(&self) -> (r: u16)
        ensures
            r == if self is Validation { 400u16 } else { 500u16 },
    {
        match self {
            SubscribeError::Validation(_) => 400,
            SubscribeError::UnexpectedError(_) => 500,
        }
    }
}

/// The query of a confirmation request.
pub struct Parameters {
    pub subscription_token: String,
}

/// Why a confirmation failed.
pub enum ConfirmError {
    Unauthorized(String),
    Unexpected(String),
}

impl ConfirmError {
    /// The HTTP status that answers this failure: 401 for a denial, 500 for
    /// a fault.
    pub fn status_code(&self) -> (r: u16)
        ensures
            r == if self is Unauthorized { 401u16 } else { 500u16 },
    {
        match self {
            ConfirmError::Unauthorized(_) => 401,
            ConfirmError::Unexpected(_) => 500,
        }
    }
}

/// A stored subscriber row.
pub struct Subscriber {
    pub id: u128,
    pub email: String,
    pub name: String,
    pub subscribed_at: i64,
    pub status: SubscriptionStatus,
}

/// A stored token row: the token and the subscriber it confirms.
pub struct TokenRecord {
    pub token: String,
    pub subscriber_id: u128,
}

/// A violated storage constraint.
#[derive(Clone, Copy, Debug, PartialEq, Eq, Structural)]
pub enum StorageError {
    DuplicateId,
    DuplicateEmail,
    DuplicateToken,
    UnknownSubscriber,
    MissingToken,
    CapacityExceeded,
}

/// The most rows of one kind that the registry holds.
pub const MAX_ROWS: usize = 1000000000;

/// The failure of storing a token row.
pub struct StoreTokenError(pub StorageError);

pub open spec fn has_subscriber(s: Seq<Subscriber>, id: u128) -> bool {
    exists|i: int| 0 <= i < s.len() && (#[trigger] s[i]).id == id
}

pub open spec fn has_email(s: Seq<Subscriber>, email: Seq<char>) -> bool {
    exists|i: int| 0 <= i < s.len() && (#[trigger] s[i]).email@ == email
}

pub open spec fn has_token(t: Seq<TokenRecord>, token: Seq<char>) -> bool {
    exists|i: int| 0 <= i < t.len() && (#[trigger] t[i]).token@ == token
}

pub open spec fn has_token_for(t: Seq<TokenRecord>, id: u128) -> bool {
    exists|i: int| 0 <= i < t.len() && (#[trigger] t[i]).subscriber_id == id
}

/// The subscriber that `token` confirms, if it was issued.
pub open spec fn token_owner(t: Seq<TokenRecord>, token: Seq<char>) -> Option<u128> {
    if has_token(t, token) {
        Some(t[choose|i: int| 0 <= i < t.len() && (#[trigger] t[i]).token@ == token].subscriber_id)
    } else {
        None
    }
}

/// The status of the subscriber with `id`, if there is one.
pub open spec fn status_of(s: Seq<Subscriber>, id: u128) -> Option<SubscriptionStatus> {
    if has_subscriber(s, id) {
        Some(s[choose|i: int| 0 <= i < s.len() && (#[trigger] s[i]).id == id].status)
    } else {
        None
    }
}

/// Ids, emails and tokens are unique, and every token names a subscriber.
pub open spec fn constraints_hold(s: Seq<Subscriber>, t: Seq<TokenRecord>) -> bool {
    &&& forall|i: int, j: int|
        0 <= i < s.len() && 0 <= j < s.len() && i != j ==> (#[trigger] s[i]).id != (#[trigger] s[j]).id
    &&& forall|i: int, j: int|
        0 <= i < s.len() && 0 <= j < s.len() && i != j ==> (#[trigger] s[i]).email@ != (#[trigger] s[j]).email@
    &&& forall|i: int, j: int|
        0 <= i < t.len() && 0 <= j < t.len() && i != j ==> (#[trigger] t[i]).token@ != (#[trigger] t[j]).token@
    &&& forall|i: int| 0 <= i < t.len() ==> has_subscriber(s, (#[trigger] t[i]).subscriber_id)
}

/// Every subscriber has a token.
pub open spec fn every_subscriber_has_token(s: Seq<Subscriber>, t: Seq<TokenRecord>) -> bool {
    forall|i: int| 0 <= i < s.len() ==> has_token_for(t, (#[trigger] s[i]).id)
}

/// The rows after marking the subscriber with `id` as confirmed.
pub open spec fn confirm_rows(s: Seq<Subscriber>, id: u128) -> Seq<Subscriber> {
    Seq::new(
        s.len(),
        |i: int|
            if s[i].id == id {
                Subscriber {
                    id: s[i].id,
                    email: s[i].email,
                    name: s[i].name,
                    subscribed_at: s[i].subscribed_at,
                    status: SubscriptionStatus::Confirmed,
                }
            } else {
                s[i]
            },
    )
}

/// A new, pending subscriber row.
pub open spec fn pending_row(
    id: u128,
    email: Seq<char>,
    name: Seq<char>,
    subscribed_at: i64,
    row: Subscriber,
) -> bool {
    &&& row.id == id
    &&& row.email@ == email
    &&& row.name@ == name
    &&& row.subscribed_at == subscribed_at
    &&& row.status == SubscriptionStatus::PendingConfirmation
}

/// Pending changes that become visible together on commit, or not at all.
pub struct UnitOfWork {
    subscribers: Vec<Subscriber>,
    tokens: Vec<TokenRecord>,
}

/// The stored subscribers and tokens.
pub struct SubscriberRegistry {
    subscribers: Vec<Subscriber>,
    tokens: Vec<TokenRecord>,
}

fn subscriber_at<'a>(a: &'a Vec<Subscriber>, b: &'a Vec<Subscriber>, i: usize) -> (r: &'a Subscriber)
    requires
        i < a@.len() + b@.len(),
    ensures
        *r == (a@ + b@)[i as int],
{
    if i < a.len() {
        &a[i]
    } else {
        &b[i - a.len()]
    }
}

fn token_at<'a>(a: &'a Vec<TokenRecord>, b: &'a Vec<TokenRecord>, i: usize) -> (r: &'a TokenRecord)
    requires
        i < a@.len() + b@.len(),
    ensures
        *r == (a@ + b@)[i as int],
{
    if i < a.len() {
        &a[i]
    } else {
        &b[i - a.len()]
    }
}

fn find_id(a: &Vec<Subscriber>, b: &Vec<Subscriber>, id: u128) -> (r: bool)
    requires
        a@.len() + b@.len() <= usize::MAX,
    ensures
        r == has_subscriber(a@ + b@, id),
{
    let n = a.len() + b.len();
    let mut i: usize = 0;
    while i < n
        invariant
            n == (a@ + b@).len(),
            i <= n,
            forall|j: int| 0 <= j < i ==> (#[trigger] (a@ + b@)[j]).id != id,
        decreases n - i,
    {
        if subscriber_at(a, b, i).id == id {
            return true;
        }
        i = i + 1;
    }
    false
}

fn find_email(a: &Vec<Subscriber>, b: &Vec<Subscriber>, email: &str) -> (r: bool)
    requires
        a@.len() + b@.len() <= usize::MAX,
    ensures
        r == has_email(a@ + b@, email@),
{
    let n = a.len() + b.len();
    let mut i: usize = 0;
    while i < n
        invariant
            n == (a@ + b@).len(),
            i <= n,
            forall|j: int| 0 <= j < i ==> (#[trigger] (a@ + b@)[j]).email@ != email@,
        decreases n - i,
    {
        if str_eq(subscriber_at(a, b, i).email.as_str(), email) {
            return true;
        }
        i = i + 1;
    }
    false
}

fn find_token(a: &Vec<TokenRecord>, b: &Vec<TokenRecord>, token: &str) -> (r: bool)
    requires
        a@.len() + b@.len() <= usize::MAX,
    ensures
        r == has_token(a@ + b@, token@),
{
    let n = a.len() + b.len();
    let mut i: usize = 0;
    while i < n
        invariant
            n == (a@ + b@).len(),
            i <= n,
            forall|j: int| 0 <= j < i ==> (#[trigger] (a@ + b@)[j]).token@ != token@,
        decreases n - i,
    {
        if str_eq(token_at(a, b, i).token.as_str(), token) {
            return true;
        }
        i = i + 1;
    }
    false
}

fn find_token_for(a: &Vec<TokenRecord>, b: &Vec<TokenRecord>, id: u128) -> (r: bool)
    requires
        a@.len() + b@.len() <= usize::MAX,
    ensures
        r == has_token_for(a@ + b@, id),
{
    let n = a.len() + b.len();
    let mut i: usize = 0;
    while i < n
        invariant
            n == (a@ + b@).len(),
            i <= n,
            forall|j: int| 0 <= j < i ==> (#[trigger] (a@ + b@)[j]).subscriber_id != id,
        decreases n - i,
    {
        if token_at(a, b, i).subscriber_id == id {
            return true;
        }
        i = i + 1;
    }
    false
}

proof fn lemma_subscriber_kept(s: Seq<Subscriber>, row: Subscriber, id: u128)
    ensures
        has_subscriber(s, id) ==> has_subscriber(s.push(row), id),
{
    if has_subscriber(s, id) {
        let i = choose|i: int| 0 <= i < s.len() && (#[trigger] s[i]).id == id;
        assert(s.push(row)[i] == s[i]);
    }
}

proof fn lemma_token_for_kept(a: Seq<TokenRecord>, b: Seq<TokenRecord>, id: u128)
    ensures
        has_token_for(a, id) ==> has_token_for(a + b, id),
{
    if has_token_for(a, id) {
        let i = choose|i: int| 0 <= i < a.len() && (#[trigger] a[i]).subscriber_id == id;
        assert((a + b)[i] == a[i]);
    }
}

proof fn lemma_push_subscriber(s: Seq<Subscriber>, t: Seq<TokenRecord>, row: Subscriber)
    requires
        constraints_hold(s, t),
        !has_subscriber(s, row.id),
        !has_email(s, row.email@),
    ensures
        constraints_hold(s.push(row), t),
{
    let s2 = s.push(row);
    assert forall|i: int, j: int|
        0 <= i < s2.len() && 0 <= j < s2.len() && i != j implies (#[trigger] s2[i]).id != (#[trigger] s2[j]).id
        && s2[i].email@ != s2[j].email@ by {
        if i == s.len() {
            assert(s[j] == s2[j]);
        } else if j == s.len() {
            assert(s[i] == s2[i]);
        } else {
            assert(s[i] == s2[i] && s[j] == s2[j]);
        }
    }
    assert forall|i: int| 0 <= i < t.len() implies has_subscriber(s2, (#[trigger] t[i]).subscriber_id) by {
        lemma_subscriber_kept(s, row, t[i].subscriber_id);
    }
}

proof fn lemma_push_token(s: Seq<Subscriber>, t: Seq<TokenRecord>, rec: TokenRecord)
    requires
        constraints_hold(s, t),
        !has_token(t, rec.token@),
        has_subscriber(s, rec.subscriber_id),
    ensures
        constraints_hold(s, t.push(rec)),
{
    let t2 = t.push(rec);
    assert forall|i: int, j: int|
        0 <= i < t2.len() && 0 <= j < t2.len() && i != j implies (#[trigger] t2[i]).token@ != (#[trigger] t2[j]).token@ by {
        if i == t.len() {
            assert(t[j] == t2[j]);
        } else if j == t.len() {
            assert(t[i] == t2[i]);
        } else {
            assert(t[i] == t2[i] && t[j] == t2[j]);
        }
    }
    assert forall|i: int| 0 <= i < t2.len() implies has_subscriber(s, (#[trigger] t2[i]).subscriber_id) by {
        if i < t.len() {
            assert(t[i] == t2[i]);
        }
    }
}

impl UnitOfWork {
    pub closed spec fn pending_subscribers(&self) -> Seq<Subscriber> {
        self.subscribers@
    }

    pub closed spec fn pending_tokens(&self) -> Seq<TokenRecord> {
        self.tokens@
    }

    /// The rows that committing over `registry` would make visible.
    pub open spec fn merged_subscribers(&self, registry: &SubscriberRegistry) -> Seq<Subscriber> {
        registry.subscribers() + self.pending_subscribers()
    }

    pub open spec fn merged_tokens(&self, registry: &SubscriberRegistry) -> Seq<TokenRecord> {
        registry.tokens() + self.pending_tokens()
    }

    /// The pending rows keep the constraints together with `registry`'s.
    pub open spec fn consistent_with(&self, registry: &SubscriberRegistry) -> bool {
        &&& constraints_hold(self.merged_subscribers(registry), self.merged_tokens(registry))
        &&& self.merged_subscribers(registry).len() <= MAX_ROWS
        &&& self.merged_tokens(registry).len() <= MAX_ROWS
    }

    /// Adds a pending subscriber row with `id`, unless its id or email is
    /// taken or the registry is full.
    pub fn insert_subscriber(
        &mut self,
        registry: &SubscriberRegistry,
        new_subscriber: &NewSubscriber,
        id: u128,
        subscribed_at: i64,
    ) -> (r: Result<u128, StorageError>)
        requires
            old(self).consistent_with(registry),
        ensures
            final(self).consistent_with(registry),
            final(self).pending_tokens() == old(self).pending_tokens(),
            has_subscriber(old(self).merged_subscribers(registry), id) ==> r == Err::<u128, StorageError>(StorageError::DuplicateId),
            !has_subscriber(old(self).merged_subscribers(registry), id) && has_email(old(self).merged_subscribers(registry), new_subscriber.email@)
                ==> r == Err::<u128, StorageError>(StorageError::DuplicateEmail),
            !has_subscriber(old(self).merged_subscribers(registry), id) && !has_email(old(self).merged_subscribers(registry), new_subscriber.email@)
                && old(self).merged_subscribers(registry).len() == MAX_ROWS
                ==> r == Err::<u128, StorageError>(StorageError::CapacityExceeded),
            !has_subscriber(old(self).merged_subscribers(registry), id) && !has_email(old(self).merged_subscribers(registry), new_subscriber.email@)
                && old(self).merged_subscribers(registry).len() < MAX_ROWS ==> r is Ok,
            r is Err ==> final(self).pending_subscribers() == old(self).pending_subscribers(),
            r is Ok ==> r == Ok::<u128, StorageError>(id) && final(self).pending_subscribers().len() == old(self).pending_subscribers().len() + 1
                && final(self).pending_subscribers().drop_last() == old(self).pending_subscribers()
                && pending_row(id, new_subscriber.email@, new_subscriber.name@, subscribed_at, final(self).pending_subscribers().last()),
    {
        if find_id(&registry.subscribers, &self.subscribers, id) {
            return Err(StorageError::DuplicateId);
        }
        if find_email(&registry.subscribers, &self.subscribers, new_subscriber.email.as_str()) {
            return Err(StorageError::DuplicateEmail);
        }
        if registry.subscribers.len() + self.subscribers.len() >= MAX_ROWS {
            return Err(StorageError::CapacityExceeded);
        }
        let row = Subscriber {
            id,
            email: String::from_str(new_subscriber.email.as_str()),
            name: String::from_str(new_subscriber.name.as_str()),
            subscribed_at,
            status: SubscriptionStatus::PendingConfirmation,
        };
        proof {
            lemma_push_subscriber(self.merged_subscribers(registry), self.merged_tokens(registry), row);
        }
        self.subscribers.push(row);
        proof {
            assert(self.merged_subscribers(registry) =~= old(self).merged_subscribers(registry).push(row));
            assert(self.pending_subscribers().drop_last() =~= old(self).pending_subscribers());
        }
        Ok(id)
    }

    /// Adds a pending token row for the subscriber with `subscriber_id`,
    /// unless the token is taken, no such subscriber is stored or pending, or
    /// the registry is full.
    pub fn store_token(
        &mut self,
        registry: &SubscriberRegistry,
        subscriber_id: u128,
        subscription_token: &str,
    ) -> (r: Result<(), StoreTokenError>)
        requires
            old(self).consistent_with(registry),
        ensures
            final(self).consistent_with(registry),
            final(self).pending_subscribers() == old(self).pending_subscribers(),
            has_token(old(self).merged_tokens(registry), subscription_token@) ==> r matches Err(StoreTokenError(StorageError::DuplicateToken)),
            !has_token(old(self).merged_tokens(registry), subscription_token@) && !has_subscriber(old(self).merged_subscribers(registry), subscriber_id)
                ==> r matches Err(StoreTokenError(StorageError::UnknownSubscriber)),
            !has_token(old(self).merged_tokens(registry), subscription_token@) && has_subscriber(old(self).merged_subscribers(registry), subscriber_id)
                && old(self).merged_tokens(registry).len() == MAX_ROWS
                ==> r matches Err(StoreTokenError(StorageError::CapacityExceeded)),
            !has_token(old(self).merged_tokens(registry), subscription_token@) && has_subscriber(old(self).merged_subscribers(registry), subscriber_id)
                && old(self).merged_tokens(registry).len() < MAX_ROWS ==> r is Ok,
            r is Err ==> final(self).pending_tokens() == old(self).pending_tokens(),
            r is Ok ==> final(self).pending_tokens().len() == old(self).pending_tokens().len() + 1
                && final(self).pending_tokens().drop_last() == old(self).pending_tokens()
                && final(self).pending_tokens().last().token@ == subscription_token@
                && final(self).pending_tokens().last().subscriber_id == subscriber_id,
    {
        if find_token(&registry.tokens, &self.tokens, subscription_token) {
            return Err(StoreTokenError(StorageError::DuplicateToken));
        }
        if !find_id(&registry.subscribers, &self.subscribers, subscriber_id) {
            return Err(StoreTokenError(StorageError::UnknownSubscriber));
        }
        if registry.tokens.len() + self.tokens.len() >= MAX_ROWS {
            return Err(StoreTokenError(StorageError::CapacityExceeded));
        }
        let rec = TokenRecord { token: String::from_str(subscription_token), subscriber_id };
        proof {
            lemma_push_token(self.merged_subscribers(registry), self.merged_tokens(registry), rec);
        }
        self.tokens.push(rec);
        proof {
            assert(self.merged_tokens(registry) =~= old(self).merged_tokens(registry).push(rec));
            assert(self.pending_tokens().drop_last() =~= old(self).pending_tokens());
        }
        Ok(())
    }
}

impl SubscriberRegistry {
    pub closed spec fn subscribers(&self) -> Seq<Subscriber> {
        self.subscribers@
    }

    pub closed spec fn tokens(&self) -> Seq<TokenRecord> {
        self.tokens@
    }

    /// The constraints hold and no subscriber is visible without a token.
    pub open spec fn wf(&self) -> bool {
        &&& constraints_hold(self.subscribers(), self.tokens())
        &&& every_subscriber_has_token(self.subscribers(), self.tokens())
        &&& self.subscribers().len() <= MAX_ROWS
        &&& self.tokens().len() <= MAX_ROWS
    }

    /// An empty registry.
    pub fn new() -> (r: SubscriberRegistry)
        ensures
            r.wf(),
            r.subscribers().len() == 0,
            r.tokens().len() == 0,
    {
        SubscriberRegistry { subscribers: Vec::new(), tokens: Vec::new() }
    }

    /// Opens a unit of work with nothing pending.
    pub fn begin(&self) -> (u: UnitOfWork)
        requires
            self.wf(),
        ensures
            u.consistent_with(self),
            u.pending_subscribers().len() == 0,
            u.pending_tokens().len() == 0,
    {
        let u = UnitOfWork { subscribers: Vec::new(), tokens: Vec::new() };
        assert(u.merged_subscribers(self) =~= self.subscribers());
        assert(u.merged_tokens(self) =~= self.tokens());
        u
    }

    /// Makes every pending row visible at once, provided each pending
    /// subscriber has a token; otherwise fails and changes nothing.
    pub fn commit(&mut self, mut work: UnitOfWork) -> (r: Result<(), StorageError>)
        requires
            old(self).wf(),
            work.consistent_with(old(self)),
        ensures
            final(self).wf(),
            every_subscriber_has_token(work.merged_subscribers(old(self)), work.merged_tokens(old(self)))
                ==> r is Ok && final(self).subscribers() == work.merged_subscribers(old(self))
                && final(self).tokens() == work.merged_tokens(old(self)),
            !every_subscriber_has_token(work.merged_subscribers(old(self)), work.merged_tokens(old(self)))
                ==> r == Err::<(), StorageError>(StorageError::MissingToken) && final(self).subscribers() == old(self).subscribers()
                && final(self).tokens() == old(self).tokens(),
    {
        let ghost ms = work.merged_subscribers(self);
        let ghost mt = work.merged_tokens(self);
        let n = work.subscribers.len();
        let mut i: usize = 0;
        while i < n
            invariant
                n == work.subscribers@.len(),
                self.subscribers@ == old(self).subscribers@,
                self.tokens@ == old(self).tokens@,
                old(self).wf(),
                ms == work.merged_subscribers(old(self)),
                mt == work.merged_tokens(old(self)),
                ms == self.subscribers@ + work.subscribers@,
                mt == self.tokens@ + work.tokens@,
                mt.len() <= MAX_ROWS,
                i <= n,
                forall|j: int| 0 <= j < i ==> has_token_for(mt, (#[trigger] work.subscribers@[j]).id),
            decreases n - i,
        {
            if !find_token_for(&self.tokens, &work.tokens, work.subscribers[i].id) {
                proof {
                    let k = self.subscribers@.len() + i;
                    assert(ms[k] == work.subscribers@[i as int]);
                    assert(!has_token_for(mt, ms[k].id));
                }
                return Err(StorageError::MissingToken);
            }
            i = i + 1;
        }
        proof {
            assert forall|j: int| 0 <= j < ms.len() implies has_token_for(mt, (#[trigger] ms[j]).id) by {
                if j < self.subscribers@.len() {
                    assert(ms[j] == self.subscribers@[j]);
                    lemma_token_for_kept(self.tokens@, work.tokens@, ms[j].id);
                } else {
                    assert(ms[j] == work.subscribers@[j - self.subscribers@.len()]);
                }
            }
        }
        self.subscribers.append(&mut work.subscribers);
        self.tokens.append(&mut work.tokens);
        Ok(())
    }
}

pub open spec fn is_alphanumeric_ascii(c: char) -> bool {
    ('A' <= c && c <= 'Z') || ('a' <= c && c <= 'z') || ('0' <= c && c <= '9')
}

/// The shape of an issued confirmation token.
pub open spec fn token_shape(t: Seq<char>) -> bool {
    t.len() == TOKEN_LEN && forall|i: int| 0 <= i < t.len() ==> is_alphanumeric_ascii(#[trigger] t[i])
}

/// Relies on rand's `thread_rng` sampled with `Alphanumeric`: one byte of
/// `A-Z`, `a-z` or `0-9` from a cryptographically secure generator.
#[verifier::external_body]
fn random_alphanumeric() -> (c: char)
    ensures
        is_alphanumeric_ascii(c),
{
    char::from(rand::Rng::sample(&mut rand::thread_rng(), rand::distributions::Alphanumeric))
}

/// Relies on `String::push`: appends one character.
#[verifier::external_body]
fn push_char(s: &mut String, c: char)
    ensures
        final(s)@ == old(s)@.push(c),
{
    s.push(c)
}

/// Relies on uuid's `Uuid::new_v4`, read as its 128-bit integer: a random id.
#[verifier::external_body]
fn new_subscriber_id() -> (r: u128) {
    uuid::Uuid::new_v4().as_u128()
}

/// Relies on chrono's `Utc::now`, read as seconds since the Unix epoch.
#[verifier::external_body]
fn now_timestamp() -> (r: i64) {
    chrono::Utc::now().timestamp()
}

/// A random case-sensitive alphanumeric token of `TOKEN_LEN` characters.
pub fn generate_subscription_token() -> (r: String)
    ensures
        token_shape(r@),
{
    let mut token = String::new();
    let mut i: usize = 0;
    while i < TOKEN_LEN
        invariant
            i <= TOKEN_LEN,
            token@.len() == i,
            forall|j: int| 0 <= j < i ==> is_alphanumeric_ascii(#[trigger] token@[j]),
        decreases TOKEN_LEN - i,
    {
        let c = random_alphanumeric();
        push_char(&mut token, c);
        i = i + 1;
    }
    token
}

/// The registry after a registration added the subscriber row and its token.
pub open spec fn registration_added(
    old: SubscriberRegistry,
    new: SubscriberRegistry,
    id: u128,
    email: Seq<char>,
    name: Seq<char>,
    subscribed_at: i64,
    token: Seq<char>,
) -> bool {
    &&& new.subscribers().len() == old.subscribers().len() + 1
    &&& new.subscribers().drop_last() == old.subscribers()
    &&& pending_row(id, email, name, subscribed_at, new.subscribers().last())
    &&& new.tokens().len() == old.tokens().len() + 1
    &&& new.tokens().drop_last() == old.tokens()
    &&& new.tokens().last().token@ == token
    &&& new.tokens().last().subscriber_id == id
}

pub open spec fn unchanged(old: SubscriberRegistry, new: SubscriberRegistry) -> bool {
    new.subscribers() == old.subscribers() && new.tokens() == old.tokens()
}

/// The constraint that a registration with these values would break, if any.
pub open spec fn registration_conflict(
    reg: SubscriberRegistry,
    id: u128,
    email: Seq<char>,
    token: Seq<char>,
) -> Option<StorageError> {
    if has_subscriber(reg.subscribers(), id) {
        Some(StorageError::DuplicateId)
    } else if has_email(reg.subscribers(), email) {
        Some(StorageError::DuplicateEmail)
    } else if reg.subscribers().len() == MAX_ROWS {
        Some(StorageError::CapacityExceeded)
    } else if has_token(reg.tokens(), token) {
        Some(StorageError::DuplicateToken)
    } else if reg.tokens().len() == MAX_ROWS {
        Some(StorageError::CapacityExceeded)
    } else {
        None
    }
}

/// What a registration with given id, token and time does.
pub open spec fn register_with_result(
    old: SubscriberRegistry,
    new: SubscriberRegistry,
    email: Seq<char>,
    name: Seq<char>,
    id: u128,
    token: Seq<char>,
    subscribed_at: i64,
    r: Result<(), SubscribeError>,
) -> bool {
    if !valid_name(name) {
        &&& r matches Err(SubscribeError::Validation(m)) && m@ == invalid_name_message(name)
        &&& unchanged(old, new)
    } else if !valid_email(email) {
        &&& r matches Err(SubscribeError::Validation(m)) && m@ == invalid_email_message(email)
        &&& unchanged(old, new)
    } else if registration_conflict(old, id, email, token) is Some {
        &&& r matches Err(SubscribeError::UnexpectedError(e)) && Some(e) == registration_conflict(old, id, email, token)
        &&& unchanged(old, new)
    } else {
        &&& r is Ok
        &&& registration_added(old, new, id, email, name, subscribed_at, token)
    }
}

/// What a registration does, whatever id, token and time were drawn: it can
/// fail only on a conflict with the drawn id or token, so a valid form always
/// registers into an empty registry.
pub open spec fn register_result(
    old: SubscriberRegistry,
    new: SubscriberRegistry,
    email: Seq<char>,
    name: Seq<char>,
    r: Result<String, SubscribeError>,
) -> bool {
    if !valid_name(name) {
        &&& r matches Err(SubscribeError::Validation(m)) && m@ == invalid_name_message(name)
        &&& unchanged(old, new)
    } else if !valid_email(email) {
        &&& r matches Err(SubscribeError::Validation(m)) && m@ == invalid_email_message(email)
        &&& unchanged(old, new)
    } else {
        &&& old.subscribers().len() == 0 ==> r is Ok
        &&& r is Err ==> unchanged(old, new)
        &&& !(r matches Err(SubscribeError::Validation(_)))
        &&& r matches Err(SubscribeError::UnexpectedError(e)) ==> exists|id: u128, t: Seq<char>|
            token_shape(t) && #[trigger] registration_conflict(old, id, email, t) == Some(e)
        &&& r is Err || (r matches Ok(t) && token_shape(t@) && exists|id: u128, ts: i64|
            registration_conflict(old, id, email, t@) is None
            && #[trigger] registration_added(old, new, id, email, name, ts, t@))
    }
}

/// What a confirmation does.
pub open spec fn confirm_result(
    old: SubscriberRegistry,
    new: SubscriberRegistry,
    token: Seq<char>,
    r: Result<(), ConfirmError>,
) -> bool {
    match token_owner(old.tokens(), token) {
        None => {
            &&& r matches Err(ConfirmError::Unauthorized(m)) && m@ == UNKNOWN_TOKEN_MESSAGE@
            &&& unchanged(old, new)
        },
        Some(id) => {
            &&& r is Ok
            &&& new.subscribers() == confirm_rows(old.subscribers(), id)
            &&& new.tokens() == old.tokens()
        },
    }
}

proof fn lemma_confirm_rows_keeps(s: Seq<Subscriber>, t: Seq<TokenRecord>, id: u128)
    requires
        constraints_hold(s, t),
        every_subscriber_has_token(s, t),
    ensures
        constraints_hold(confirm_rows(s, id), t),
        every_subscriber_has_token(confirm_rows(s, id), t),
        forall|x: u128| has_subscriber(confirm_rows(s, id), x) == has_subscriber(s, x),
{
    let c = confirm_rows(s, id);
    assert forall|i: int, j: int|
        0 <= i < c.len() && 0 <= j < c.len() && i != j implies (#[trigger] c[i]).id != (#[trigger] c[j]).id
        && c[i].email@ != c[j].email@ by {
        assert(s[i].id == c[i].id && s[j].id == c[j].id);
    }
    assert forall|x: u128| has_subscriber(c, x) == has_subscriber(s, x) by {
        if has_subscriber(s, x) {
            let i = choose|i: int| 0 <= i < s.len() && (#[trigger] s[i]).id == x;
            assert(c[i].id == x);
        }
        if has_subscriber(c, x) {
            let i = choose|i: int| 0 <= i < c.len() && (#[trigger] c[i]).id == x;
            assert(s[i].id == x);
        }
    }
    assert forall|i: int| 0 <= i < t.len() implies has_subscriber(c, (#[trigger] t[i]).subscriber_id) by {
        assert(has_subscriber(s, t[i].subscriber_id));
    }
    assert forall|i: int| 0 <= i < c.len() implies has_token_for(t, (#[trigger] c[i]).id) by {
        assert(c[i].id == s[i].id);
    }
}

impl SubscriberRegistry {
    /// The stored subscriber rows, in the order they were committed.
    pub fn subscriber_rows(&self) -> (r: &Vec<Subscriber>)
        ensures
            r@ == self.subscribers(),
    {
        &self.subscribers
    }

    /// The subscriber that `subscription_token` confirms, if it was issued.
    pub fn get_subscriber_id_from_token(&self, subscription_token: &str) -> (r: Option<u128>)
        requires
            self.wf(),
        ensures
            r == token_owner(self.tokens(), subscription_token@),
    {
        let n = self.tokens.len();
        let mut i: usize = 0;
        while i < n
            invariant
                n == self.tokens@.len(),
                self.wf(),
                i <= n,
                forall|j: int| 0 <= j < i ==> (#[trigger] self.tokens@[j]).token@ != subscription_token@,
            decreases n - i,
        {
            if str_eq(self.tokens[i].token.as_str(), subscription_token) {
                proof {
                    let t = self.tokens@;
                    assert(has_token(t, subscription_token@));
                    let c = choose|c: int| 0 <= c < t.len() && (#[trigger] t[c]).token@ == subscription_token@;
                    if c != i as int {
                        assert(t[c].token@ != t[i as int].token@);
                    }
                }
                return Some(self.tokens[i].subscriber_id);
            }
            i = i + 1;
        }
        None
    }

    /// The status of the subscriber with `id`, if there is one.
    pub fn subscription_status(&self, id: u128) -> (r: Option<SubscriptionStatus>)
        requires
            self.wf(),
        ensures
            r == status_of(self.subscribers(), id),
    {
        let n = self.subscribers.len();
        let mut i: usize = 0;
        while i < n
            invariant
                n == self.subscribers@.len(),
                self.wf(),
                i <= n,
                forall|j: int| 0 <= j < i ==> (#[trigger] self.subscribers@[j]).id != id,
            decreases n - i,
        {
            if self.subscribers[i].id == id {
                proof {
                    let s = self.subscribers@;
                    assert(has_subscriber(s, id));
                    let c = choose|c: int| 0 <= c < s.len() && (#[trigger] s[c]).id == id;
                    if c != i as int {
                        assert(s[c].id != s[i as int].id);
                    }
                }
                return Some(self.subscribers[i].status);
            }
            i = i + 1;
        }
        None
    }

    /// Marks the subscriber with `subscriber_id` as confirmed; a subscriber
    /// already confirmed, or none at all, is left as it is.
    pub fn confirm_subscriber(&mut self, subscriber_id: u128)
        requires
            old(self).wf(),
        ensures
            final(self).wf(),
            final(self).subscribers() == confirm_rows(old(self).subscribers(), subscriber_id),
            final(self).tokens() == old(self).tokens(),
    {
        let ghost s0 = self.subscribers@;
        let n = self.subscribers.len();
        let mut i: usize = 0;
        while i < n
            invariant
                n == s0.len(),
                self.subscribers@.len() == n,
                self.tokens@ == old(self).tokens@,
                s0 == old(self).subscribers@,
                i <= n,
                forall|j: int| 0 <= j < i ==> self.subscribers@[j] == #[trigger] confirm_rows(s0, subscriber_id)[j],
                forall|j: int| i <= j < n ==> self.subscribers@[j] == #[trigger] s0[j],
            decreases n - i,
        {
            if self.subscribers[i].id == subscriber_id {
                self.subscribers[i].status = SubscriptionStatus::Confirmed;
            }
            i = i + 1;
        }
        assert(self.subscribers@ =~= confirm_rows(s0, subscriber_id));
        proof {
            lemma_confirm_rows_keeps(s0, self.tokens@, subscriber_id);
        }
    }

    /// Confirms the subscriber that `subscription_token` names; an unknown
    /// token is denied. Tokens stay valid, so confirming again succeeds.
    pub fn confirm(&mut self, subscription_token: &str) -> (r: Result<(), ConfirmError>)
        requires
            old(self).wf(),
        ensures
            final(self).wf(),
            confirm_result(*old(self), *final(self), subscription_token@, r),
    {
        match self.get_subscriber_id_from_token(subscription_token) {
            Some(id) => {
                self.confirm_subscriber(id);
                Ok(())
            },
            None => Err(ConfirmError::Unauthorized(String::from_str(UNKNOWN_TOKEN_MESSAGE))),
        }
    }
}

impl SubscriberRegistry {
    /// Validates the form, then inserts the subscriber row and its token row
    /// in one unit of work with the given id, token and time, and commits.
    /// Either both rows become visible or neither does.
    pub fn register_with(
        &mut self,
        form: FormData,
        subscriber_id: u128,
        subscription_token: &str,
        subscribed_at: i64,
    ) -> (r: Result<(), SubscribeError>)
        requires
            old(self).wf(),
        ensures
            final(self).wf(),
            register_with_result(
                *old(self),
                *final(self),
                form.email@,
                form.name@,
                subscriber_id,
                subscription_token@,
                subscribed_at,
                r,
            ),
    {
        let new_subscriber = match NewSubscriber::try_from(form) {
            Ok(n) => n,
            Err(e) => return Err(SubscribeError::Validation(e)),
        };
        let mut work = self.begin();
        assert(work.merged_subscribers(self) =~= self.subscribers());
        assert(work.merged_tokens(self) =~= self.tokens());
        match work.insert_subscriber(self, &new_subscriber, subscriber_id, subscribed_at) {
            Ok(_) => {},
            Err(e) => return Err(SubscribeError::UnexpectedError(e)),
        }
        match work.store_token(self, subscriber_id, subscription_token) {
            Ok(()) => {},
            Err(StoreTokenError(e)) => {
                proof {
                    let ms = work.merged_subscribers(self);
                    assert(ms.last().id == subscriber_id);
                    assert(has_subscriber(ms, subscriber_id));
                    assert(work.merged_tokens(self) =~= self.tokens());
                }
                return Err(SubscribeError::UnexpectedError(e));
            },
        }
        proof {
            let ms = work.merged_subscribers(self);
            let mt = work.merged_tokens(self);
            assert(ms =~= self.subscribers().push(ms.last()));
            assert(ms.drop_last() =~= self.subscribers());
            assert(mt.drop_last() =~= self.tokens());
            assert(mt =~= self.tokens().push(mt.last()));
            assert(work.merged_tokens(self) =~= self.tokens().push(mt.last()));
            assert forall|j: int| 0 <= j < ms.len() implies has_token_for(mt, (#[trigger] ms[j]).id) by {
                if j < self.subscribers().len() {
                    assert(ms[j] == self.subscribers()[j]);
                    lemma_token_for_kept(self.tokens(), work.pending_tokens(), ms[j].id);
                } else {
                    assert(mt[mt.len() - 1].subscriber_id == subscriber_id);
                }
            }
        }
        match self.commit(work) {
            Ok(()) => Ok(()),
            Err(e) => Err(SubscribeError::UnexpectedError(e)),
        }
    }

    /// Registers a subscriber under a fresh random id, with a fresh token,
    /// and returns the token. Sending the confirmation email is left to the
    /// caller, after this returns.
    pub fn register(&mut self, form: FormData) -> (r: Result<String, SubscribeError>)
        requires
            old(self).wf(),
        ensures
            final(self).wf(),
            register_result(*old(self), *final(self), form.email@, form.name@, r),
    {
        proof {
            if old(self).subscribers().len() == 0 && old(self).tokens().len() > 0 {
                assert(has_subscriber(old(self).subscribers(), old(self).tokens()[0].subscriber_id));
            }
        }
        let ghost email = form.email@;
        let ghost name = form.name@;
        let subscriber_id = new_subscriber_id();
        let subscribed_at = now_timestamp();
        let token = generate_subscription_token();
        match self.register_with(form, subscriber_id, token.as_str(), subscribed_at) {
            Ok(()) => {
                assert(registration_added(*old(self), *self, subscriber_id, email, name, subscribed_at, token@));
                Ok(token)
            },
            Err(e) => {
                assert(e is UnexpectedError ==> registration_conflict(*old(self), subscriber_id, email, token@) is Some);
                Err(e)
            },
        }
    }
}

proof fn lemma_last_token_owner(t: Seq<TokenRecord>, s: Seq<Subscriber>)
    requires
        t.len() > 0,
        constraints_hold(s, t),
    ensures
        token_owner(t, t.last().token@) == Some(t.last().subscriber_id),
{
    let k = t.len() - 1;
    assert(t[k].token@ == t.last().token@);
    let c = choose|c: int| 0 <= c < t.len() && (#[trigger] t[c]).token@ == t.last().token@;
    if c != k {
        assert(t[c].token@ != t[k].token@);
    }
}

proof fn lemma_confirmed_status(s: Seq<Subscriber>, id: u128)
    requires
        has_subscriber(s, id),
    ensures
        status_of(confirm_rows(s, id), id) == Some(SubscriptionStatus::Confirmed),
{
    let c = confirm_rows(s, id);
    let i = choose|i: int| 0 <= i < s.len() && (#[trigger] s[i]).id == id;
    assert(c[i].id == id);
    assert(has_subscriber(c, id));
}

/// Registering a valid subscriber and then confirming the returned token
/// succeeds, and afterwards the subscriber that the token names is confirmed.
pub proof fn lemma_register_then_confirm(
    r0: SubscriberRegistry,
    r1: SubscriberRegistry,
    r2: SubscriberRegistry,
    email: Seq<char>,
    name: Seq<char>,
    registered: Result<String, SubscribeError>,
    token: Seq<char>,
    confirmed: Result<(), ConfirmError>,
)
    requires
        r0.wf(),
        r1.wf(),
        register_result(r0, r1, email, name, registered),
        registered matches Ok(t) && t@ == token,
        confirm_result(r1, r2, token, confirmed),
    ensures
        confirmed is Ok,
        token_owner(r2.tokens(), token) is Some,
        status_of(r2.subscribers(), token_owner(r2.tokens(), token)->Some_0) == Some(SubscriptionStatus::Confirmed),
{
    let (id, ts) = choose|id: u128, ts: i64|
        registration_conflict(r0, id, email, token) is None
        && #[trigger] registration_added(r0, r1, id, email, name, ts, token);
    lemma_last_token_owner(r1.tokens(), r1.subscribers());
    let k = r1.subscribers().len() - 1;
    assert(r1.subscribers()[k].id == id);
    lemma_confirmed_status(r1.subscribers(), id);
}

/// A token that was never issued is denied, and nothing changes.
pub proof fn lemma_unknown_token_denied(
    r0: SubscriberRegistry,
    r1: SubscriberRegistry,
    token: Seq<char>,
    confirmed: Result<(), ConfirmError>,
)
    requires
        !has_token(r0.tokens(), token),
        confirm_result(r0, r1, token, confirmed),
    ensures
        confirmed matches Err(ConfirmError::Unauthorized(_)),
        unchanged(r0, r1),
{
}

/// Confirming twice with the same issued token succeeds both times, and the
/// second confirmation changes nothing.
pub proof fn lemma_confirm_twice(
    r0: SubscriberRegistry,
    r1: SubscriberRegistry,
    r2: SubscriberRegistry,
    token: Seq<char>,
    first: Result<(), ConfirmError>,
    second: Result<(), ConfirmError>,
)
    requires
        r0.wf(),
        has_token(r0.tokens(), token),
        confirm_result(r0, r1, token, first),
        confirm_result(r1, r2, token, second),
    ensures
        first is Ok,
        second is Ok,
        unchanged(r1, r2),
        status_of(r2.subscribers(), token_owner(r2.tokens(), token)->Some_0) == Some(SubscriptionStatus::Confirmed),
{
    let id = token_owner(r0.tokens(), token)->Some_0;
    let s = r0.subscribers();
    assert(confirm_rows(confirm_rows(s, id), id) =~= confirm_rows(s, id));
    let i = choose|i: int| 0 <= i < r0.tokens().len() && (#[trigger] r0.tokens()[i]).token@ == token;
    assert(has_subscriber(s, r0.tokens()[i].subscriber_id));
    lemma_confirmed_status(s, id);
}

/// A registration that fails, at whatever step, leaves no row behind: the
/// subscribers and tokens are as they were.
pub proof fn lemma_failed_registration_leaves_no_row(
    r0: SubscriberRegistry,
    r1: SubscriberRegistry,
    email: Seq<char>,
    name: Seq<char>,
    registered: Result<String, SubscribeError>,
)
    requires
        register_result(r0, r1, email, name, registered),
        registered is Err,
    ensures
        r1.subscribers() == r0.subscribers(),
        r1.tokens() == r0.tokens(),
{
}

/// Whatever registrations and confirmations ran, no subscriber is visible
/// without a token that confirms it.
pub proof fn lemma_no_subscriber_without_token(r: SubscriberRegistry, i: int)
    requires
        r.wf(),
        0 <= i < r.subscribers().len(),
    ensures
        has_token_for(r.tokens(), r.subscribers()[i].id),
{
}

/// The welcome message that carries a confirmation link.
pub struct ConfirmationEmail {
    pub subject: String,
    pub html: String,
    pub text: String,
}

/// The link that confirms `token` under `base_url`.
pub open spec fn confirmation_link(base_url: Seq<char>, token: Seq<char>) -> Seq<char> {
    base_url + "/subscriptions/confirm?subscription_token="@ + token
}

/// The welcome email for a new subscriber, linking to the confirmation of
/// `subscription_token`.
pub fn confirmation_email(application_base_url: &str, subscription_token: &str) -> (r: ConfirmationEmail)
    ensures
        r.subject@ == "Welcome!"@,
        r.html@ == "Welcome to our newsletter!<br />Click <a href=\""@ + confirmation_link(
            application_base_url@,
            subscription_token@,
        ) + "\">here</a> to confirm your subscription."@,
        r.text@ == "Welcome to our newsletter!\nVisit "@ + confirmation_link(
            application_base_url@,
            subscription_token@,
        ) + " to confirm your subscription."@,
{
    let mut link = String::from_str(application_base_url);
    link.append("/subscriptions/confirm?subscription_token=");
    link.append(subscription_token);
    let mut html = String::from_str("Welcome to our newsletter!<br />Click <a href=\"");
    html.append(link.as_str());
    html.append("\">here</a> to confirm your subscription.");
    let mut text = String::from_str("Welcome to our newsletter!\nVisit ");
    text.append(link.as_str());
    text.append(" to confirm your subscription.");
    ConfirmationEmail { subject: String::from_str("Welcome!"), html, text }
}

} // verus!
