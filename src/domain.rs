//! Validated subscriber details.

use unicode_segmentation::UnicodeSegmentation;
use vstd::prelude::*;
use vstd::string::*;

verus! {

/// The most grapheme clusters a name may hold.
pub const MAX_NAME_GRAPHEMES: usize = 256;

/// The number of extended grapheme clusters in `s`.
pub uninterp spec fn grapheme_count(s: Seq<char>) -> nat;

/// Relies on unicode-segmentation's `graphemes(true)`: the string's extended
/// grapheme clusters, counted.
#[verifier::external_body]
fn count_graphemes(s: &str) -> (r: usize)
    ensures
        r as nat == grapheme_count(s@),
{
    s.graphemes(true).count()
}

/// Characters that a name may not hold.
pub open spec fn is_forbidden_name_char(c: char) -> bool {
    c == '/' || c == '(' || c == ')' || c == '"' || c == '<' || c == '>' || c == '\\' || c == '{'
        || c == '}'
}

/// Unicode control characters (general category Cc).
pub open spec fn is_control_char(c: char) -> bool {
    ('\u{0}' <= c && c <= '\u{1f}') || ('\u{7f}' <= c && c <= '\u{9f}')
}

pub open spec fn valid_name(s: Seq<char>) -> bool {
    &&& s.len() > 0
    &&& grapheme_count(s) <= MAX_NAME_GRAPHEMES
    &&& forall|i: int| 0 <= i < s.len() ==> !is_forbidden_name_char(#[trigger] s[i]) && !is_control_char(s[i])
}

pub open spec fn valid_email(s: Seq<char>) -> bool {
    s.len() > 0 && s.contains('@')
}

/// The message that rejects `s` as a name.
pub open spec fn invalid_name_message(s: Seq<char>) -> Seq<char> {
    s + " is not a valid subscriber name."@
}

/// The message that rejects `s` as an email address.
pub open spec fn invalid_email_message(s: Seq<char>) -> Seq<char> {
    s + " is not a valid subscriber email."@
}

fn name_chars_allowed(s: &str) -> (r: bool)
    ensures
        r == (forall|i: int| 0 <= i < s@.len() ==> !is_forbidden_name_char(#[trigger] s@[i]) && !is_control_char(s@[i])),
{
    let n = s.unicode_len();
    let mut i: usize = 0;
    while i < n
        invariant
            n == s@.len(),
            i <= n,
            forall|j: int| 0 <= j < i ==> !is_forbidden_name_char(#[trigger] s@[j]) && !is_control_char(s@[j]),
        decreases n - i,
    {
        let c = s.get_char(i);
        if c == '/' || c == '(' || c == ')' || c == '"' || c == '<' || c == '>' || c == '\\'
            || c == '{' || c == '}' || ('\u{0}' <= c && c <= '\u{1f}') || ('\u{7f}' <= c && c
            <= '\u{9f}') {
            return false;
        }
        i = i + 1;
    }
    true
}

/// Whether `a` and `b` hold the same characters.
pub fn str_eq(a: &str, b: &str) -> (r: bool)
    ensures
        r == (a@ == b@),
{
    let n = a.unicode_len();
    if n != b.unicode_len() {
        return false;
    }
    let mut i: usize = 0;
    while i < n
        invariant
            n == a@.len(),
            n == b@.len(),
            i <= n,
            forall|j: int| 0 <= j < i ==> a@[j] == b@[j],
        decreases n - i,
    {
        if a.get_char(i) != b.get_char(i) {
            return false;
        }
        i = i + 1;
    }
    assert(a@ =~= b@);
    true
}

/// Whether `s` holds the character `c`.
pub fn contains_char(s: &str, c: char) -> (r: bool)
    ensures
        r == s@.contains(c),
{
    let n = s.unicode_len();
    let mut i: usize = 0;
    while i < n
        invariant
            n == s@.len(),
            i <= n,
            forall|j: int| 0 <= j < i ==> s@[j] != c,
        decreases n - i,
    {
        if s.get_char(i) == c {
            return true;
        }
        i = i + 1;
    }
    false
}

/// A display name that passed validation.
pub struct SubscriberName(String);

impl View for SubscriberName {
    type V = Seq<char>;

    closed spec fn view(&self) -> Seq<char> {
        self.0@
    }
}

impl SubscriberName {
    /// Accepts a non-empty name of at most `MAX_NAME_GRAPHEMES` grapheme
    /// clusters with no forbidden or control character.
    pub fn parse(s: String) -> (r: Result<SubscriberName, String>)
        ensures
            r is Ok <==> valid_name(s@),
            r matches Ok(n) ==> n@ == s@,
            r matches Err(e) ==> e@ == invalid_name_message(s@),
    {
        if s.unicode_len() > 0 && count_graphemes(s.as_str()) <= MAX_NAME_GRAPHEMES
            && name_chars_allowed(s.as_str()) {
            Ok(SubscriberName(s))
        } else {
            Err(s.concat(" is not a valid subscriber name."))
        }
    }

    pub fn as_str(&self) -> (r: &str)
        ensures
            r@ == self@,
    {
        self.0.as_str()
    }
}

/// An email address that passed validation.
pub struct SubscriberEmail(String);

impl View for SubscriberEmail {
    type V = Seq<char>;

    closed spec fn view(&self) -> Seq<char> {
        self.0@
    }
}

impl SubscriberEmail {
    /// Accepts a non-empty address that holds an `@`.
    pub fn parse(s: String) -> (r: Result<SubscriberEmail, String>)
        ensures
            r is Ok <==> valid_email(s@),
            r matches Ok(e) ==> e@ == s@,
            r matches Err(e) ==> e@ == invalid_email_message(s@),
    {
        if s.unicode_len() > 0 && contains_char(s.as_str(), '@') {
            Ok(SubscriberEmail(s))
        } else {
            Err(s.concat(" is not a valid subscriber email."))
        }
    }

    pub fn as_str(&self) -> (r: &str)
        ensures
            r@ == self@,
    {
        self.0.as_str()
    }
}

/// The fields of a subscription request, as submitted.
pub struct FormData {
    pub email: String,
    pub name: String,
}

/// A subscription request whose fields passed validation.
pub struct NewSubscriber {
    pub email: SubscriberEmail,
    pub name: SubscriberName,
}

impl NewSubscriber {
    /// Validates the name first, then the email; the first failure's message
    /// is the error.
    pub fn try_from(form: FormData) -> (r: Result<NewSubscriber, String>)
        ensures
            r is Ok <==> valid_name(form.name@) && valid_email(form.email@),
            r matches Ok(n) ==> n.name@ == form.name@ && n.email@ == form.email@,
            r matches Err(e) ==> (if !valid_name(form.name@) {
                e@ == invalid_name_message(form.name@)
            } else {
                e@ == invalid_email_message(form.email@)
            }),
    {
        let name = match SubscriberName::parse(form.name) {
            Ok(n) => n,
            Err(e) => return Err(e),
        };
        let email = match SubscriberEmail::parse(form.email) {
            Ok(e) => e,
            Err(e) => return Err(e),
        };
        Ok(NewSubscriber { email, name })
    }
}

} // verus!
