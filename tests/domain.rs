use zero2prod::domain::{FormData, NewSubscriber, SubscriberEmail, SubscriberName};

#[test]
fn a_valid_name_is_accepted() {
    let n = SubscriberName::parse("Ursula Le Guin".to_string()).ok().unwrap();
    assert_eq!(n.as_str(), "Ursula Le Guin");
}

#[test]
fn an_empty_name_is_rejected() {
    let e = SubscriberName::parse("".to_string()).err().unwrap();
    assert_eq!(e, " is not a valid subscriber name.");
}

#[test]
fn names_with_forbidden_characters_are_rejected() {
    for c in ['/', '(', ')', '"', '<', '>', '\\', '{', '}'] {
        let name = format!("Ann{}e", c);
        assert!(SubscriberName::parse(name.clone()).is_err(), "{}", name);
    }
}

#[test]
fn names_with_control_characters_are_rejected() {
    assert!(SubscriberName::parse("Ann\u{7}e".to_string()).is_err());
    assert!(SubscriberName::parse("Ann\u{85}e".to_string()).is_err());
}

#[test]
fn a_256_grapheme_name_is_accepted() {
    assert!(SubscriberName::parse("ё".repeat(256)).is_ok());
}

#[test]
fn a_257_grapheme_name_is_rejected() {
    assert!(SubscriberName::parse("a".repeat(257)).is_err());
}

#[test]
fn graphemes_not_characters_are_counted() {
    // 256 clusters, each a letter and a combining accent: 512 characters.
    let name = "e\u{301}".repeat(256);
    assert_eq!(name.chars().count(), 512);
    assert!(SubscriberName::parse(name).is_ok());
    assert!(SubscriberName::parse("e\u{301}".repeat(257)).is_err());
}

#[test]
fn emails_need_an_at_sign() {
    assert!(SubscriberEmail::parse("ursula@example.com".to_string()).is_ok());
    let e = SubscriberEmail::parse("ursula.example.com".to_string()).err().unwrap();
    assert_eq!(e, "ursula.example.com is not a valid subscriber email.");
    assert!(SubscriberEmail::parse("".to_string()).is_err());
}

#[test]
fn the_name_is_checked_before_the_email() {
    let form = FormData { email: "nope".to_string(), name: "".to_string() };
    let e = NewSubscriber::try_from(form).err().unwrap();
    assert_eq!(e, " is not a valid subscriber name.");
    let form = FormData { email: "nope".to_string(), name: "Ann".to_string() };
    let e = NewSubscriber::try_from(form).err().unwrap();
    assert_eq!(e, "nope is not a valid subscriber email.");
}
