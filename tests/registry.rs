use zero2prod::domain::{FormData, NewSubscriber};
use zero2prod::registry::{
    confirmation_email, generate_subscription_token, ConfirmError, StorageError, StoreTokenError,
    SubscribeError, SubscriberRegistry, SubscriptionStatus,
};

fn form(email: &str, name: &str) -> FormData {
    FormData { email: email.to_string(), name: name.to_string() }
}

#[test]
fn alice_registers_and_confirms() {
    let mut reg = SubscriberRegistry::new();
    let token = match reg.register(form("alice@example.com", "Alice")) {
        Ok(t) => t,
        Err(_) => panic!("registration failed"),
    };
    let id = reg.get_subscriber_id_from_token(&token).unwrap();
    assert_eq!(reg.subscription_status(id), Some(SubscriptionStatus::PendingConfirmation));
    assert!(reg.confirm(&token).is_ok());
    assert_eq!(reg.subscription_status(id), Some(SubscriptionStatus::Confirmed));
    assert!(reg.confirm(&token).is_ok());
    assert_eq!(reg.subscription_status(id), Some(SubscriptionStatus::Confirmed));
    match reg.confirm("not-a-real-token") {
        Err(ConfirmError::Unauthorized(m)) => assert_eq!(
            m,
            "No associated subscriber id was found for the provided subscription token"
        ),
        _ => panic!("an unknown token must be denied"),
    }
}

#[test]
fn register_then_confirm_marks_the_right_subscriber() {
    let mut reg = SubscriberRegistry::new();
    let t1 = reg.register(form("a@example.com", "A")).ok().unwrap();
    let t2 = reg.register(form("b@example.com", "B")).ok().unwrap();
    assert!(reg.confirm(&t2).is_ok());
    let id1 = reg.get_subscriber_id_from_token(&t1).unwrap();
    let id2 = reg.get_subscriber_id_from_token(&t2).unwrap();
    assert_ne!(id1, id2);
    assert_eq!(reg.subscription_status(id1), Some(SubscriptionStatus::PendingConfirmation));
    assert_eq!(reg.subscription_status(id2), Some(SubscriptionStatus::Confirmed));
}

#[test]
fn tokens_are_25_alphanumeric_characters() {
    for _ in 0..20 {
        let t = generate_subscription_token();
        assert_eq!(t.chars().count(), 25);
        assert!(t.chars().all(|c| c.is_ascii_alphanumeric()));
    }
    assert_ne!(generate_subscription_token(), generate_subscription_token());
}

#[test]
fn invalid_forms_are_validation_errors_and_store_nothing() {
    let mut reg = SubscriberRegistry::new();
    match reg.register(form("alice@example.com", "")) {
        Err(e @ SubscribeError::Validation(_)) => {
            assert_eq!(e.status_code(), 400);
            if let SubscribeError::Validation(m) = e {
                assert_eq!(m, " is not a valid subscriber name.");
            }
        }
        _ => panic!("expected a validation error"),
    }
    assert!(matches!(
        reg.register(form("alice.example.com", "Alice")),
        Err(SubscribeError::Validation(_))
    ));
    assert_eq!(reg.subscriber_rows().len(), 0);
}

#[test]
fn register_with_stores_both_rows() {
    let mut reg = SubscriberRegistry::new();
    assert!(reg.register_with(form("a@example.com", "Ann"), 7, "tok", 1_700_000_000).is_ok());
    let rows = reg.subscriber_rows();
    assert_eq!(rows.len(), 1);
    assert_eq!(rows[0].id, 7);
    assert_eq!(rows[0].email, "a@example.com");
    assert_eq!(rows[0].name, "Ann");
    assert_eq!(rows[0].subscribed_at, 1_700_000_000);
    assert_eq!(rows[0].status, SubscriptionStatus::PendingConfirmation);
    assert_eq!(reg.get_subscriber_id_from_token("tok"), Some(7));
}

#[test]
fn a_duplicate_email_is_a_storage_fault() {
    let mut reg = SubscriberRegistry::new();
    assert!(reg.register_with(form("a@example.com", "Ann"), 1, "t1", 0).is_ok());
    match reg.register_with(form("a@example.com", "Other"), 2, "t2", 0) {
        Err(e @ SubscribeError::UnexpectedError(StorageError::DuplicateEmail)) => {
            assert_eq!(e.status_code(), 500)
        }
        _ => panic!("expected a duplicate-email fault"),
    }
    assert_eq!(reg.subscriber_rows().len(), 1);
    assert_eq!(reg.get_subscriber_id_from_token("t2"), None);
}

#[test]
fn a_duplicate_id_is_a_storage_fault() {
    let mut reg = SubscriberRegistry::new();
    assert!(reg.register_with(form("a@example.com", "Ann"), 1, "t1", 0).is_ok());
    assert!(matches!(
        reg.register_with(form("b@example.com", "Bob"), 1, "t2", 0),
        Err(SubscribeError::UnexpectedError(StorageError::DuplicateId))
    ));
    assert_eq!(reg.subscriber_rows().len(), 1);
}

#[test]
fn a_failed_token_insert_leaves_no_subscriber_row() {
    let mut reg = SubscriberRegistry::new();
    assert!(reg.register_with(form("a@example.com", "Ann"), 1, "same", 0).is_ok());
    // The subscriber row for Bob is inserted, then the token row fails.
    assert!(matches!(
        reg.register_with(form("b@example.com", "Bob"), 2, "same", 0),
        Err(SubscribeError::UnexpectedError(StorageError::DuplicateToken))
    ));
    assert_eq!(reg.subscriber_rows().len(), 1);
    assert_eq!(reg.subscription_status(2), None);
    assert_eq!(reg.get_subscriber_id_from_token("same"), Some(1));
}

#[test]
fn a_commit_without_the_token_row_makes_nothing_visible() {
    let mut reg = SubscriberRegistry::new();
    let new = NewSubscriber::try_from(form("a@example.com", "Ann")).ok().unwrap();
    let mut work = reg.begin();
    assert_eq!(work.insert_subscriber(&reg, &new, 9, 0), Ok(9));
    assert_eq!(reg.commit(work), Err(StorageError::MissingToken));
    assert_eq!(reg.subscriber_rows().len(), 0);
    assert_eq!(reg.subscription_status(9), None);
}

#[test]
fn a_token_for_an_unknown_subscriber_is_refused() {
    let reg = SubscriberRegistry::new();
    let mut work = reg.begin();
    assert!(matches!(
        work.store_token(&reg, 5, "tok"),
        Err(StoreTokenError(StorageError::UnknownSubscriber))
    ));
}

#[test]
fn a_unit_of_work_commits_both_rows() {
    let mut reg = SubscriberRegistry::new();
    let new = NewSubscriber::try_from(form("a@example.com", "Ann")).ok().unwrap();
    let mut work = reg.begin();
    assert_eq!(work.insert_subscriber(&reg, &new, 3, 0), Ok(3));
    assert!(work.store_token(&reg, 3, "abc").is_ok());
    assert_eq!(reg.get_subscriber_id_from_token("abc"), None);
    assert_eq!(reg.commit(work), Ok(()));
    assert_eq!(reg.get_subscriber_id_from_token("abc"), Some(3));
}

#[test]
fn confirming_an_unknown_token_changes_nothing() {
    let mut reg = SubscriberRegistry::new();
    assert!(reg.register_with(form("a@example.com", "Ann"), 1, "t1", 0).is_ok());
    let e = reg.confirm("t2").err().unwrap();
    assert_eq!(e.status_code(), 401);
    assert_eq!(reg.subscription_status(1), Some(SubscriptionStatus::PendingConfirmation));
}

#[test]
fn the_confirmation_email_links_to_the_token() {
    let m = confirmation_email("http://127.0.0.1:8000", "abc");
    assert_eq!(m.subject, "Welcome!");
    assert_eq!(
        m.html,
        "Welcome to our newsletter!<br />Click <a href=\"http://127.0.0.1:8000/subscriptions/confirm?subscription_token=abc\">here</a> to confirm your subscription."
    );
    assert_eq!(
        m.text,
        "Welcome to our newsletter!\nVisit http://127.0.0.1:8000/subscriptions/confirm?subscription_token=abc to confirm your subscription."
    );
}
