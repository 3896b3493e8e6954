use zero2prod::domain::{FormData, SubscriberEmail};
use zero2prod::newsletters::{get_confirmed_subscribers, ConfirmedSubscriber, NewsletterDispatch};
use zero2prod::registry::SubscriberRegistry;

fn confirmed(email: &str) -> Result<ConfirmedSubscriber, String> {
    Ok(ConfirmedSubscriber { email: SubscriberEmail::parse(email.to_string()).ok().unwrap() })
}

#[test]
fn a_failed_delivery_does_not_stop_the_others() {
    let subs = vec![confirmed("one@x.com"), confirmed("two@x.com"), confirmed("three@x.com")];
    let mut d = NewsletterDispatch::new(subs);
    let mut attempted = Vec::new();
    let mut delivered_ok = Vec::new();
    while let Some(email) = d.next_recipient() {
        attempted.push(email.clone());
        let ok = email != "two@x.com";
        if ok {
            delivered_ok.push(email);
        }
        d.record_outcome(ok);
    }
    assert_eq!(attempted, vec!["one@x.com", "two@x.com", "three@x.com"]);
    assert_eq!(delivered_ok, vec!["one@x.com", "three@x.com"]);
    assert_eq!(d.failed_recipients(), vec!["two@x.com".to_string()]);
    assert!(d.is_finished());
    assert!(d.finish().is_ok());
}

#[test]
fn invalid_stored_emails_are_skipped() {
    let subs = vec![confirmed("one@x.com"), Err("bad is not a valid subscriber email.".to_string()), confirmed("three@x.com")];
    let mut d = NewsletterDispatch::new(subs);
    assert_eq!(d.next_recipient().unwrap(), "one@x.com");
    d.record_outcome(true);
    assert_eq!(d.next_recipient().unwrap(), "three@x.com");
    d.record_outcome(true);
    assert!(d.next_recipient().is_none());
    assert!(d.failed_recipients().is_empty());
}

#[test]
fn an_empty_list_is_finished_at_once() {
    let d = NewsletterDispatch::new(Vec::new());
    assert!(d.is_finished());
    assert!(d.next_recipient().is_none());
    assert!(d.finish().is_ok());
}

#[test]
fn only_confirmed_subscribers_are_read() {
    let mut reg = SubscriberRegistry::new();
    let f = |e: &str, n: &str| FormData { email: e.to_string(), name: n.to_string() };
    assert!(reg.register_with(f("a@x.com", "A"), 1, "ta", 0).is_ok());
    assert!(reg.register_with(f("b@x.com", "B"), 2, "tb", 0).is_ok());
    assert!(reg.register_with(f("c@x.com", "C"), 3, "tc", 0).is_ok());
    assert!(reg.confirm("tc").is_ok());
    assert!(reg.confirm("ta").is_ok());
    let subs = get_confirmed_subscribers(&reg);
    let emails: Vec<String> = subs
        .iter()
        .map(|s| match s {
            Ok(c) => c.email.as_str().to_string(),
            Err(m) => m.clone(),
        })
        .collect();
    assert_eq!(emails, vec!["a@x.com", "c@x.com"]);
}
