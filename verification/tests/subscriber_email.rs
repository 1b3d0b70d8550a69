use zero2prod::domain::SubscriberEmail;

#[test]
fn empty_string_is_rejected() {
    assert!(SubscriberEmail::parse("").is_err());
}

#[test]
fn email_missing_at_symbol_is_rejected() {
    assert!(SubscriberEmail::parse("ursuladomain.com").is_err());
}

#[test]
fn email_missing_subject_is_rejected() {
    assert!(SubscriberEmail::parse("@domain.com").is_err());
}

#[test]
fn ordinary_email_is_accepted() {
    let email = SubscriberEmail::parse("ursula_le_guin@gmail.com").unwrap();
    assert_eq!(email.as_ref(), "ursula_le_guin@gmail.com");
}

#[test]
fn rejection_names_the_input() {
    let err = SubscriberEmail::parse("definitely-not-an-email").unwrap_err();
    assert_eq!(err, "definitely-not-an-email is not a valid subscriber email.");
}
