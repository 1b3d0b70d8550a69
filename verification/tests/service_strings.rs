use zero2prod::configuration::Environment;
use zero2prod::errors::error_chain_fmt;
use zero2prod::errors::StoreTokenError;
use zero2prod::errors::SubscribeError;
use zero2prod::login::LoginError;
use zero2prod::response::see_other;
use zero2prod::response::clone_response;
use zero2prod::subscriptions::confirmation_html_body;
use zero2prod::subscriptions::confirmation_link;
use zero2prod::subscriptions::confirmation_plain_body;
use zero2prod::subscriptions::generate_subscription_token;

#[test]
fn environment_names_round_trip() {
    assert_eq!(Environment::Local.as_str(), "local");
    assert_eq!(Environment::Production.as_str(), "production");
    assert!(matches!(Environment::try_from("local".to_string()), Ok(Environment::Local)));
    assert!(matches!(Environment::try_from("LOCAL".to_string()), Ok(Environment::Local)));
    assert!(matches!(
        Environment::try_from("Production".to_string()),
        Ok(Environment::Production)
    ));
    let err = Environment::try_from("staging".to_string()).unwrap_err();
    assert_eq!(
        err,
        "staging is not a supported environment. Use either `local` or `production`."
    );
}

#[test]
fn error_chain_is_rendered_outermost_first() {
    let causes = vec!["connection reset".to_string(), "broken pipe".to_string()];
    let rendered = error_chain_fmt("Failed to publish", &causes);
    assert_eq!(
        rendered,
        "Failed to publish\n\nCaused by:\n\tconnection reset\nCaused by:\n\tbroken pipe\n"
    );
    assert_eq!(error_chain_fmt("Nothing underneath", &Vec::new()), "Nothing underneath\n\n");
}

#[test]
fn subscribe_errors_surface_the_right_status_and_text() {
    assert_eq!(SubscribeError::Validation("bad email".to_string()).status_code(), 400);
    assert_eq!(SubscribeError::Pool("down".to_string()).status_code(), 500);
    assert_eq!(SubscribeError::Validation("bad email".to_string()).message(), "bad email");
    assert_eq!(
        SubscribeError::SendEmail("timeout".to_string()).message(),
        "Failed to send a confirmation email."
    );
    assert_eq!(
        SubscribeError::Pool("down".to_string()).message(),
        "Failed to acquire a Postgres connection from the pool"
    );
    assert_eq!(
        SubscribeError::InsertSubscriber("dup".to_string()).message(),
        "Failed to insert new subscriber in the database."
    );
    assert_eq!(
        SubscribeError::TransactionCommit("lost".to_string()).message(),
        "Failed to commit SQL transaction to store a new subscriber."
    );
    let store_token = StoreTokenError("unique violation".to_string());
    assert_eq!(
        store_token.message(),
        "A database error was encountered while trying to store a subscription token."
    );
    assert_eq!(store_token.source().as_str(), "unique violation");
    let wrapped = SubscribeError::StoreToken(store_token);
    assert_eq!(
        wrapped.message(),
        "Failed to store the confirmation token for a new subscriber."
    );
    assert_eq!(wrapped.source(), Some(&"unique violation".to_string()));
    assert_eq!(SubscribeError::Validation("bad".to_string()).source(), None);
}

#[test]
fn login_error_redirects_to_login_with_a_signed_message() {
    let e = LoginError::AuthError("wrong password".to_string());
    assert_eq!(e.status_code(), 303);
    assert_eq!(e.message(), "Authentication failed");
    let location = e.error_location();
    // The message is percent-encoded in the query string.
    let prefix = "/login?error=Authentication%20failed&tag=";
    assert!(location.starts_with(prefix), "unexpected location: {location}");
    // The tag is an HMAC-SHA256 rendered as 64 lowercase hex digits.
    let tag = &location[prefix.len()..];
    assert_eq!(tag.len(), 64);
    assert!(tag.chars().all(|c| c.is_ascii_hexdigit() && !c.is_ascii_uppercase()));
    // The location is a function of the message alone.
    let again = LoginError::AuthError("another cause".to_string()).error_location();
    assert_eq!(location, again);
    // A different message gets a different tag.
    let other = LoginError::UnexpectedError("io".to_string());
    assert_eq!(other.message(), "Something went wrong");
    let other_location = other.error_location();
    assert!(other_location.starts_with("/login?error=Something%20went%20wrong&tag="));
    assert_ne!(location, other_location);
}

#[test]
fn confirmation_email_is_built_around_the_link() {
    let link = confirmation_link("https://there.example.com", "mytoken");
    assert_eq!(
        link,
        "https://there.example.com/subscriptions/confirm?subscription_token=mytoken"
    );
    assert_eq!(
        confirmation_plain_body(&link),
        "Welcome to our newsletter!\nVisit https://there.example.com/subscriptions/confirm?subscription_token=mytoken to confirm your subscription."
    );
    assert_eq!(
        confirmation_html_body(&link),
        "Welcome to our newsletter!<br />Click <a href=\"https://there.example.com/subscriptions/confirm?subscription_token=mytoken\">here</a> to confirm your subscription."
    );
}

#[test]
fn subscription_tokens_are_25_alphanumeric_characters() {
    let token = generate_subscription_token();
    assert_eq!(token.len(), 25);
    assert!(token.chars().all(|c| c.is_ascii_alphanumeric()));
    // Tokens are random: two draws almost surely differ.
    let second = generate_subscription_token();
    assert_ne!(token, second);
}

#[test]
fn see_other_builds_the_redirect_record() {
    let r = see_other("/admin/dashboard");
    assert_eq!(r.status_code, 303);
    assert_eq!(r.headers, vec![("Location".to_string(), "/admin/dashboard".to_string())]);
    assert!(r.body.is_empty());
    let copy = clone_response(&r);
    assert_eq!(copy.status_code, r.status_code);
    assert_eq!(copy.headers, r.headers);
    assert_eq!(copy.body, r.body);
}
