//! The computed parts of the subscription flow: the confirmation token a
//! new subscriber receives, and the confirmation email built around it.
//! Storing the subscriber and sending the email are I/O and live outside
//! this library.

use vstd::prelude::*;

verus! {

/// Length of a subscription token, in characters.
pub const TOKEN_LENGTH: usize = 25;

/// An ASCII letter or digit.
pub open spec fn is_alphanumeric_char(c: char) -> bool {
    (48 <= c as int <= 57)  // '0' ..= '9'
    || (65 <= c as int <= 90)  // 'A' ..= 'Z'
    || (97 <= c as int <= 122)  // 'a' ..= 'z'
}

/// Relies on rand's Alphanumeric distribution: every sampled value is an
/// ASCII letter or digit. The value itself is random, so nothing more is
/// promised.
#[verifier::external_body]
fn sample_alphanumeric() -> (c: char)
    ensures
        is_alphanumeric_char(c),
{
    rand::RngExt::sample(&mut rand::rng(), rand::distr::Alphanumeric) as char
}

/// A fresh 25-character alphanumeric subscription token.
pub fn generate_subscription_token() -> (t: String)
    ensures
        t@.len() == TOKEN_LENGTH,
        forall|i: int| 0 <= i < t@.len() ==> is_alphanumeric_char(#[trigger] t@[i]),
{
    let mut t = String::new();
    let mut i: usize = 0;
    while i < TOKEN_LENGTH
        invariant
            i <= TOKEN_LENGTH,
            t@.len() == i,
            forall|k: int| 0 <= k < t@.len() ==> is_alphanumeric_char(#[trigger] t@[k]),
        decreases TOKEN_LENGTH - i,
    {
        let c = sample_alphanumeric();
        t.push(c);
        i = i + 1;
    }
    t
}

/// The confirmation link sent to a new subscriber.
pub fn confirmation_link(base_url: &str, subscription_token: &str) -> (r: String)
    ensures
        r@ == base_url@ + "/subscriptions/confirm?subscription_token="@ + subscription_token@,
{
    let mut r = base_url.to_owned();
    r.append("/subscriptions/confirm?subscription_token=");
    r.append(subscription_token);
    r
}

/// The plain-text body of the confirmation email.
pub fn confirmation_plain_body(confirmation_link: &str) -> (r: String)
    ensures
        r@ == "Welcome to our newsletter!\nVisit "@ + confirmation_link@
            + " to confirm your subscription."@,
{
    let mut r = String::from_str("Welcome to our newsletter!\nVisit ");
    r.append(confirmation_link);
    r.append(" to confirm your subscription.");
    r
}

/// The HTML body of the confirmation email.
pub fn confirmation_html_body(confirmation_link: &str) -> (r: String)
    ensures
        r@ == "Welcome to our newsletter!<br />Click <a href=\""@ + confirmation_link@
            + "\">here</a> to confirm your subscription."@,
{
    let mut r = String::from_str("Welcome to our newsletter!<br />Click <a href=\"");
    r.append(confirmation_link);
    r.append("\">here</a> to confirm your subscription.");
    r
}

} // verus!
