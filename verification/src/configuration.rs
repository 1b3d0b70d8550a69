//! Settings types for the service and the runtime environment selector.
//!
//! Loading settings from files and environment variables is I/O and lives
//! outside this library; these are the plain values the rest of the code
//! works with.

use vstd::prelude::*;
use crate::domain::SubscriberEmail;
use crate::domain::is_valid_email;

verus! {

/// Settings of the whole service.
pub struct Settings {
    pub database: DatabaseSettings,
    pub application: ApplicationSettings,
    pub email_client: EmailClientSettings,
}

/// Connection parameters of the database.
pub struct DatabaseSettings {
    pub username: String,
    pub password: String,
    pub port: u16,
    pub host: String,
    pub database_name: String,
    pub require_ssl: bool,
}

/// Address the HTTP server binds to.
pub struct ApplicationSettings {
    pub port: u16,
    pub host: String,
}

/// Base URL that confirmation links are built against.
pub struct ApplicationBaseUrl(pub String);

/// Settings of the email transport client.
pub struct EmailClientSettings {
    pub base_url: String,
    pub sender_email: String,
    pub authorization_token: String,
    pub timeout_milliseconds: u64,
}

impl EmailClientSettings {
    /// The configured sender address, validated like any subscriber address.
    pub fn sender(&self) -> (r: Result<SubscriberEmail, String>)
        ensures
            r is Ok <==> is_valid_email(self.sender_email@),
            r is Ok ==> r->Ok_0@ == self.sender_email@,
    {
        SubscriberEmail::parse(&self.sender_email)
    }
}

/// The runtime environment the service was started for.
#[derive(Debug)]
pub enum Environment {
    Local,
    Production,
}

/// What `str::to_lowercase` returns; the result depends on the characters
/// alone.
pub uninterp spec fn lower_of(s: Seq<char>) -> Seq<char>;

/// Relies on str::to_lowercase: Unicode lowercase of the input, a function
/// of the characters alone; an empty string stays empty.
#[verifier::external_body]
fn to_lowercase(s: &str) -> (r: String)
    ensures
        r@ == lower_of(s@),
        s@.len() == 0 ==> r@.len() == 0,
{
    s.to_lowercase()
}

impl Environment {
    /// The canonical name of the environment.
    pub fn as_str(&self) -> (r: &'static str)
        ensures
            self is Local ==> r@ == "local"@,
            self is Production ==> r@ == "production"@,
    {
        match self {
            Environment::Local => "local",
            Environment::Production => "production",
        }
    }

    /// Parses an environment name, ignoring case; anything other than
    /// `local` or `production` is rejected with a message naming the input.
    pub fn try_from(s: String) -> (r: Result<Environment, String>)
        ensures
            lower_of(s@) == "local"@ ==> (r matches Ok(e) && e is Local),
            lower_of(s@) == "production"@ ==> (r matches Ok(e) && e is Production),
            r is Err ==> lower_of(s@) != "local"@ && lower_of(s@) != "production"@
                && r->Err_0@ == lower_of(s@)
                    + " is not a supported environment. Use either `local` or `production`."@,
            (r matches Ok(e) && e is Local) ==> lower_of(s@) == "local"@,
            (r matches Ok(e) && e is Production) ==> lower_of(s@) == "production"@,
    {
        proof {
            reveal_strlit("local");
            reveal_strlit("production");
            assert("local"@.len() == 5);
            assert("production"@.len() == 10);
        }
        let lower = to_lowercase(s.as_str());
        if lower == String::from_str("local") {
            Ok(Environment::Local)
        } else if lower == String::from_str("production") {
            Ok(Environment::Production)
        } else {
            Err(lower.concat(" is not a supported environment. Use either `local` or `production`."))
        }
    }
}

} // verus!
