//! Validated subscriber data.

use vstd::prelude::*;

verus! {

/// Whether `validator` accepts the characters as an email address
/// (HTML5-specification check); a function of the characters alone.
pub uninterp spec fn is_valid_email(s: Seq<char>) -> bool;

/// Relies on validator::ValidateEmail::validate_email for `&str`:
/// accepts an address exactly when it matches the HTML5 email shape;
/// the empty string and strings without `@` are always rejected.
#[verifier::external_body]
fn validate_email(s: &str) -> (r: bool)
    ensures
        r == is_valid_email(s@),
        s@.len() == 0 ==> !r,
        (forall|i: int| 0 <= i < s@.len() ==> s@[i] != '@') ==> !r,
{
    validator::ValidateEmail::validate_email(&s)
}

/// An email address that passed validation.
#[derive(Debug)]
pub struct SubscriberEmail {
    email: String,
}

impl View for SubscriberEmail {
    type V = Seq<char>;

    closed spec fn view(&self) -> Seq<char> {
        self.email@
    }
}

impl SubscriberEmail {
    /// Every value of this type holds a validated address.
    pub open spec fn wf(&self) -> bool {
        is_valid_email(self@)
    }

    /// Accepts `s` exactly when it is a valid email address; a rejection
    /// names the input.
    pub fn parse(s: &str) -> (r: Result<Self, String>)
        ensures
            r is Ok <==> is_valid_email(s@),
            r matches Ok(e) ==> e@ == s@ && e.wf(),
            r matches Err(m) ==> m@ == s@ + " is not a valid subscriber email."@,
            s@.len() == 0 ==> r is Err,
    {
        if validate_email(s) {
            Ok(SubscriberEmail { email: s.to_owned() })
        } else {
            Err(s.to_owned().concat(" is not a valid subscriber email."))
        }
    }

    /// The address as a string slice.
    pub fn as_ref(&self) -> (r: &str)
        ensures
            r@ == self@,
    {
        self.email.as_str()
    }
}

} // verus!
