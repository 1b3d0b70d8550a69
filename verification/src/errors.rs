//! Error taxonomy of the subscription flow, with the exact texts the
//! service reports, and the formatter that renders an error together with
//! its chain of causes.

use vstd::prelude::*;

verus! {

/// One line per cause, each introduced by `Caused by:` and indented.
pub open spec fn spec_cause_lines(causes: Seq<Seq<char>>) -> Seq<char>
    decreases causes.len(),
{
    if causes.len() == 0 {
        Seq::empty()
    } else {
        spec_cause_lines(causes.drop_last()) + "Caused by:\n\t"@ + causes.last() + "\n"@
    }
}

/// The rendering of an error chain: the error's own message, a blank line,
/// then one line per cause.
pub open spec fn spec_error_chain(message: Seq<char>, causes: Seq<Seq<char>>) -> Seq<char> {
    message + "\n\n"@ + spec_cause_lines(causes)
}

/// Renders an error message followed by each cause in the chain, outermost
/// first.
pub fn error_chain_fmt(message: &str, causes: &Vec<String>) -> (r: String)
    ensures
        r@ == spec_error_chain(message@, causes.deep_view()),
{
    let mut out = message.to_owned();
    out.append("\n\n");
    let mut i: usize = 0;
    while i < causes.len()
        invariant
            i <= causes.len(),
            out@ == message@ + "\n\n"@ + spec_cause_lines(causes.deep_view().take(i as int)),
        decreases causes.len() - i,
    {
        out.append("Caused by:\n\t");
        out.append(causes[i].as_str());
        out.append("\n");
        proof {
            let full = causes.deep_view();
            assert(full.take(i + 1).drop_last() =~= full.take(i as int));
            assert(full.take(i + 1).last() == causes[i as int]@);
            assert(out@ =~= message@ + "\n\n"@ + spec_cause_lines(full.take(i + 1)));
        }
        i = i + 1;
    }
    proof {
        assert(causes.deep_view().take(causes.len() as int) =~= causes.deep_view());
    }
    out
}

/// The database failed while the confirmation token of a new subscriber was
/// being stored; the payload is the database error's rendering.
pub struct StoreTokenError(pub String);

impl StoreTokenError {
    /// The message the service reports for this failure.
    pub fn message(&self) -> (r: String)
        ensures
            r@ == "A database error was encountered while trying to store a subscription token."@,
    {
        String::from_str(
            "A database error was encountered while trying to store a subscription token.",
        )
    }

    /// The underlying cause.
    pub fn source(&self) -> (r: &String)
        ensures
            r@ == self.0@,
    {
        &self.0
    }
}

/// Everything that can go wrong while a visitor subscribes. Payloads other
/// than `Validation` hold the underlying error's rendering.
pub enum SubscribeError {
    Validation(String),
    StoreToken(StoreTokenError),
    SendEmail(String),
    Pool(String),
    InsertSubscriber(String),
    TransactionCommit(String),
}

impl SubscribeError {
    /// The HTTP status the error surfaces as: a client error for a rejected
    /// payload, a server error for everything else.
    pub fn status_code(&self) -> (r: u16)
        ensures
            self is Validation ==> r == 400,
            !(self is Validation) ==> r == 500,
    {
        match self {
            SubscribeError::Validation(_) => 400,
            SubscribeError::StoreToken(_)
            | SubscribeError::SendEmail(_)
            | SubscribeError::Pool(_)
            | SubscribeError::InsertSubscriber(_)
            | SubscribeError::TransactionCommit(_) => 500,
        }
    }

    /// The message the service reports for this failure.
    pub fn message(&self) -> (r: String)
        ensures
            self matches SubscribeError::Validation(e) ==> r@ == e@,
            self is StoreToken ==> r@
                == "Failed to store the confirmation token for a new subscriber."@,
            self is SendEmail ==> r@ == "Failed to send a confirmation email."@,
            self is Pool ==> r@ == "Failed to acquire a Postgres connection from the pool"@,
            self is InsertSubscriber ==> r@ == "Failed to insert new subscriber in the database."@,
            self is TransactionCommit ==> r@
                == "Failed to commit SQL transaction to store a new subscriber."@,
    {
        match self {
            SubscribeError::Validation(e) => e.clone(),
            SubscribeError::StoreToken(_) => String::from_str(
                "Failed to store the confirmation token for a new subscriber.",
            ),
            SubscribeError::SendEmail(_) => String::from_str(
                "Failed to send a confirmation email.",
            ),
            SubscribeError::Pool(_) => String::from_str(
                "Failed to acquire a Postgres connection from the pool",
            ),
            SubscribeError::InsertSubscriber(_) => String::from_str(
                "Failed to insert new subscriber in the database.",
            ),
            SubscribeError::TransactionCommit(_) => String::from_str(
                "Failed to commit SQL transaction to store a new subscriber.",
            ),
        }
    }

    /// The underlying cause, where there is one: a validation rejection has
    /// none.
    pub fn source(&self) -> (r: Option<&String>)
        ensures
            self is Validation <==> r is None,
            self matches SubscribeError::StoreToken(e) ==> r matches Some(m) && m@ == e.0@,
            self matches SubscribeError::SendEmail(e) ==> r matches Some(m) && m@ == e@,
            self matches SubscribeError::Pool(e) ==> r matches Some(m) && m@ == e@,
            self matches SubscribeError::InsertSubscriber(e) ==> (r matches Some(m) && m@ == e@),
            self matches SubscribeError::TransactionCommit(e) ==> (r matches Some(m) && m@ == e@),
    {
        match self {
            SubscribeError::Validation(_) => None,
            SubscribeError::StoreToken(e) => Some(&e.0),
            SubscribeError::SendEmail(e) => Some(e),
            SubscribeError::Pool(e) => Some(e),
            SubscribeError::InsertSubscriber(e) => Some(e),
            SubscribeError::TransactionCommit(e) => Some(e),
        }
    }
}

} // verus!
