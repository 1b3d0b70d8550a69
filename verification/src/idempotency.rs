//! The idempotency key a client supplies with a publish command, and the
//! row the idempotency store keeps per (owner, key) pair.

use vstd::prelude::*;
use crate::response::HttpResponseRecord;
use crate::response::ResponseView;

verus! {

/// Longest accepted idempotency key, in characters.
pub const MAX_KEY_LENGTH: usize = 50;

/// Why a client-supplied idempotency key was rejected.
#[derive(PartialEq, Eq, Structural, Clone, Copy, Debug)]
pub enum KeyError {
    Empty,
    TooLong,
}

impl KeyError {
    /// The message the service reports for this rejection.
    pub fn message(&self) -> (r: String)
        ensures
            self is Empty ==> r@ == "The idempotency key cannot be empty"@,
            self is TooLong ==> r@ == "The idempotency key must be shorter than 50 characters"@,
    {
        match self {
            KeyError::Empty => String::from_str("The idempotency key cannot be empty"),
            KeyError::TooLong => String::from_str(
                "The idempotency key must be shorter than 50 characters",
            ),
        }
    }
}

/// A client-supplied token that scopes one logical publish command: repeated
/// submissions carrying the same key produce one effect. Values of this type
/// are non-empty and shorter than [`MAX_KEY_LENGTH`] characters.
#[derive(Debug)]
pub struct IdempotencyKey {
    key: String,
}

impl View for IdempotencyKey {
    type V = Seq<char>;

    closed spec fn view(&self) -> Seq<char> {
        self.key@
    }
}

impl IdempotencyKey {
    /// Every value of this type holds an accepted key.
    pub open spec fn wf(&self) -> bool {
        0 < self@.len() < MAX_KEY_LENGTH
    }

    /// Accepts a key exactly when it is non-empty and shorter than
    /// [`MAX_KEY_LENGTH`] characters.
    pub fn try_from(s: String) -> (r: Result<IdempotencyKey, KeyError>)
        ensures
            r is Ok <==> 0 < s@.len() < MAX_KEY_LENGTH,
            r matches Ok(k) ==> k@ == s@ && k.wf(),
            r matches Err(e) ==> (e is Empty <==> s@.len() == 0),
            r matches Err(e) ==> (e is TooLong <==> s@.len() >= MAX_KEY_LENGTH),
    {
        let n = s.as_str().unicode_len();
        if n == 0 {
            Err(KeyError::Empty)
        } else if n >= MAX_KEY_LENGTH {
            Err(KeyError::TooLong)
        } else {
            Ok(IdempotencyKey { key: s })
        }
    }

    /// The key's characters.
    pub fn as_str(&self) -> (r: &str)
        ensures
            r@ == self@,
    {
        self.key.as_str()
    }
}

/// One row of the idempotency store. A row is created without a response
/// ("in flight") when a command reserves the key, and completed by saving
/// the response; a completed row is never changed again.
pub struct IdempotencyRecord {
    pub owner_id: u128,
    pub key: String,
    pub response: Option<HttpResponseRecord>,
    pub created_at: u64,
}

/// Mathematical image of an [`IdempotencyRecord`].
#[verifier::ext_equal]
pub struct RecordView {
    pub owner_id: int,
    pub key: Seq<char>,
    pub response: Option<ResponseView>,
    pub created_at: int,
}

impl View for IdempotencyRecord {
    type V = RecordView;

    open spec fn view(&self) -> RecordView {
        RecordView {
            owner_id: self.owner_id as int,
            key: self.key@,
            response: match self.response {
                Some(r) => Some(r@),
                None => None,
            },
            created_at: self.created_at as int,
        }
    }
}

} // verus!
