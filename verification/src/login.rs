//! Login failures and the redirect they produce: back to the login form,
//! with the error message in the query string and an HMAC tag over it.

use vstd::prelude::*;
use vstd::utf8::encode_utf8;

verus! {

/// Why a login attempt failed.
pub enum LoginError {
    /// The credentials were wrong; the payload is the underlying error's
    /// rendering.
    AuthError(String),
    /// Anything else went wrong; the payload is the underlying error's
    /// rendering.
    UnexpectedError(String),
}

/// The message a login failure surfaces as.
pub open spec fn spec_login_error_message(e: LoginError) -> Seq<char> {
    match e {
        LoginError::AuthError(_) => "Authentication failed"@,
        LoginError::UnexpectedError(_) => "Something went wrong"@,
    }
}

impl LoginError {
    /// The message the service reports for this failure.
    pub fn message(&self) -> (r: String)
        ensures
            r@ == spec_login_error_message(*self),
    {
        match self {
            LoginError::AuthError(_) => String::from_str("Authentication failed"),
            LoginError::UnexpectedError(_) => String::from_str("Something went wrong"),
        }
    }

    /// The underlying cause.
    pub fn source(&self) -> (r: &String)
        ensures
            self matches LoginError::AuthError(e) ==> r@ == e@,
            self matches LoginError::UnexpectedError(e) ==> r@ == e@,
    {
        match self {
            LoginError::AuthError(e) => e,
            LoginError::UnexpectedError(e) => e,
        }
    }

    /// Every login failure redirects (see other).
    pub fn status_code(&self) -> (r: u16)
        ensures
            r == 303,
    {
        303
    }

    /// The Location header of the redirect a login failure produces: back
    /// to `/login`, with the percent-encoded message and an HMAC-SHA256 tag
    /// over the query string (the deployed service signs with its secret;
    /// the key here is empty).
    pub fn error_location(&self) -> (r: String)
        ensures
            r@ == spec_login_error_location(spec_login_error_message(*self)),
    {
        let msg = self.message();
        let encoded = url_encode(msg.as_str());
        let mut query = String::from_str("error=");
        query.append(encoded.as_str());
        let empty_key: Vec<u8> = Vec::new();
        let tag = hmac_sha256(empty_key.as_slice(), query.as_str().as_bytes());
        let hex = to_hex_lower(&tag);
        let mut r = String::from_str("/login?");
        r.append(query.as_str());
        r.append("&tag=");
        r.append(hex.as_str());
        proof {
            assert(empty_key@ =~= Seq::<u8>::empty());
            assert(query@ == "error="@ + spec_url_encoded(spec_login_error_message(*self)));
        }
        r
    }
}

/// The Location header for a given login-error message.
pub open spec fn spec_login_error_location(message: Seq<char>) -> Seq<char> {
    let query = "error="@ + spec_url_encoded(message);
    "/login?"@ + query + "&tag="@ + spec_hex_lower(
        hmac_sha256_of(Seq::empty(), encode_utf8(query)),
    )
}

// ---------------------------------------------------------------------------
// Percent-encoding.
// ---------------------------------------------------------------------------

/// A byte that percent-encoding passes through unchanged: ASCII letters and
/// digits, `-`, `.`, `_`, `~`.
pub open spec fn is_url_unreserved(b: u8) -> bool {
    (48 <= b <= 57)  // '0' ..= '9'
    || (65 <= b <= 90)  // 'A' ..= 'Z'
    || (97 <= b <= 122)  // 'a' ..= 'z'
    || b == 45 || b == 46 || b == 95 || b == 126  // '-' '.' '_' '~'
}

/// The uppercase hex digit of a value below 16.
pub open spec fn spec_hex_upper_digit(d: u8) -> char {
    if d <= 9 {
        (48 + d) as char  // '0' + d
    } else {
        (55 + d) as char  // 'A' - 10 + d
    }
}

/// How percent-encoding renders one byte.
pub open spec fn spec_url_encoded_byte(b: u8) -> Seq<char> {
    if is_url_unreserved(b) {
        seq![b as char]
    } else {
        seq!['%', spec_hex_upper_digit(b / 16), spec_hex_upper_digit(b % 16)]
    }
}

/// Percent-encoding of a byte string.
pub open spec fn spec_url_encoded_bytes(bs: Seq<u8>) -> Seq<char>
    decreases bs.len(),
{
    if bs.len() == 0 {
        Seq::empty()
    } else {
        spec_url_encoded_bytes(bs.drop_last()) + spec_url_encoded_byte(bs.last())
    }
}

/// Percent-encoding of a string: its UTF-8 bytes, each unreserved byte kept,
/// every other byte as `%` and two uppercase hex digits.
pub open spec fn spec_url_encoded(s: Seq<char>) -> Seq<char> {
    spec_url_encoded_bytes(encode_utf8(s))
}

/// Relies on urlencoding::encode: percent-encodes every byte of the UTF-8
/// form except ASCII alphanumerics and `-`, `.`, `_`, `~`, with uppercase
/// hex digits.
#[verifier::external_body]
fn url_encode(s: &str) -> (r: String)
    ensures
        r@ == spec_url_encoded(s@),
{
    urlencoding::encode(s).into_owned()
}

// ---------------------------------------------------------------------------
// The HMAC tag.
// ---------------------------------------------------------------------------

/// What HMAC-SHA256 returns for a key and a message; a function of the two
/// alone.
pub uninterp spec fn hmac_sha256_of(key: Seq<u8>, msg: Seq<u8>) -> Seq<u8>;

/// Relies on hmac's Hmac over sha2's Sha256: the 32-byte tag of the message
/// under the key, a function of the two alone. Hmac accepts keys of any
/// length, so the construction cannot fail.
#[verifier::external_body]
fn hmac_sha256(key: &[u8], msg: &[u8]) -> (r: Vec<u8>)
    ensures
        r@ == hmac_sha256_of(key@, msg@),
        r@.len() == 32,
{
    let mut mac = <hmac::Hmac<sha2::Sha256> as hmac::KeyInit>::new_from_slice(key).unwrap();
    hmac::Mac::update(&mut mac, msg);
    hmac::Mac::finalize(mac).into_bytes().to_vec()
}

/// The lowercase hex digit of a value below 16.
pub open spec fn spec_hex_lower_digit(d: u8) -> char {
    if d <= 9 {
        (48 + d) as char  // '0' + d
    } else {
        (87 + d) as char  // 'a' - 10 + d
    }
}

/// Lowercase hex rendering of a byte string, two digits per byte.
pub open spec fn spec_hex_lower(bs: Seq<u8>) -> Seq<char>
    decreases bs.len(),
{
    if bs.len() == 0 {
        Seq::empty()
    } else {
        spec_hex_lower(bs.drop_last()) + seq![
            spec_hex_lower_digit(bs.last() / 16),
            spec_hex_lower_digit(bs.last() % 16),
        ]
    }
}

/// The lowercase hex digit of `d`, which must be below 16.
fn hex_lower_digit(d: u8) -> (c: char)
    requires
        d < 16,
    ensures
        c == spec_hex_lower_digit(d),
{
    if d <= 9 {
        (48 + d) as char
    } else {
        (87 + d) as char
    }
}

/// Renders bytes as lowercase hex, two digits per byte.
pub fn to_hex_lower(bytes: &Vec<u8>) -> (r: String)
    ensures
        r@ == spec_hex_lower(bytes@),
{
    let mut r = String::new();
    let mut i: usize = 0;
    while i < bytes.len()
        invariant
            i <= bytes.len(),
            r@ == spec_hex_lower(bytes@.take(i as int)),
        decreases bytes.len() - i,
    {
        let b = bytes[i];
        r.push(hex_lower_digit(b / 16));
        r.push(hex_lower_digit(b % 16));
        proof {
            assert(bytes@.take(i + 1).drop_last() =~= bytes@.take(i as int));
            assert(bytes@.take(i + 1).last() == bytes@[i as int]);
            assert(r@ =~= spec_hex_lower(bytes@.take(i + 1)));
        }
        i = i + 1;
    }
    proof {
        assert(bytes@.take(bytes.len() as int) =~= bytes@);
    }
    r
}

} // verus!
