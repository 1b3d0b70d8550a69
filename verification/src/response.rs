//! The HTTP response as the idempotency store records it: status code,
//! headers, body. A replay must return the saved response byte for byte, so
//! responses are compared by their full mathematical image.

use vstd::prelude::*;

verus! {

/// A serialized HTTP response: what the idempotency store saves and what a
/// replay returns verbatim.
#[derive(Debug)]
pub struct HttpResponseRecord {
    pub status_code: u16,
    pub headers: Vec<(String, String)>,
    pub body: Vec<u8>,
}

/// Mathematical image of a response; equality of two images is
/// byte-identity of the responses.
#[verifier::ext_equal]
pub struct ResponseView {
    pub status_code: int,
    pub headers: Seq<(Seq<char>, Seq<char>)>,
    pub body: Seq<u8>,
}

impl View for HttpResponseRecord {
    type V = ResponseView;

    open spec fn view(&self) -> ResponseView {
        ResponseView {
            status_code: self.status_code as int,
            headers: Seq::new(self.headers@.len(), |i: int| (self.headers@[i].0@, self.headers@[i].1@)),
            body: self.body@,
        }
    }
}

/// The redirect acknowledgement: status 303 with a single Location header
/// and an empty body.
pub open spec fn spec_see_other(location: Seq<char>) -> ResponseView {
    ResponseView {
        status_code: 303,
        headers: seq![("Location"@, location)],
        body: Seq::empty(),
    }
}

/// A redirect-style acknowledgement pointing at `location`.
pub fn see_other(location: &str) -> (r: HttpResponseRecord)
    ensures
        r@ == spec_see_other(location@),
{
    let mut headers: Vec<(String, String)> = Vec::new();
    headers.push((String::from_str("Location"), location.to_owned()));
    let r = HttpResponseRecord { status_code: 303, headers, body: Vec::new() };
    proof {
        assert(r@.headers =~= seq![("Location"@, location@)]);
        assert(r@ =~= spec_see_other(location@));
    }
    r
}

/// An exact copy of a saved response, so the caller receives the cached
/// answer while the store keeps its row.
pub fn clone_response(r: &HttpResponseRecord) -> (c: HttpResponseRecord)
    ensures
        c@ == r@,
{
    let mut headers: Vec<(String, String)> = Vec::new();
    let mut i: usize = 0;
    while i < r.headers.len()
        invariant
            i <= r.headers.len(),
            headers@.len() == i,
            forall|k: int|
                0 <= k < i ==> headers@[k].0@ == r.headers@[k].0@ && headers@[k].1@
                    == r.headers@[k].1@,
        decreases r.headers.len() - i,
    {
        let name = r.headers[i].0.clone();
        let value = r.headers[i].1.clone();
        headers.push((name, value));
        i = i + 1;
    }
    let mut body: Vec<u8> = Vec::new();
    let mut j: usize = 0;
    while j < r.body.len()
        invariant
            j <= r.body.len(),
            body@ =~= r.body@.take(j as int),
        decreases r.body.len() - j,
    {
        body.push(r.body[j]);
        proof {
            assert(body@ =~= r.body@.take(j + 1));
        }
        j = j + 1;
    }
    let c = HttpResponseRecord { status_code: r.status_code, headers, body };
    proof {
        assert(body@ =~= r.body@);
        assert(c@.headers =~= r@.headers);
        assert(c@ =~= r@);
    }
    c
}

} // verus!
