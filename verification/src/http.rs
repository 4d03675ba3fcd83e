//! HTTP status codes as the agent reads and reports them.

use vstd::prelude::*;
use vstd::string::*;

#[allow(unused_imports)]
use crate::number::decimal;
use crate::outside::status_text;
#[allow(unused_imports)]
use crate::outside::status_phrase;

verus! {

/// What is reported of a status code: the code, a space and a phrase.
pub open spec fn status_line(code: u16) -> Seq<char> {
    decimal(code as nat) + seq![' '] + status_phrase(code)
}

pub open spec fn is_success_code(code: u16) -> bool {
    200 <= code < 300
}

/// A status code, from 100 to 999.
#[derive(Debug)]
pub struct HttpStatus {
    code: u16,
}

impl HttpStatus {
    #[verifier::type_invariant]
    spec fn in_range(self) -> bool {
        100 <= self.code <= 999
    }

    pub closed spec fn number(&self) -> u16 {
        self.code
    }

    /// The status with this code, if there is one.
    pub fn new(code: u16) -> (r: Option<Self>)
        ensures
            match r {
                Some(status) => 100 <= code <= 999 && status.number() == code,
                None => !(100 <= code <= 999),
            },
    {
        if 100 <= code && code <= 999 {
            Some(HttpStatus { code })
        } else {
            None
        }
    }

    /// The code.
    pub fn code(&self) -> (r: u16)
        ensures
            r == self.number(),
            100 <= r <= 999,
    {
        proof {
            use_type_invariant(self);
        }
        self.code
    }

    /// Tells whether the request has succeeded.
    pub fn is_success(&self) -> (r: bool)
        ensures
            r == is_success_code(self.number()),
    {
        200 <= self.code && self.code < 300
    }

    /// The status as it is reported.
    pub fn text(&self) -> (r: String)
        ensures
            r@ == status_line(self.number()),
    {
        proof {
            use_type_invariant(self);
        }
        status_text(self.code)
    }
}

/// The report that the model's server has refused a request.
pub fn api_error(status: &HttpStatus, body: &str) -> (r: String)
    ensures
        r@ == "API error "@ + status_line(status.number()) + ": "@ + body@,
{
    let mut out: String = "API error ".to_owned();
    out.append(status.text().as_str());
    out.append(": ");
    out.append(body);
    out
}

/// A status is reported by its code in decimal, a space and a phrase; it is a
/// success from 200 to 299.
pub proof fn statuses_are_reported_by_code(code: u16)
    ensures
        status_line(code) == decimal(code as nat) + seq![' '] + status_phrase(code),
        is_success_code(code) <==> 200 <= code <= 299,
{
}

} // verus!
