//! What the client fixes about a request, and how it judges the status of a
//! response.

use vstd::prelude::*;
use vstd::pervasive::unreached;
use crate::text::{contains, lemma_contains_joined};

verus! {

/// The path of the chat-completion endpoint, below the base URL.
pub open spec fn endpoint_path() -> Seq<char> {
    "/v1/chat/completions"@
}

/// The URL that a completion request is posted to.
pub fn endpoint(base_url: &str) -> (url: String)
    ensures
        url@ == base_url@ + endpoint_path(),
{
    String::from_str(base_url).concat("/v1/chat/completions")
}

/// The content type of a completion request.
pub fn content_type() -> (value: &'static str)
    ensures
        value@ == "application/json"@,
{
    "application/json"
}

/// The seconds that a request may wait for the next bytes of its response.
pub fn read_timeout_secs() -> (secs: u64)
    ensures
        secs == 600,
{
    600
}

/// The status of an HTTP response: a number from 100 to 999.
#[derive(Clone, Copy, Debug, PartialEq, Eq)]
pub struct StatusCode {
    code: u16,
}

impl View for StatusCode {
    type V = u16;

    closed spec fn view(&self) -> u16 {
        self.code
    }
}

impl StatusCode {
    #[verifier::type_invariant]
    spec fn in_range(self) -> bool {
        100 <= self.code <= 999
    }

    /// The status with the number `code`, where that is from 100 to 999.
    pub fn from_u16(code: u16) -> (status: Option<StatusCode>)
        ensures
            status is Some <==> 100 <= code <= 999,
            status matches Some(s) ==> s@ == code,
    {
        if 100 <= code && code <= 999 {
            Some(StatusCode { code })
        } else {
            None
        }
    }

    /// The number of the status.
    pub fn as_u16(&self) -> (code: u16)
        ensures
            code == self@,
            100 <= code <= 999,
    {
        proof {
            use_type_invariant(self);
        }
        self.code
    }

    /// Whether the status says that the request succeeded: 200 to 299.
    pub fn is_success(&self) -> (success: bool)
        ensures
            success == (200 <= self@ < 300),
    {
        200 <= self.code && self.code < 300
    }
}

/// The decimal digit for `d`.
pub open spec fn digit(d: int) -> char {
    if d == 0 {
        '0'
    } else if d == 1 {
        '1'
    } else if d == 2 {
        '2'
    } else if d == 3 {
        '3'
    } else if d == 4 {
        '4'
    } else if d == 5 {
        '5'
    } else if d == 6 {
        '6'
    } else if d == 7 {
        '7'
    } else if d == 8 {
        '8'
    } else {
        '9'
    }
}

/// The number of a status in its three decimal digits.
pub open spec fn status_digits(code: u16) -> Seq<char> {
    let number: int = code as int;
    seq![digit(number / 100), digit(number / 10 % 10), digit(number % 10)]
}

/// What `a2httpc::StatusCode` displays for the status with the number
/// `code`: the number and the standard reason phrase.
pub uninterp spec fn status_line(code: u16) -> Seq<char>;

/// Makes an `a2httpc::StatusCode` with `StatusCode::from_u16` and returns
/// what it displays.
///
/// Trusted: a status is made of the numbers from 100 to 999 and of no
/// other; what it displays depends on the number alone and starts with the
/// number in decimal digits.
#[verifier::external_body]
fn display_status(code: u16) -> (line: Option<String>)
    ensures
        line is Some <==> 100 <= code <= 999,
        line matches Some(text) ==> text@ == status_line(code),
        line matches Some(text) ==> text@.len() >= 3 && text@.take(3) == status_digits(code),
{
    match a2httpc::StatusCode::from_u16(code) {
        Ok(status) => Some(status.to_string()),
        Err(_) => None,
    }
}

/// The message of the error that a response with a failing status is turned
/// into: the status as displayed, and the body of the response as it came.
pub open spec fn status_error_text(code: u16, body: Seq<char>) -> Seq<char> {
    "Status Code: "@ + status_line(code) + "\nResponse: "@ + body
}

/// The message of the error for a response with the status `status` and
/// the body `body`. It holds the number of the status and the body.
pub fn status_error(status: StatusCode, body: &str) -> (message: String)
    ensures
        message@ == status_error_text(status@, body@),
        contains(message@, status_digits(status@)),
        contains(message@, body@),
{
    let line = match display_status(status.as_u16()) {
        Some(line) => line,
        None => unreached(),
    };
    proof {
        let head = "Status Code: "@;
        let rest = line@.skip(3) + "\nResponse: "@ + body@;
        assert(status_error_text(status@, body@) =~= head + status_digits(status@) + rest);
        lemma_contains_joined(head, status_digits(status@), rest);
        lemma_contains_joined(head + line@ + "\nResponse: "@, body@, Seq::<char>::empty());
    }
    String::from_str("Status Code: ").concat(line.as_str()).concat("\nResponse: ").concat(body)
}

} // verus!
