//! What a page fetch can fail with, and which HTTP statuses count as success.
use vstd::prelude::*;
use vstd::string::*;
use crate::text::{append_decimal, decimal_text};

verus! {

/// Why fetching a page failed.
#[derive(Debug, Clone, PartialEq, Eq)]
pub enum FetchError {
    /// The request could not be sent or its body not read; holds the
    /// client's description of the failure.
    Network(String),
    /// The server answered with a status outside 200..=299.
    HttpStatus(u16),
}

/// The statuses that count as success: 200 through 299.
pub open spec fn is_success_status(status: u16) -> bool {
    200 <= status <= 299
}

/// The text that describes a fetch error.
pub open spec fn fetch_error_text(e: FetchError) -> Seq<char> {
    match e {
        FetchError::Network(msg) => "network error: "@ + msg@,
        FetchError::HttpStatus(code) => "HTTP "@ + decimal_text(code as nat),
    }
}

/// Law: exactly the statuses 200 through 299 count as success; every other
/// status, 1xx, 3xx, 4xx and 5xx alike, is a failed fetch.
pub proof fn lemma_success_is_2xx(status: u16)
    ensures
        is_success_status(status) <==> (200 <= status && status < 300),
        status < 200 ==> !is_success_status(status),
        status >= 300 ==> !is_success_status(status),
{
}

/// Law: the message of an HTTP status error is `HTTP ` followed by the code
/// in decimal, and that of a network error is `network error: ` followed by
/// the client's description.
pub proof fn lemma_fetch_error_texts(code: u16, msg: Seq<char>, e: String)
    requires
        e@ == msg,
    ensures
        fetch_error_text(FetchError::HttpStatus(code)) == seq!['H', 'T', 'T', 'P', ' '] + decimal_text(
            code as nat,
        ),
        fetch_error_text(FetchError::Network(e)) == seq![
            'n', 'e', 't', 'w', 'o', 'r', 'k', ' ', 'e', 'r', 'r', 'o', 'r', ':', ' '
        ] + msg,
{
    reveal_strlit("HTTP ");
    reveal_strlit("network error: ");
    assert("HTTP "@ =~= seq!['H', 'T', 'T', 'P', ' ']);
    assert("network error: "@ =~= seq![
        'n', 'e', 't', 'w', 'o', 'r', 'k', ' ', 'e', 'r', 'r', 'o', 'r', ':', ' '
    ]);
}

impl FetchError {
    /// The human-readable description of this error, such as `HTTP 404`.
    pub fn message(&self) -> (m: String)
        ensures
            m@ == fetch_error_text(*self),
    {
        match self {
            FetchError::Network(e) => {
                let mut m = String::from_str("network error: ");
                m.append(e.as_str());
                m
            },
            FetchError::HttpStatus(code) => {
                let mut m = String::from_str("HTTP ");
                append_decimal(&mut m, *code as u64);
                m
            },
        }
    }
}

/// Accepts a response status: `Ok` for 200..=299, otherwise the error that
/// names the status.
pub fn check_status(status: u16) -> (r: Result<(), FetchError>)
    ensures
        r is Ok <==> is_success_status(status),
        r is Ok <==> (200 <= status && status <= 299),
        r is Err ==> r == Err::<(), FetchError>(FetchError::HttpStatus(status)),
{
    if 200 <= status && status <= 299 {
        Ok(())
    } else {
        Err(FetchError::HttpStatus(status))
    }
}

} // verus!
