//! Turning what came back from the server into the text shown to the user.

use vstd::prelude::*;
use vstd::string::*;
use crate::json::{json_compact_of, reencode_json};

verus! {

/// The decimal digit for `d`, which is below ten.
pub open spec fn digit_char(d: nat) -> char {
    "0123456789"@[d as int]
}

/// The decimal notation of `n`, without leading zeros.
pub open spec fn decimal(n: nat) -> Seq<char>
    decreases n,
{
    if n < 10 {
        seq![digit_char(n)]
    } else {
        decimal(n / 10).push(digit_char(n % 10))
    }
}

/// The decimal notation of a number.
pub fn decimal_text(n: u16) -> (r: String)
    ensures
        r@ == decimal(n as nat),
    decreases n,
{
    let digits = "0123456789";
    proof {
        reveal_strlit("0123456789");
    }
    let d = (n % 10) as usize;
    let last = digits.substring_char(d, d + 1);
    assert(last@ =~= seq![digit_char(d as nat)]);
    if n < 10 {
        String::from_str(last)
    } else {
        let mut r = decimal_text(n / 10);
        r.append(last);
        r
    }
}

/// What the transport reported: no exchange at all, or a status and the body
/// text (absent when it could not be read).
pub enum Delivery {
    ConnectFailed,
    Received { status: u16, body: Option<String> },
}

/// What is to be shown for a delivery: a finished message, or a body that is
/// JSON, given as its document serialised again in compact form, to be shown
/// with its keys sorted.
pub enum Shown {
    Text(String),
    Json(String),
}

/// A status in the success range.
pub open spec fn is_success(status: u16) -> bool {
    200 <= status <= 299
}

/// The message for a failed connection, whatever the request was.
pub open spec fn connect_failure_text() -> Seq<char> {
    "Error: Unable to connect to the server. Perhaps the network is offline or the server hostname cannot be resolved."@
}

/// The message for a status outside the success range.
pub open spec fn status_failure_text(status: u16) -> Seq<char> {
    "Error: Request failed with status code: "@ + decimal(status as nat) + "."@
}

/// The text that stands for a body that could not be read.
pub open spec fn missing_body_text() -> Seq<char> {
    "No response body."@
}

/// The message for a body that is not JSON.
pub open spec fn raw_body_text(body: Seq<char>) -> Seq<char> {
    "Response body:\n"@ + body
}

/// The message for a JSON body, given its pretty-printed form with sorted keys.
pub open spec fn json_body_text(pretty: Seq<char>) -> Seq<char> {
    "Response body (JSON with sorted keys):\n"@ + pretty
}

/// The body text that a successful delivery is shown with.
pub open spec fn body_text_of(body: Option<String>) -> Seq<char> {
    match body {
        Some(b) => b@,
        None => missing_body_text(),
    }
}

/// `shown` is what is to be shown for `delivery`.
pub open spec fn shows(shown: &Shown, delivery: &Delivery) -> bool {
    match delivery {
        Delivery::ConnectFailed => shown matches Shown::Text(t) && t@ == connect_failure_text(),
        Delivery::Received { status, body } => if !is_success(*status) {
            shown matches Shown::Text(t) && t@ == status_failure_text(*status)
        } else {
            match json_compact_of(body_text_of(*body)) {
                Some(c) => shown matches Shown::Json(j) && j@ == c,
                None => shown matches Shown::Text(t) && t@ == raw_body_text(body_text_of(*body)),
            }
        },
    }
}

/// The message for a status outside the success range.
pub fn status_failure_message(status: u16) -> (r: String)
    ensures
        r@ == status_failure_text(status),
{
    let mut r = String::from_str("Error: Request failed with status code: ");
    let digits = decimal_text(status);
    r.append(digits.as_str());
    r.append(".");
    r
}

/// The message for a JSON body, given its pretty-printed form with sorted keys.
pub fn json_body_message(pretty: &str) -> (r: String)
    ensures
        r@ == json_body_text(pretty@),
{
    let mut r = String::from_str("Response body (JSON with sorted keys):\n");
    r.append(pretty);
    r
}

/// Decides what is shown for what the transport reported. A failed
/// connection and a status outside the success range give their messages
/// and nothing of the body; otherwise a JSON body is handed on for display
/// with sorted keys, and any other body is shown as it is.
pub fn examine(delivery: Delivery) -> (r: Shown)
    ensures
        shows(&r, &delivery),
{
    match delivery {
        Delivery::ConnectFailed => Shown::Text(String::from_str(
            "Error: Unable to connect to the server. Perhaps the network is offline or the server hostname cannot be resolved.",
        )),
        Delivery::Received { status, body } => {
            if status < 200 || status > 299 {
                return Shown::Text(status_failure_message(status));
            }
            let text = match body {
                Some(b) => b,
                None => String::from_str("No response body."),
            };
            match reencode_json(text.as_str()) {
                Some(v) => Shown::Json(v),
                None => {
                    let mut r = String::from_str("Response body:\n");
                    r.append(text.as_str());
                    Shown::Text(r)
                },
            }
        },
    }
}

} // verus!
