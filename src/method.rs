//! Choosing the HTTP method of a request.

use vstd::prelude::*;
use vstd::string::*;
use crate::text::{eq_ignore_ascii_case, same_text_ignore_ascii_case};

verus! {

/// The method that a request uses: the one given, else `GET`; and a `GET`
/// (in any case) turns into `POST` when body data was supplied.
pub open spec fn resolved_method(explicit: Option<Seq<char>>, has_form_data: bool, has_json_data: bool) -> Seq<char> {
    let m = match explicit {
        Some(m) => m,
        None => "GET"@,
    };
    if eq_ignore_ascii_case(m, "GET"@) && (has_form_data || has_json_data) {
        "POST"@
    } else {
        m
    }
}

/// Decides the method of a request from the explicit choice, if any, and
/// from which body fields are present.
pub fn resolve_method(explicit: Option<&str>, has_form_data: bool, has_json_data: bool) -> (r: String)
    ensures
        r@ == resolved_method(
            match explicit {
                Some(m) => Some(m@),
                None => None,
            },
            has_form_data,
            has_json_data,
        ),
{
    let m: &str = match explicit {
        Some(m) => m,
        None => "GET",
    };
    if same_text_ignore_ascii_case(m, "GET") && (has_form_data || has_json_data) {
        String::from_str("POST")
    } else {
        String::from_str(m)
    }
}

/// Without an explicit method, body data of exactly one kind makes the request a `POST`.
pub proof fn lemma_body_implies_post(has_form_data: bool, has_json_data: bool)
    requires
        has_form_data != has_json_data,
    ensures
        resolved_method(None, has_form_data, has_json_data) == "POST"@,
{
    reveal_strlit("GET");
    assert(eq_ignore_ascii_case("GET"@, "GET"@));
}

/// Without an explicit method and without body data the request is a `GET`.
pub proof fn lemma_no_body_is_get()
    ensures
        resolved_method(None, false, false) == "GET"@,
{
}

/// An explicit method is used verbatim, whatever body data is present, unless
/// it is a spelling of `GET` while body data is present.
pub proof fn lemma_explicit_method_kept(m: Seq<char>, has_form_data: bool, has_json_data: bool)
    requires
        !eq_ignore_ascii_case(m, "GET"@) || (!has_form_data && !has_json_data),
    ensures
        resolved_method(Some(m), has_form_data, has_json_data) == m,
{
}

} // verus!
