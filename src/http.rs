use vstd::prelude::*;

verus! {

/// The canonical reason phrase of an HTTP status code, if it has one.
pub uninterp spec fn reason_phrase(code: u16) -> Option<Seq<char>>;

/// Relies on rocket's `Status::reason`: the canonical reason phrase of a
/// known status code, `None` for any other code.
#[verifier::external_body]
fn status_reason(code: u16) -> (r: Option<String>)
    ensures
        match r {
            Some(s) => reason_phrase(code) == Some(s@),
            None => reason_phrase(code) is None,
        },
{
    rocket::http::Status::new(code).reason().map(|s| s.to_owned())
}

/// The text that shows the server is up.
pub fn index() -> (r: &'static str)
    ensures
        r@ == "I am online!"@,
{
    "I am online!"
}

/// The body of a response for an error that no route handled.
#[derive(Debug, PartialEq, Eq)]
pub struct GenericError {
    pub status: u16,
    pub reason: Option<String>,
}

/// Builds the body of the answer to a request that failed with `status`:
/// the code and its reason phrase.
pub fn default_catcher(status: u16) -> (r: GenericError)
    ensures
        r.status == status,
        match r.reason {
            Some(s) => reason_phrase(status) == Some(s@),
            None => reason_phrase(status) is None,
        },
{
    GenericError { status, reason: status_reason(status) }
}

} // verus!
