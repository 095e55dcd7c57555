use vstd::prelude::*;

use crate::error::Error;

verus! {

/// Classifies an HTTP status: any code in the 2xx range is success,
/// anything else becomes a [`Error::BadStatus`] carrying the label of
/// what was being fetched and the offending code.
pub fn check_status(what: &str, status: u16) -> (r: Result<(), Error>)
    ensures
        r is Ok <==> 200 <= status < 300,
        r matches Err(e) ==> (e matches Error::BadStatus(w, s) && w@ == what@ && s == status),
{
    if 200 <= status && status < 300 {
        Ok(())
    } else {
        Err(Error::BadStatus(what.to_owned(), status))
    }
}

/// Classifies the outcome of reading a response body after a successful
/// status. A failed read becomes [`Error::ResponseBody`]; the upstream
/// API's placeholder payload `"{}"` — its sign that the statistics are
/// still being computed — becomes [`Error::EmptyBody`]; anything else is
/// the payload, passed through unchanged.
pub fn check_body(what: &str, body: Result<String, String>) -> (r: Result<String, Error>)
    ensures
        body matches Err(detail) ==> (r matches Err(e) && e matches Error::ResponseBody(w, d)
            && w@ == what@ && d == detail),
        body matches Ok(text) ==> (text@ == "{}"@ ==> (r matches Err(e) && e matches
            Error::EmptyBody(w) && w@ == what@)),
        body matches Ok(text) ==> (text@ != "{}"@ ==> r == Ok::<String, Error>(text)),
{
    match body {
        Err(detail) => Err(Error::ResponseBody(what.to_owned(), detail)),
        Ok(text) => {
            let placeholder = "{}".to_owned();
            if text == placeholder {
                Err(Error::EmptyBody(what.to_owned()))
            } else {
                Ok(text)
            }
        },
    }
}

} // verus!
