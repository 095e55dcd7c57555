use vstd::prelude::*;

verus! {

/// What can go wrong while fetching or decoding one API response.
///
/// Every variant carries a label naming what was being fetched. Transport
/// and decoder failures are carried as their plain message text, a bad
/// HTTP answer as its status code, so the whole value is made of plain
/// data that contracts can speak about.
#[derive(Debug, PartialEq)]
pub enum Error {
    /// Transport-level failure reaching the API: label, error text.
    Fetch(String, String),
    /// Non-success HTTP status returned: label, status code.
    BadStatus(String, u16),
    /// The API answered with a placeholder empty payload, typically
    /// meaning the statistics are still being computed upstream.
    EmptyBody(String),
    /// The response body could not be read after a successful status:
    /// label, error text.
    ResponseBody(String, String),
    /// The payload did not match the expected schema: label, error text.
    Deserialization(String, String),
}

} // verus!
