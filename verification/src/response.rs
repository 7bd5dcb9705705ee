//! Response assembly: status lines and the status-line + body concatenation
//! that is written back over a connection.

use vstd::prelude::*;
use vstd::string::StringExecFns;

verus! {

/// The status line sent with every successful response.
pub fn status_ok() -> (r: &'static str)
    ensures
        r@ == "HTTP/1.1 200 OK\r\n\r\n"@,
{
    "HTTP/1.1 200 OK\r\n\r\n"
}

/// The status line sent when no route matches or a file is missing.
pub fn status_not_found() -> (r: &'static str)
    ensures
        r@ == "HTTP/1.1 404 NOT FOUND\r\n\r\n"@,
{
    "HTTP/1.1 404 NOT FOUND\r\n\r\n"
}

/// The status line sent with the outcome of a save request.
pub fn status_ok_json() -> (r: &'static str)
    ensures
        r@ == "HTTP/1.1 200 OK\nContent-Type: application/json\r\n\r\n"@,
{
    "HTTP/1.1 200 OK\nContent-Type: application/json\r\n\r\n"
}

/// A full response is exactly the status line followed by the body.
pub fn build_response(status_line: &str, contents: &str) -> (r: String)
    ensures
        r@ == status_line@ + contents@,
{
    let mut r = status_line.to_owned();
    r.append(contents);
    r
}

} // verus!
