//! The computations behind the route handlers: the die-roll response and
//! the fixed response texts. Reading files and writing to connections stays
//! outside the library; these functions only decide what bytes are sent.

use vstd::prelude::*;
use crate::response::build_response;
use crate::response::status_not_found;
use crate::response::status_ok;
use crate::response::status_ok_json;

verus! {

/// The decimal digit character for `n`.
pub open spec fn spec_digit(n: u8) -> char
    recommends
        n < 10,
{
    (('0' as u8) + n) as char
}

/// The decimal text of a roll: one or two digits, no leading zero.
pub open spec fn spec_roll_text(n: u8) -> Seq<char>
    recommends
        1 <= n <= 99,
{
    if n < 10 {
        seq![spec_digit(n)]
    } else {
        seq![spec_digit(n / 10), spec_digit(n % 10)]
    }
}

/// Relies on rand::random_range: a value drawn from the given range. The
/// draw is chance, so only the range holds of every outcome.
#[verifier::external_body]
fn roll_d20() -> (r: u8)
    ensures
        1 <= r <= 20,
{
    rand::random_range(1..=20)
}

/// The text of a die roll.
pub fn roll_text(n: u8) -> (r: &'static str)
    requires
        1 <= n <= 20,
    ensures
        r@ == spec_roll_text(n),
{
    match n {
        1 => {
            proof {
                reveal_strlit("1");
            }
            "1"
        },
        2 => {
            proof {
                reveal_strlit("2");
            }
            "2"
        },
        3 => {
            proof {
                reveal_strlit("3");
            }
            "3"
        },
        4 => {
            proof {
                reveal_strlit("4");
            }
            "4"
        },
        5 => {
            proof {
                reveal_strlit("5");
            }
            "5"
        },
        6 => {
            proof {
                reveal_strlit("6");
            }
            "6"
        },
        7 => {
            proof {
                reveal_strlit("7");
            }
            "7"
        },
        8 => {
            proof {
                reveal_strlit("8");
            }
            "8"
        },
        9 => {
            proof {
                reveal_strlit("9");
            }
            "9"
        },
        10 => {
            proof {
                reveal_strlit("10");
            }
            "10"
        },
        11 => {
            proof {
                reveal_strlit("11");
            }
            "11"
        },
        12 => {
            proof {
                reveal_strlit("12");
            }
            "12"
        },
        13 => {
            proof {
                reveal_strlit("13");
            }
            "13"
        },
        14 => {
            proof {
                reveal_strlit("14");
            }
            "14"
        },
        15 => {
            proof {
                reveal_strlit("15");
            }
            "15"
        },
        16 => {
            proof {
                reveal_strlit("16");
            }
            "16"
        },
        17 => {
            proof {
                reveal_strlit("17");
            }
            "17"
        },
        18 => {
            proof {
                reveal_strlit("18");
            }
            "18"
        },
        19 => {
            proof {
                reveal_strlit("19");
            }
            "19"
        },
        _ => {
            proof {
                reveal_strlit("20");
            }
            "20"
        },
    }
}

/// The die-roll response for a known roll.
pub fn d20_response_for(n: u8) -> (r: String)
    requires
        1 <= n <= 20,
    ensures
        r@ == "HTTP/1.1 200 OK\r\n\r\n"@ + spec_roll_text(n),
{
    build_response(status_ok(), roll_text(n))
}

/// Handle a die-roll request: draw the roll and assemble its response.
/// Which roll comes out is chance; every outcome is the well-formed
/// response for a roll between one and twenty.
pub fn d20_response() -> (r: String)
    ensures
        exists|n: u8|
            1 <= n <= 20 && r@ == "HTTP/1.1 200 OK\r\n\r\n"@ + spec_roll_text(n),
{
    let n = roll_d20();
    let r = d20_response_for(n);
    proof {
        assert(1 <= n <= 20 && r@ == "HTTP/1.1 200 OK\r\n\r\n"@ + spec_roll_text(n));
    }
    r
}

/// The body reporting a save's outcome to the client.
pub fn save_status_body(write_succeeded: bool) -> (r: &'static str)
    ensures
        write_succeeded ==> r@ == "{\"status\": \"ok\"}\n"@,
        !write_succeeded ==> r@ == "{\"status\": \"fail\"}\n"@,
{
    if write_succeeded {
        "{\"status\": \"ok\"}\n"
    } else {
        "{\"status\": \"fail\"}\n"
    }
}

/// The full response to a save request, for either write outcome.
pub fn save_response(write_succeeded: bool) -> (r: String)
    ensures
        write_succeeded ==> r@ == "HTTP/1.1 200 OK\nContent-Type: application/json\r\n\r\n"@
            + "{\"status\": \"ok\"}\n"@,
        !write_succeeded ==> r@ == "HTTP/1.1 200 OK\nContent-Type: application/json\r\n\r\n"@
            + "{\"status\": \"fail\"}\n"@,
{
    build_response(status_ok_json(), save_status_body(write_succeeded))
}

/// The reply to a save request, decided from the extracted body and, when
/// one was found, the write's outcome. A request whose bytes hold no
/// header-end marker is malformed: it is answered with the not-found page —
/// a user-visible error response, never a crash of the worker.
pub fn save_reply(body: &Option<Vec<u8>>, write_succeeded: bool, not_found_page: &str) -> (r:
    String)
    ensures
        body is Some && write_succeeded ==> r@ == "HTTP/1.1 200 OK\nContent-Type: application/json\r\n\r\n"@
            + "{\"status\": \"ok\"}\n"@,
        body is Some && !write_succeeded ==> r@ == "HTTP/1.1 200 OK\nContent-Type: application/json\r\n\r\n"@
            + "{\"status\": \"fail\"}\n"@,
        body is None ==> r@ == "HTTP/1.1 404 NOT FOUND\r\n\r\n"@ + not_found_page@,
{
    match body {
        Some(_) => save_response(write_succeeded),
        None => not_found_response(not_found_page),
    }
}

/// The response that serves page contents successfully.
pub fn ok_response(contents: &str) -> (r: String)
    ensures
        r@ == "HTTP/1.1 200 OK\r\n\r\n"@ + contents@,
{
    build_response(status_ok(), contents)
}

/// The not-found response around the error page's contents.
pub fn not_found_response(contents: &str) -> (r: String)
    ensures
        r@ == "HTTP/1.1 404 NOT FOUND\r\n\r\n"@ + contents@,
{
    build_response(status_not_found(), contents)
}

} // verus!
