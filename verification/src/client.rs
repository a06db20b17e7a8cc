//! The command-line client's side of the daemon's HTTP API: the requests it
//! writes and the part of a response it prints.

use vstd::prelude::*;
use vstd::string::*;
use crate::bridge::utf8_len;
use crate::text::{concat, decimal, decimal_digits, split_once, split_once_str};

verus! {

/// The HTTP/1.1 request the client sends to the local daemon: `method` on
/// `path`, with a JSON body when there is one.
pub open spec fn client_request_of(method: Seq<char>, path: Seq<char>, body: Option<Seq<char>>) -> Seq<char> {
    match body {
        Some(b) => method + " "@ + path + " HTTP/1.1\r\nHost: localhost\r\nContent-Type: application/json\r\nContent-Length: "@
            + decimal_digits(utf8_len(b)) + "\r\nConnection: close\r\n\r\n"@ + b,
        None => method + " "@ + path + " HTTP/1.1\r\nHost: localhost\r\nConnection: close\r\n\r\n"@,
    }
}

/// Writes the request the client sends for `method`, `path` and `body`.
pub fn client_request(method: &str, path: &str, body: Option<&str>) -> (r: String)
    ensures
        r@ == client_request_of(method@, path@, match body { Some(b) => Some(b@), None => None }),
        (method@ + " "@ + path@ + " HTTP/1.1\r\n"@).is_prefix_of(r@),
        body matches Some(b) ==> b@.is_suffix_of(r@),
{
    let mut r = concat(method, " ");
    r.append(path);
    let ghost line = r@;
    match body {
        Some(b) => {
            r.append(" HTTP/1.1\r\nHost: localhost\r\nContent-Type: application/json\r\nContent-Length: ");
            let len = decimal(b.as_bytes().len());
            r.append(len.as_str());
            r.append("\r\nConnection: close\r\n\r\n");
            r.append(b);
            proof {
                reveal_strlit(" HTTP/1.1\r\nHost: localhost\r\nContent-Type: application/json\r\nContent-Length: ");
                reveal_strlit(" HTTP/1.1\r\n");
                assert((line + " HTTP/1.1\r\n"@).is_prefix_of(r@));
                assert(r@.subrange(r@.len() - b@.len(), r@.len() as int) == b@);
            }
        },
        None => {
            r.append(" HTTP/1.1\r\nHost: localhost\r\nConnection: close\r\n\r\n");
            proof {
                reveal_strlit(" HTTP/1.1\r\nHost: localhost\r\nConnection: close\r\n\r\n");
                reveal_strlit(" HTTP/1.1\r\n");
                assert((line + " HTTP/1.1\r\n"@).is_prefix_of(r@));
            }
        },
    }
    r
}

/// What the client prints of a response: the body after the first blank
/// line, or the whole response when there is no blank line.
pub fn client_response_body(resp: &str) -> (r: String)
    ensures
        r@ == match split_once(resp@, "\r\n\r\n"@) {
            Some((_, body)) => body,
            None => resp@,
        },
{
    match split_once_str(resp, "\r\n\r\n") {
        Some((_, body)) => body,
        None => resp.to_owned(),
    }
}

} // verus!
