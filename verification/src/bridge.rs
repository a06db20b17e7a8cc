//! The Hermytt bridge: its addresses, the HTTP requests it sends, the replies
//! it reads, and the decisions of the pipe between a shell and Hermytt.

use vstd::prelude::*;
use vstd::string::*;
use vstd::utf8::*;
use crate::error::{Error, is_bridge_error};
use crate::json::{JsonValue, json_get, json_parse, json_quoted, parse_json, parse_view, quote_json, get};
use crate::text::{
    char_vec, concat, contains_seq, contains_str, decimal, decimal_digits, matches_at,
    occurs_at, replace_all, replace_all_str, split_once, split_once_str, str_eq,
    trim_end_char, trim_end_matches_char,
};

verus! {

/// A client of one Hermytt server.
pub struct HermyttBridge {
    base_url: String,
    auth_key: String,
}

/// What a bridge holds: the server's base URL and the key it presents.
pub struct BridgeView {
    pub base_url: Seq<char>,
    pub auth_key: Seq<char>,
}

impl View for HermyttBridge {
    type V = BridgeView;

    closed spec fn view(&self) -> BridgeView {
        BridgeView { base_url: self.base_url@, auth_key: self.auth_key@ }
    }
}

/// The websocket address of session `id` under `base`: the scheme `http://`
/// becomes `ws://` and `https://` becomes `wss://`, wherever they stand.
pub open spec fn ws_url_of(base: Seq<char>, id: Seq<char>) -> Seq<char> {
    replace_all(replace_all(base, "http://"@, "ws://"@), "https://"@, "wss://"@)
        + "/internal/session/"@ + id + "/pipe"@
}

/// The JSON body of a session registration: the shell's id, or an empty object.
pub open spec fn register_body_of(id: Option<Seq<char>>) -> Seq<char> {
    match id {
        Some(i) => "{\"id\":"@ + json_quoted(i) + "}"@,
        None => "{}"@,
    }
}

impl HermyttBridge {
    /// A bridge to the server at `hermytt_url`, with every trailing `/` of the
    /// URL removed.
    pub fn new(hermytt_url: &str, auth_key: &str) -> (r: Self)
        ensures
            r@.base_url == trim_end_char(hermytt_url@, '/'),
            r@.auth_key == auth_key@,
    {
        HermyttBridge {
            base_url: trim_end_matches_char(hermytt_url, '/'),
            auth_key: auth_key.to_owned(),
        }
    }

    /// The server's base URL.
    pub fn base_url(&self) -> (r: &str)
        ensures
            r@ == self@.base_url,
    {
        self.base_url.as_str()
    }

    /// The key presented to the server.
    pub fn auth_key(&self) -> (r: &str)
        ensures
            r@ == self@.auth_key,
    {
        self.auth_key.as_str()
    }

    /// Returns true if the bridge has a real (non-localhost) hermytt URL configured.
    pub fn is_configured(&self) -> (r: bool)
        ensures
            r == !contains_seq(self@.base_url, "localhost"@),
    {
        !contains_str(self.base_url.as_str(), "localhost")
    }

    /// The websocket address of the pipe of session `session_id`.
    pub fn ws_url(&self, session_id: &str) -> (r: String)
        ensures
            r@ == ws_url_of(self@.base_url, session_id@),
    {
        proof {
            reveal_strlit("http://");
            reveal_strlit("https://");
        }
        let ws = replace_all_str(self.base_url.as_str(), "http://", "ws://");
        let wss = replace_all_str(ws.as_str(), "https://", "wss://");
        let mut r = concat(wss.as_str(), "/internal/session/");
        r.append(session_id);
        r.append("/pipe");
        r
    }

    /// The address sessions are registered at.
    pub fn register_url(&self) -> (r: String)
        ensures
            r@ == self@.base_url + "/internal/session"@,
    {
        concat(self.base_url.as_str(), "/internal/session")
    }

    /// The address of session `session_id`, which unregistering deletes.
    pub fn session_url(&self, session_id: &str) -> (r: String)
        ensures
            r@ == self@.base_url + "/internal/session/"@ + session_id@,
    {
        let mut r = concat(self.base_url.as_str(), "/internal/session/");
        r.append(session_id);
        r
    }
}


/// What follows the `http://` or `https://` scheme of `url`; nothing for any
/// other scheme.
pub open spec fn url_rest(url: Seq<char>) -> Option<Seq<char>> {
    if occurs_at(url, "http://"@, 0) {
        Some(url.skip("http://"@.len() as int))
    } else if occurs_at(url, "https://"@, 0) {
        Some(url.skip("https://"@.len() as int))
    } else {
        None
    }
}

/// The host and the path of what follows a URL's scheme: the cut is at the
/// first `/`, which stays with the path; with no `/`, the path is `/`.
pub open spec fn host_and_path(rest: Seq<char>) -> (Seq<char>, Seq<char>) {
    match split_once(rest, seq!['/']) {
        Some((host, path)) => (host, seq!['/'] + path),
        None => (rest, seq!['/']),
    }
}

/// The bytes of `s` as UTF-8.
pub open spec fn utf8_len(s: Seq<char>) -> nat {
    encode_utf8(s).len()
}

/// The HTTP/1.1 POST request for `path` on `host`, carrying `body` as JSON
/// and the key in `X-Hermytt-Key`.
pub open spec fn post_request_of(host: Seq<char>, path: Seq<char>, key: Seq<char>, body: Seq<char>) -> Seq<char> {
    "POST "@ + path + " HTTP/1.1\r\nHost: "@ + host + "\r\nX-Hermytt-Key: "@ + key
        + "\r\nContent-Type: application/json\r\nContent-Length: "@
        + decimal_digits(utf8_len(body)) + "\r\nConnection: close\r\n\r\n"@ + body
}

/// The HTTP/1.1 DELETE request for `path` on `host`, with the key in
/// `X-Hermytt-Key`.
pub open spec fn delete_request_of(host: Seq<char>, path: Seq<char>, key: Seq<char>) -> Seq<char> {
    "DELETE "@ + path + " HTTP/1.1\r\nHost: "@ + host + "\r\nX-Hermytt-Key: "@ + key
        + "\r\nConnection: close\r\n\r\n"@
}

/// The view of a `(host, request)` result.
pub open spec fn request_view(r: Result<(String, String), Error>) -> Option<(Seq<char>, Seq<char>)> {
    match r {
        Ok((h, q)) => Some((h@, q@)),
        Err(_) => None,
    }
}

/// Splits an `http://` or `https://` URL into its host (with its port) and
/// its path; any other URL is refused with the bridge error `bad url`.
pub fn parse_url(url: &str) -> (r: Result<(String, String), Error>)
    ensures
        match r {
            Ok((host, path)) => url_rest(url@) matches Some(rest)
                && (host@, path@) == host_and_path(rest),
            Err(e) => url_rest(url@) is None && is_bridge_error(e, "bad url"@),
        },
{
    let uv = char_vec(url);
    let http = char_vec("http://");
    let https = char_vec("https://");
    let rest = if matches_at(&uv, 0, &http) {
        url.substring_char(http.len(), uv.len())
    } else if matches_at(&uv, 0, &https) {
        url.substring_char(https.len(), uv.len())
    } else {
        return Err(Error::Bridge("bad url".to_owned()));
    };
    assert(rest@ == url_rest(url@)->0);
    match split_once_str(rest, "/") {
        Some((host, path)) => {
            proof { reveal_strlit("/"); }
            assert("/"@ == seq!['/']);
            let full = concat("/", path.as_str());
            assert(split_once(rest@, seq!['/']) == Some((host@, path@)));
            assert((host@, full@) == host_and_path(rest@));
            Ok((host, full))
        },
        None => {
            proof { reveal_strlit("/"); }
            assert("/"@ == seq!['/']);
            assert(split_once(rest@, seq!['/']) is None);
            Ok((rest.to_owned(), "/".to_owned()))
        },
    }
}

/// The host to connect to and the POST request that `http_post` sends for
/// `url`, `auth_key` and `body`.
pub fn post_request(url: &str, auth_key: &str, body: &str) -> (r: Result<(String, String), Error>)
    ensures
        match r {
            Ok((host, req)) => url_rest(url@) matches Some(rest)
                && host@ == host_and_path(rest).0
                && req@ == post_request_of(host@, host_and_path(rest).1, auth_key@, body@),
            Err(e) => url_rest(url@) is None && is_bridge_error(e, "bad url"@),
        },
{
    match parse_url(url) {
        Ok((host, path)) => {
            let mut req = concat("POST ", path.as_str());
            req.append(" HTTP/1.1\r\nHost: ");
            req.append(host.as_str());
            req.append("\r\nX-Hermytt-Key: ");
            req.append(auth_key);
            req.append("\r\nContent-Type: application/json\r\nContent-Length: ");
            let len = decimal(body.as_bytes().len());
            req.append(len.as_str());
            req.append("\r\nConnection: close\r\n\r\n");
            req.append(body);
            Ok((host, req))
        },
        Err(e) => Err(e),
    }
}

/// The host to connect to and the DELETE request that `http_delete` sends
/// for `url` and `auth_key`.
pub fn delete_request(url: &str, auth_key: &str) -> (r: Result<(String, String), Error>)
    ensures
        match r {
            Ok((host, req)) => url_rest(url@) matches Some(rest)
                && host@ == host_and_path(rest).0
                && req@ == delete_request_of(host@, host_and_path(rest).1, auth_key@),
            Err(e) => url_rest(url@) is None && is_bridge_error(e, "bad url"@),
        },
{
    match parse_url(url) {
        Ok((host, path)) => {
            let mut req = concat("DELETE ", path.as_str());
            req.append(" HTTP/1.1\r\nHost: ");
            req.append(host.as_str());
            req.append("\r\nX-Hermytt-Key: ");
            req.append(auth_key);
            req.append("\r\nConnection: close\r\n\r\n");
            Ok((host, req))
        },
        Err(e) => Err(e),
    }
}

/// The body of a raw HTTP response: what follows the first blank line; a
/// response without one is refused as `malformed response`.
pub fn response_body(resp: &str) -> (r: Result<String, Error>)
    ensures
        match r {
            Ok(body) => split_once(resp@, "\r\n\r\n"@) matches Some((_, b)) && body@ == b,
            Err(e) => split_once(resp@, "\r\n\r\n"@) is None && is_bridge_error(e, "malformed response"@),
        },
{
    match split_once_str(resp, "\r\n\r\n") {
        Some((_, body)) => Ok(body),
        None => Err(Error::Bridge("malformed response".to_owned())),
    }
}


/// The view of an optional string.
pub open spec fn opt_str_view(s: Option<&str>) -> Option<Seq<char>> {
    match s {
        Some(x) => Some(x@),
        None => None,
    }
}

/// The JSON body that registers a managed session: `{"id":…}` with the
/// shell's id, or `{}` without one.
pub fn register_body(id: Option<&str>) -> (r: String)
    ensures
        r@ == register_body_of(opt_str_view(id)),
{
    match id {
        Some(i) => {
            let quoted = quote_json(i);
            let mut r = concat("{\"id\":", quoted.as_str());
            r.append("}");
            r
        },
        None => "{}".to_owned(),
    }
}

impl HermyttBridge {
    /// The host and the request that register a managed session for shell `id`.
    pub fn register_request(&self, id: Option<&str>) -> (r: Result<(String, String), Error>)
        ensures
            match r {
                Ok((host, req)) => url_rest(self@.base_url + "/internal/session"@) matches Some(rest)
                    && host@ == host_and_path(rest).0
                    && req@ == post_request_of(host@, host_and_path(rest).1, self@.auth_key, register_body_of(opt_str_view(id))),
                Err(e) => url_rest(self@.base_url + "/internal/session"@) is None && is_bridge_error(e, "bad url"@),
            },
    {
        let url = self.register_url();
        let body = register_body(id);
        post_request(url.as_str(), self.auth_key.as_str(), body.as_str())
    }

    /// The host and the request that unregister session `session_id`.
    pub fn unregister_request(&self, session_id: &str) -> (r: Result<(String, String), Error>)
        ensures
            match r {
                Ok((host, req)) => url_rest(self@.base_url + "/internal/session/"@ + session_id@) matches Some(rest)
                    && host@ == host_and_path(rest).0
                    && req@ == delete_request_of(host@, host_and_path(rest).1, self@.auth_key),
                Err(e) => url_rest(self@.base_url + "/internal/session/"@ + session_id@) is None && is_bridge_error(e, "bad url"@),
            },
    {
        let url = self.session_url(session_id);
        delete_request(url.as_str(), self.auth_key.as_str())
    }
}

/// The `"id"` string of a registration reply.
pub open spec fn session_id_of(v: JsonValue) -> Option<Seq<char>> {
    match json_get(v, "id"@) {
        Some(JsonValue::Str(s)) => Some(s@),
        _ => None,
    }
}

/// What a registration reply yields: the session id, or the text of the
/// bridge error that refuses it.
pub open spec fn register_outcome(parsed: Result<JsonValue, Seq<char>>) -> Result<Seq<char>, Seq<char>> {
    match parsed {
        Err(m) => Err("register parse: "@ + m),
        Ok(v) => match session_id_of(v) {
            Some(id) => Ok(id),
            None => Err("no id in register response"@),
        },
    }
}

/// The view of a result that is a string or a bridge error; nothing for any
/// other error.
pub open spec fn bridge_outcome(r: Result<String, Error>) -> Option<Result<Seq<char>, Seq<char>>> {
    match r {
        Ok(s) => Some(Ok(s@)),
        Err(Error::Bridge(m)) => Some(Err(m@)),
        Err(_) => None,
    }
}

/// The session id in a parsed registration reply.
pub fn session_id_from_json(parsed: Result<JsonValue, String>) -> (r: Result<String, Error>)
    ensures
        bridge_outcome(r) == Some(register_outcome(parse_view(parsed))),
{
    match parsed {
        Err(m) => Err(Error::Bridge(concat("register parse: ", m.as_str()))),
        Ok(v) => match get(&v, "id") {
            Some(JsonValue::Str(s)) => Ok(s.clone()),
            _ => Err(Error::Bridge("no id in register response".to_owned())),
        },
    }
}

/// The session id in the body of a registration reply.
pub fn session_id_from_reply(body: &str) -> (r: Result<String, Error>)
    ensures
        bridge_outcome(r) == Some(register_outcome(json_parse(body@))),
{
    session_id_from_json(parse_json(body))
}

/// The `[cols, rows]` of a resize control frame, each taken modulo 2^16 as
/// `as u16` takes it.
pub open spec fn resize_of(v: JsonValue) -> Option<(u16, u16)> {
    match json_get(v, "resize"@) {
        Some(JsonValue::Array(items)) => if items@.len() >= 2 {
            match (items@[0], items@[1]) {
                (JsonValue::Number(Some(cols)), JsonValue::Number(Some(rows))) => Some(
                    (cols as u16, rows as u16),
                ),
                _ => None,
            }
        } else {
            None
        },
        _ => None,
    }
}

/// The resize request in a parse result, if it is one.
pub open spec fn resize_of_parse(parsed: Result<JsonValue, Seq<char>>) -> Option<(u16, u16)> {
    match parsed {
        Ok(v) => resize_of(v),
        Err(_) => None,
    }
}

/// The `(cols, rows)` of a parsed resize control frame.
pub fn resize_from_json(parsed: &Result<JsonValue, String>) -> (r: Option<(u16, u16)>)
    ensures
        r == resize_of_parse(parse_view(*parsed)),
{
    match parsed {
        Err(_) => None,
        Ok(v) => match get(v, "resize") {
            Some(JsonValue::Array(items)) => {
                if items.len() < 2 {
                    return None;
                }
                match (&items[0], &items[1]) {
                    (JsonValue::Number(Some(cols)), JsonValue::Number(Some(rows))) => Some(
                        (*cols as u16, *rows as u16),
                    ),
                    _ => None,
                }
            },
            _ => None,
        },
    }
}

/// The `(cols, rows)` of a resize control frame `{"resize":[cols,rows]}`.
pub fn parse_resize(text: &str) -> (r: Option<(u16, u16)>)
    ensures
        r == resize_of_parse(json_parse(text@)),
{
    let parsed = parse_json(text);
    resize_from_json(&parsed)
}

/// Accepts the server's answer to the websocket key handshake: exactly
/// `auth:ok`; anything else is refused with `auth rejected: ` and the answer.
pub fn check_auth_reply(text: &str) -> (r: Result<(), Error>)
    ensures
        r is Ok <==> text@ == "auth:ok"@,
        r matches Err(e) ==> is_bridge_error(e, "auth rejected: "@ + text@),
{
    if str_eq(text, "auth:ok") {
        Ok(())
    } else {
        Err(Error::Bridge(concat("auth rejected: ", text)))
    }
}

} // verus!
