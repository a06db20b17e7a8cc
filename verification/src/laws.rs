//! Laws of the library that span its functions, proved over the spec
//! functions their contracts use.

use vstd::prelude::*;
use vstd::string::*;
use vstd::utf8::encode_utf8;
use crate::api::{named_hosts, request_allowed};
use crate::bridge::{host_and_path, register_body_of, register_outcome, url_rest, ws_url_of};
use crate::client::client_request_of;
use crate::pipe::{frame_bytes, resize_of_bytes, WsFrame};
use crate::json::{
    JsonValue, hex_digit, hex_value, json_char_escape, json_escaped, json_quoted, read_json_string, short_escape,
    unicode_escape,
};
use crate::text::{
    contains_seq, decimal_digits, digit_char, first_occurrence, lemma_first_occurrence_unique,
    occurs_at, replace_all, split_once, trim_end_char,
};

verus! {

/// The base URL a bridge keeps is its URL less a trailing run of `/`: the
/// URL starts with it, only `/` follows it, it does not end in `/`, and
/// building a bridge from it again keeps it unchanged.
pub proof fn base_url_drops_only_trailing_slashes(url: Seq<char>)
    ensures
        trim_end_char(url, '/').len() <= url.len(),
        url.take(trim_end_char(url, '/').len() as int) == trim_end_char(url, '/'),
        forall|i: int| trim_end_char(url, '/').len() <= i < url.len() ==> url[i] == '/',
        trim_end_char(url, '/').len() == 0 || trim_end_char(url, '/').last() != '/',
        trim_end_char(trim_end_char(url, '/'), '/') == trim_end_char(url, '/'),
    decreases url.len(),
{
    if url.len() > 0 && url.last() == '/' {
        base_url_drops_only_trailing_slashes(url.drop_last());
        let b = trim_end_char(url, '/');
        assert(url.drop_last().take(b.len() as int) == url.take(b.len() as int));
        assert forall|i: int| b.len() <= i < url.len() implies url[i] == '/' by {
            if i < url.len() - 1 {
                assert(url.drop_last()[i] == url[i]);
            }
        }
    } else {
        assert(url.take(url.len() as int) == url);
    }
}

/// Replacing a pattern that does not occur leaves the text unchanged.
pub proof fn replace_all_without_pattern(s: Seq<char>, pat: Seq<char>, rep: Seq<char>)
    requires
        pat.len() > 0,
        !contains_seq(s, pat),
    ensures
        replace_all(s, pat, rep) == s,
    decreases s.len(),
{
    if s.len() >= pat.len() {
        assert(!occurs_at(s, pat, 0));
        assert forall|i: int| !occurs_at(s.skip(1), pat, i) by {
            if occurs_at(s.skip(1), pat, i) {
                assert(s.subrange(i + 1, i + 1 + pat.len()) == s.skip(1).subrange(i, i + pat.len()));
                assert(occurs_at(s, pat, i + 1));
            }
        }
        replace_all_without_pattern(s.skip(1), pat, rep);
        assert(s == seq![s[0]] + s.skip(1));
    }
}

/// A leading character other than the pattern's first is kept as it is.
proof fn replace_all_keeps_char(c: char, t: Seq<char>, pat: Seq<char>, rep: Seq<char>)
    requires
        pat.len() > 0,
        c != pat[0],
    ensures
        replace_all(seq![c] + t, pat, rep) == seq![c] + replace_all(t, pat, rep),
{
    let s = seq![c] + t;
    assert(s.skip(1) == t);
    if s.len() >= pat.len() {
        assert(s.subrange(0, pat.len() as int)[0] == c);
    } else {
        replace_all_short(t, pat, rep);
    }
}

/// A text shorter than the pattern is unchanged.
proof fn replace_all_short(t: Seq<char>, pat: Seq<char>, rep: Seq<char>)
    requires
        t.len() < pat.len(),
    ensures
        replace_all(t, pat, rep) == t,
{
}

/// A leading occurrence of the pattern is replaced.
proof fn replace_all_leading(t: Seq<char>, pat: Seq<char>, rep: Seq<char>)
    requires
        pat.len() > 0,
    ensures
        replace_all(pat + t, pat, rep) == rep + replace_all(t, pat, rep),
{
    let s = pat + t;
    assert(s.subrange(0, pat.len() as int) == pat);
    assert(s.skip(pat.len() as int) == t);
}

/// Neither scheme occurs in `h`.
pub open spec fn scheme_free(h: Seq<char>) -> bool {
    !contains_seq(h, "http://"@) && !contains_seq(h, "https://"@)
}

/// The pipe of a session under an `http://` server is reached at `ws://`
/// on the same host and path.
pub proof fn ws_url_of_http_server(h: Seq<char>, id: Seq<char>)
    requires
        scheme_free(h),
    ensures
        ws_url_of("http://"@ + h, id) == "ws://"@ + h + "/internal/session/"@ + id + "/pipe"@,
{
    reveal_strlit("http://");
    reveal_strlit("https://");
    reveal_strlit("ws://");
    let http = "http://"@;
    let https = "https://"@;
    let ws = "ws://"@;
    replace_all_leading(h, http, ws);
    replace_all_without_pattern(h, http, ws);
    replace_all_without_pattern(h, https, "wss://"@);
    let w = ws + h;
    assert(w == seq!['w'] + (seq!['s'] + (seq![':'] + (seq!['/'] + (seq!['/'] + h)))));
    replace_all_keeps_char('/', h, https, "wss://"@);
    replace_all_keeps_char('/', seq!['/'] + h, https, "wss://"@);
    replace_all_keeps_char(':', seq!['/'] + (seq!['/'] + h), https, "wss://"@);
    replace_all_keeps_char('s', seq![':'] + (seq!['/'] + (seq!['/'] + h)), https, "wss://"@);
    replace_all_keeps_char('w', seq!['s'] + (seq![':'] + (seq!['/'] + (seq!['/'] + h))), https, "wss://"@);
}

/// The pipe of a session under an `https://` server is reached at `wss://`
/// on the same host and path.
pub proof fn ws_url_of_https_server(h: Seq<char>, id: Seq<char>)
    requires
        scheme_free(h),
    ensures
        ws_url_of("https://"@ + h, id) == "wss://"@ + h + "/internal/session/"@ + id + "/pipe"@,
{
    reveal_strlit("http://");
    reveal_strlit("https://");
    reveal_strlit("wss://");
    let http = "http://"@;
    let https = "https://"@;
    let u = https + h;
    replace_all_without_pattern(h, http, "ws://"@);
    replace_all_without_pattern(h, https, "wss://"@);
    let t1 = seq!['/'] + h;
    let t2 = seq!['/'] + t1;
    let t3 = seq![':'] + t2;
    let t4 = seq!['s'] + t3;
    let t5 = seq!['p'] + t4;
    let t6 = seq!['t'] + t5;
    let t7 = seq!['t'] + t6;
    assert(u == seq!['h'] + t7);
    replace_all_keeps_char('/', h, http, "ws://"@);
    replace_all_keeps_char('/', t1, http, "ws://"@);
    replace_all_keeps_char(':', t2, http, "ws://"@);
    replace_all_keeps_char('s', t3, http, "ws://"@);
    replace_all_keeps_char('p', t4, http, "ws://"@);
    replace_all_keeps_char('t', t5, http, "ws://"@);
    replace_all_keeps_char('t', t6, http, "ws://"@);
    assert(u.subrange(0, http.len() as int)[4] != http[4]);
    assert(u.skip(1) == t7);
    assert(replace_all(u, http, "ws://"@) == u);
    replace_all_leading(h, https, "wss://"@);
}

/// `h` holds no `/`.
pub open spec fn slash_free(h: Seq<char>) -> bool {
    forall|i: int| 0 <= i < h.len() ==> h[i] != '/'
}

proof fn first_slash_after_host(h: Seq<char>, tail: Seq<char>)
    requires
        slash_free(h),
    ensures
        split_once(h + seq!['/'] + tail, seq!['/']) == Some((h, tail)),
{
    let s = h + seq!['/'] + tail;
    let i = h.len() as int;
    assert(s.subrange(i, i + 1) == seq!['/']);
    assert forall|j: int| 0 <= j < i implies !occurs_at(s, seq!['/'], j) by {
        assert(s.subrange(j, j + 1)[0] == h[j]);
    }
    assert(first_occurrence(s, seq!['/'], i));
    let k = choose|k: int| first_occurrence(s, seq!['/'], k);
    lemma_first_occurrence_unique(s, seq!['/'], i, k);
    assert(s.take(i) == h);
    assert(s.skip(i + 1) == tail);
}

/// `parse_url` gives back the host and the path of a URL written as a
/// scheme, a host without `/`, and a path: the path starts at the first `/`,
/// and is `/` when the URL has none.
pub proof fn parse_url_recovers_host_and_path(h: Seq<char>, tail: Seq<char>)
    requires
        slash_free(h),
    ensures
        url_rest("http://"@ + h + "/"@ + tail) == Some(h + "/"@ + tail),
        url_rest("https://"@ + h + "/"@ + tail) == Some(h + "/"@ + tail),
        host_and_path(h + "/"@ + tail) == (h, "/"@ + tail),
        url_rest("http://"@ + h) == Some(h),
        url_rest("https://"@ + h) == Some(h),
        host_and_path(h) == (h, "/"@),
{
    reveal_strlit("http://");
    reveal_strlit("https://");
    reveal_strlit("/");
    let http = "http://"@;
    let https = "https://"@;
    let rest = h + "/"@ + tail;
    assert(rest == h + seq!['/'] + tail);
    assert(http + h + "/"@ + tail == http + rest);
    assert(https + h + "/"@ + tail == https + rest);
    first_slash_after_host(h, tail);
    assert((http + rest).subrange(0, 7) == http);
    assert((http + rest).skip(7) == rest);
    assert((https + rest).subrange(0, 8) == https);
    assert((https + rest).skip(8) == rest);
    assert((https + rest)[4] != http[4]);
    assert((http + h).subrange(0, 7) == http);
    assert((http + h).skip(7) == h);
    assert((https + h).subrange(0, 8) == https);
    assert((https + h).skip(8) == h);
    assert((https + h)[4] != http[4]);
    assert(!contains_seq(h, seq!['/'])) by {
        if contains_seq(h, seq!['/']) {
            let j = choose|j: int| occurs_at(h, seq!['/'], j);
            assert(h.subrange(j, j + 1)[0] == h[j]);
        }
    }
}

/// The value of a decimal numeral.
pub open spec fn numeral_value(s: Seq<char>) -> int
    decreases s.len(),
{
    if s.len() == 0 {
        0
    } else {
        numeral_value(s.drop_last()) * 10 + (s.last() as int - '0' as int)
    }
}

/// The `Content-Length` written for a body reads back as the body's byte
/// count: every decimal numeral the library writes has the value it was
/// written for.
pub proof fn decimal_numeral_reads_back(n: nat)
    ensures
        numeral_value(decimal_digits(n)) == n,
    decreases n,
{
    let d = decimal_digits(n);
    if n < 10 {
        assert(d.drop_last().len() == 0);
        assert(numeral_value(d.drop_last()) == 0);
        assert(digit_char(n as int) as int - '0' as int == n);
    } else {
        decimal_numeral_reads_back(n / 10);
        assert(d.drop_last() == decimal_digits(n / 10));
        assert(digit_char((n % 10) as int) as int - '0' as int == n % 10);
        assert((n / 10) * 10 + n % 10 == n) by (nonlinear_arith);
    }
}

/// A hex digit the library writes reads back as its value.
proof fn hex_digit_reads_back(d: int)
    requires
        0 <= d < 16,
    ensures
        hex_value(hex_digit(d)) == Some(d),
{
}

/// Reading an escaped character, then the rest.
proof fn read_escaped_char(c: char, rest: Seq<char>)
    ensures
        read_json_string(json_char_escape(c) + rest) == match read_json_string(rest) {
            Some((v, after)) => Some((seq![c] + v, after)),
            None => None::<(Seq<char>, Seq<char>)>,
        },
{
    let e = json_char_escape(c);
    let t = e + rest;
    let u = c as u32;
    if c == '"' || c == '\\' || c == '\u{8}' || c == '\t' || c == '\n' || c == '\u{c}' || c == '\r' {
        assert(t[0] == '\\');
        assert(t.skip(2) == rest);
        assert(short_escape(t[1]) == Some(c));
    } else if u < 0x20 {
        let hi = u as int / 16;
        let lo = u as int % 16;
        hex_digit_reads_back(hi);
        hex_digit_reads_back(lo);
        assert(t[0] == '\\');
        assert(t[1] == 'u');
        assert(short_escape(t[1]) is None);
        let h = t.subrange(2, 6);
        assert(h[0] == '0' && h[1] == '0' && h[2] == hex_digit(hi) && h[3] == hex_digit(lo));
        assert(hi * 16 + lo == u);
        assert(((u as int) as u32) as char == c) by {
            vstd::utf8::char_u32_cast(c, u);
        }
        assert(unicode_escape(h) == Some(c));
        assert(t.skip(6) == rest);
    } else {
        assert(e == seq![c]);
        assert(t[0] == c);
        assert(t.skip(1) == rest);
    }
}

/// A string the library quotes reads back, as a JSON reader reads it, as
/// exactly that string, ending at the closing quote the library wrote: no
/// character of it can end the string early or reach past it.
pub proof fn json_quoted_reads_back(s: Seq<char>, rest: Seq<char>)
    ensures
        read_json_string(json_escaped(s) + seq!['"'] + rest) == Some((s, rest)),
    decreases s.len(),
{
    let t = json_escaped(s) + seq!['"'] + rest;
    if s.len() == 0 {
        assert(t == seq!['"'] + rest);
        assert(t.skip(1) == rest);
    } else {
        let tail = json_escaped(s.skip(1)) + seq!['"'] + rest;
        json_quoted_reads_back(s.skip(1), rest);
        assert(t == json_char_escape(s[0]) + tail);
        read_escaped_char(s[0], tail);
        assert(seq![s[0]] + s.skip(1) == s);
    }
}

/// The registration body carries the shell id as one JSON string and
/// nothing else: after `{"id":"` a JSON reader reads back exactly the id,
/// and only `}` follows it.
pub proof fn register_body_carries_exactly_the_id(id: Seq<char>)
    ensures
        register_body_of(Some(id)) == "{\"id\":"@ + seq!['"'] + json_escaped(id) + seq!['"'] + "}"@,
        read_json_string(json_escaped(id) + seq!['"'] + "}"@) == Some((id, "}"@)),
{
    assert(json_quoted(id) == seq!['"'] + json_escaped(id) + seq!['"']);
    assert("{\"id\":"@ + json_quoted(id) + "}"@ == "{\"id\":"@ + seq!['"'] + json_escaped(id) + seq!['"'] + "}"@);
    json_quoted_reads_back(id, "}"@);
}

/// A resize dimension is the number sent, modulo 2^16.
pub proof fn resize_dimension_wraps(n: u64)
    ensures
        (n as u16) as int == n as int % 65536,
{
    assert((n as u16) as u64 == n % 65536) by (bit_vector);
}

/// What the session table reads back of a write: after shell `id` is
/// recorded as attached to `session`, the table holds `session` for `id`,
/// holds what it held for every other shell, and forgetting `id` then
/// leaves the table as forgetting it before would.
pub proof fn session_table_reads_back_writes(
    table: Map<Seq<char>, Seq<char>>,
    id: Seq<char>,
    session: Seq<char>,
    other: Seq<char>,
)
    requires
        other != id,
    ensures
        table.insert(id, session).contains_key(id),
        table.insert(id, session)[id] == session,
        table.insert(id, session).contains_key(other) == table.contains_key(other),
        table.contains_key(other) ==> table.insert(id, session)[other] == table[other],
        table.insert(id, session).remove(id) == table.remove(id),
        !table.remove(id).contains_key(id),
{
    assert(table.insert(id, session).remove(id) =~= table.remove(id));
}


/// A data frame's payload is what reaches the PTY byte for byte: a binary
/// frame's bytes, a text frame's text in UTF-8 (a trailing carriage return
/// included), and a text frame is handled as the binary frame holding its
/// UTF-8 bytes.
pub proof fn frames_carry_their_payload(t: String, d: Vec<u8>)
    ensures
        frame_bytes(WsFrame::Text(t)) == encode_utf8(t@),
        frame_bytes(WsFrame::Binary(d)) == d@,
        d@ == encode_utf8(t@) ==> resize_of_bytes(frame_bytes(WsFrame::Text(t)))
            == resize_of_bytes(frame_bytes(WsFrame::Binary(d))),
        t@.len() > 0 ==> frame_bytes(WsFrame::Text(t)).len() > 0,
{
    if t@.len() > 0 {
        vstd::utf8::encode_utf8_first_scalar(t@);
    }
}

/// A registration reply that is an object yields the string of its member
/// named `id`, whatever other members stand beside it or after it.
pub proof fn registration_reply_yields_the_id_member(fields: Vec<(String, JsonValue)>, i: int, s: String)
    requires
        0 <= i < fields@.len(),
        fields@[i].0@ == "id"@,
        forall|j: int| 0 <= j < i ==> fields@[j].0@ != "id"@,
        fields@[i].1 == JsonValue::Str(s),
    ensures
        register_outcome(Ok(JsonValue::Object(fields))) == Ok::<Seq<char>, Seq<char>>(s@),
{
    lemma_member_at(fields@, "id"@, i);
}

/// A registration reply with no member named `id`, or whose `id` is not a
/// string, or that is no object at all, is refused.
pub proof fn registration_reply_without_id_string_is_refused(fields: Vec<(String, JsonValue)>, i: int, other: JsonValue)
    requires
        0 <= i <= fields@.len(),
        forall|j: int| 0 <= j < i ==> fields@[j].0@ != "id"@,
        i == fields@.len() || (fields@[i].0@ == "id"@ && !(fields@[i].1 is Str)),
    ensures
        register_outcome(Ok(JsonValue::Object(fields))) == Err::<Seq<char>, Seq<char>>("no id in register response"@),
        !(other is Object) ==> register_outcome(Ok(other)) == Err::<Seq<char>, Seq<char>>("no id in register response"@),
{
    if i == fields@.len() {
        lemma_member_absent(fields@, "id"@);
    } else {
        lemma_member_at(fields@, "id"@, i);
    }
}

/// The member found for `key` is the first one named `key`.
proof fn lemma_member_at(fields: Seq<(String, JsonValue)>, key: Seq<char>, i: int)
    requires
        0 <= i < fields.len(),
        fields[i].0@ == key,
        forall|j: int| 0 <= j < i ==> fields[j].0@ != key,
    ensures
        crate::json::member(fields, key) == Some(fields[i].1),
    decreases i,
{
    if i > 0 {
        assert(fields[0].0@ != key);
        assert forall|j: int| 0 <= j < i - 1 implies fields.skip(1)[j].0@ != key by {
            assert(fields.skip(1)[j] == fields[j + 1]);
        }
        lemma_member_at(fields.skip(1), key, i - 1);
    }
}

/// No member is found for a key that no member has.
proof fn lemma_member_absent(fields: Seq<(String, JsonValue)>, key: Seq<char>)
    requires
        forall|j: int| 0 <= j < fields.len() ==> fields[j].0@ != key,
    ensures
        crate::json::member(fields, key) is None,
    decreases fields.len(),
{
    if fields.len() > 0 {
        assert(fields[0].0@ != key);
        assert forall|j: int| 0 <= j < fields.skip(1).len() implies fields.skip(1)[j].0@ != key by {
            assert(fields.skip(1)[j] == fields[j + 1]);
        }
        lemma_member_absent(fields.skip(1), key);
    }
}

/// An API request passes exactly when no key is configured or its header
/// holds the configured key character for character; a request without the
/// header passes only when no key is configured.
pub proof fn requests_pass_only_with_the_exact_key(key: Seq<char>, sent: Seq<char>)
    ensures
        request_allowed(key, Some(sent)) <==> (key.len() == 0 || sent == key),
        request_allowed(key, None) <==> key.len() == 0,
        request_allowed(key, Some(key)),
{
}

/// Every request the client writes starts with its method and path, on a
/// request line of its own, whether or not it carries a body; a body is
/// what the request ends with.
pub proof fn client_request_line_names_method_and_path(method: Seq<char>, path: Seq<char>, body: Option<Seq<char>>)
    ensures
        (method + " "@ + path + " HTTP/1.1\r\n"@).is_prefix_of(client_request_of(method, path, body)),
        body matches Some(b) ==> b.is_suffix_of(client_request_of(method, path, body)),
{
    reveal_strlit(" HTTP/1.1\r\n");
    reveal_strlit(" HTTP/1.1\r\nHost: localhost\r\nContent-Type: application/json\r\nContent-Length: ");
    reveal_strlit(" HTTP/1.1\r\nHost: localhost\r\nConnection: close\r\n\r\n");
    let r = client_request_of(method, path, body);
    let line = method + " "@ + path;
    match body {
        Some(b) => {
            assert((line + " HTTP/1.1\r\n"@).is_prefix_of(r));
            assert(r.subrange(r.len() - b.len(), r.len() as int) == b);
        },
        None => {
            assert((line + " HTTP/1.1\r\n"@).is_prefix_of(r));
        },
    }
}

/// Adding a shell to the configuration adds its host, if it names one, at
/// the end of the allowed hosts, and changes nothing else.
pub proof fn allowed_hosts_follow_the_configuration(hosts: Seq<Option<String>>, h: String)
    ensures
        named_hosts(Seq::empty()) == Seq::<Seq<char>>::empty(),
        named_hosts(hosts.push(Some(h))) == named_hosts(hosts).push(h@),
        named_hosts(hosts.push(None)) == named_hosts(hosts),
        named_hosts(seq![Some(h)]) == seq![h@],
{
    assert(hosts.push(Some(h)).drop_last() == hosts);
    assert(hosts.push(None::<String>).drop_last() == hosts);
    assert(seq![Some(h)].drop_last() == Seq::<Option<String>>::empty());
}

} // verus!
