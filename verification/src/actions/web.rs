//! Outbound web tools: input checks, the search URL, and the text handed
//! back to the model (search results, fetched bodies, HTTP responses).
use vstd::prelude::*;

use crate::scan::{fit_count, fitting_prefix_len, starts_with, trim, trim_seq, has_prefix};
use crate::text::{
    ascii_upper_seq, chars_of, decimal, is_ascii_text, eq_str, to_uppercase, uppercase, push_chars, push_decimal, push_str, slice_chars, string_of, utf8_len,
    utf8_len_at_least,
};

verus! {

/// Cap on the body text handed back to the model, in bytes.
pub const MAX_BODY_BYTES: usize = 8_000;

/// The UTF-8 encoding of `c`.
pub open spec fn utf8_bytes(c: char) -> Seq<u8> {
    let v = c as u32 as int;
    if v < 0x80 {
        seq![v as u8]
    } else if v < 0x800 {
        seq![(0xC0 + v / 64) as u8, (0x80 + v % 64) as u8]
    } else if v < 0x10000 {
        seq![(0xE0 + v / 4096) as u8, (0x80 + (v / 64) % 64) as u8, (0x80 + v % 64) as u8]
    } else {
        seq![
            (0xF0 + v / 262144) as u8,
            (0x80 + (v / 4096) % 64) as u8,
            (0x80 + (v / 64) % 64) as u8,
            (0x80 + v % 64) as u8,
        ]
    }
}

/// Upper-case hexadecimal digit for `d < 16`.
pub open spec fn hex_digit(d: int) -> char {
    if d < 10 {
        ('0' as u32 + d) as char
    } else {
        ('A' as u32 + d - 10) as char
    }
}

/// A byte left as is by percent-encoding: ASCII alphanumerics and `-`, `.`, `_`, `~`.
pub open spec fn url_safe(b: u8) -> bool {
    ||| 0x30 <= b <= 0x39
    ||| 0x41 <= b <= 0x5A
    ||| 0x61 <= b <= 0x7A
    ||| b == 0x2D
    ||| b == 0x2E
    ||| b == 0x5F
    ||| b == 0x7E
}

/// The percent-encoding of the bytes `bs`.
pub open spec fn pct_bytes(bs: Seq<u8>) -> Seq<char>
    decreases bs.len(),
{
    if bs.len() == 0 {
        seq![]
    } else {
        let b = bs.last();
        pct_bytes(bs.drop_last()) + if url_safe(b) {
            seq![b as char]
        } else {
            seq!['%', hex_digit(b as int / 16), hex_digit(b as int % 16)]
        }
    }
}

/// The percent-encoding of the UTF-8 bytes of `s`.
pub open spec fn url_encoded(s: Seq<char>) -> Seq<char>
    decreases s.len(),
{
    if s.len() == 0 {
        seq![]
    } else {
        url_encoded(s.drop_last()) + pct_bytes(utf8_bytes(s.last()))
    }
}

/// Calls `urlencoding::encode`, which percent-encodes every UTF-8 byte of its
/// argument except ASCII alphanumerics and `-`, `_`, `.`, `~`, writing `%`
/// and two upper-case hex digits. Contract: the result is `url_encoded` of the argument.
#[verifier::external_body]
fn url_encode(s: &str) -> (r: String)
    ensures
        r@ == url_encoded(s@),
{
    urlencoding::encode(s).into_owned()
}

/// `body` cut to the longest prefix of at most `MAX_BODY_BYTES` bytes that ends
/// on a character boundary, with a truncation marker, when it is longer than that.
pub open spec fn truncated(body: Seq<char>) -> Seq<char> {
    if utf8_len(body) > MAX_BODY_BYTES {
        body.take(fit_count(body, MAX_BODY_BYTES as int) as int) + "\n…[truncated]"@
    } else {
        body
    }
}

/// Cap `body` at `MAX_BODY_BYTES` bytes, marking the cut.
pub fn truncate(body: String) -> (r: String)
    ensures
        r@ == truncated(body@),
{
    let v = chars_of(body.as_str());
    if utf8_len_at_least(&v, MAX_BODY_BYTES + 1) {
        let n = fitting_prefix_len(&v, MAX_BODY_BYTES);
        let mut w = slice_chars(&v, 0, n);
        push_str(&mut w, "\n…[truncated]");
        proof {
            assert(v@.subrange(0, n as int) =~= v@.take(n as int));
        }
        string_of(&w)
    } else {
        body
    }
}

/// The query a web search is run for, or the message refusing it.
pub fn search_query(query: &str) -> (r: Result<String, String>)
    ensures
        trim_seq(query@).len() == 0 ==> (r matches Err(m) && m@ == "web_search needs a non-empty query"@),
        trim_seq(query@).len() > 0 ==> (r matches Ok(q) && q@ == trim_seq(query@)),
{
    let q = trim(&chars_of(query));
    if q.len() == 0 {
        Err(string_of(&chars_of("web_search needs a non-empty query")))
    } else {
        Ok(string_of(&q))
    }
}

/// The Instant Answer API URL searching for `query`.
pub fn search_url(query: &str) -> (r: String)
    ensures
        r@ == "https://api.duckduckgo.com/?q="@ + url_encoded(query@)
            + "&format=json&no_html=1&no_redirect=1"@,
{
    let mut v = chars_of("https://api.duckduckgo.com/?q=");
    let e = url_encode(query);
    push_str(&mut v, e.as_str());
    push_str(&mut v, "&format=json&no_html=1&no_redirect=1");
    string_of(&v)
}

/// The text of the first five related topics that have a non-empty text.
pub open spec fn topic_lines(topics: Seq<Option<Seq<char>>>) -> Seq<char>
    decreases topics.len(),
{
    if topics.len() == 0 {
        seq![]
    } else {
        topic_lines(topics.drop_last()) + match topics.last() {
            Some(t) => if t.len() > 0 {
                "• "@ + t + "\n"@
            } else {
                seq![]
            },
            None => seq![],
        }
    }
}

pub open spec fn opt_views(v: Seq<Option<String>>) -> Seq<Option<Seq<char>>> {
    v.map_values(|o: Option<String>| match o {
        Some(s) => Some(s@),
        None => None,
    })
}

/// The search answer from the response's abstract and related-topic texts:
/// the abstract line, then up to five `• topic` lines; a "no results" message
/// when nothing is left after trimming; the text truncated otherwise.
pub open spec fn search_answer(
    query: Seq<char>,
    abstract_text: Option<Seq<char>>,
    topics: Seq<Option<Seq<char>>>,
) -> Seq<char> {
    let head = match abstract_text {
        Some(a) => if a.len() > 0 {
            a + "\n"@
        } else {
            seq![]
        },
        None => seq![],
    };
    let five = if topics.len() > 5 {
        topics.take(5)
    } else {
        topics
    };
    let out = trim_seq(head + topic_lines(five));
    if out.len() == 0 {
        "web_search: no results for '"@ + query + "'"@
    } else {
        truncated(out)
    }
}

/// Assemble the search answer for `query` from the response's `AbstractText`
/// (if it is a string) and each related topic's `Text` (if it is a string).
pub fn search_answer_text(query: &str, abstract_text: Option<String>, topics: Vec<Option<String>>) -> (r:
    String)
    ensures
        r@ == search_answer(
            query@,
            match abstract_text {
                Some(a) => Some(a@),
                None => None,
            },
            opt_views(topics@),
        ),
{
    let ghost tv = opt_views(topics@);
    let mut out: Vec<char> = Vec::new();
    match &abstract_text {
        Some(a) => {
            if a.unicode_len() > 0 {
                push_str(&mut out, a.as_str());
                push_str(&mut out, "\n");
            }
        },
        None => {},
    }
    let ghost head = out@;
    let n: usize = if topics.len() > 5 {
        5
    } else {
        topics.len()
    };
    let ghost five = if tv.len() > 5 {
        tv.take(5)
    } else {
        tv
    };
    let mut i: usize = 0;
    while i < n
        invariant
            i <= n,
            n <= topics.len(),
            tv == opt_views(topics@),
            five == tv.take(n as int),
            out@ == head + topic_lines(five.take(i as int)),
        decreases n - i,
    {
        proof {
            assert(five.take(i + 1).drop_last() =~= five.take(i as int));
            assert(five.take(i + 1).last() == tv[i as int]);
        }
        match &topics[i] {
            Some(t) => {
                if t.unicode_len() > 0 {
                    push_str(&mut out, "• ");
                    push_str(&mut out, t.as_str());
                    push_str(&mut out, "\n");
                }
            },
            None => {},
        }
        i = i + 1;
    }
    proof {
        assert(five.take(n as int) =~= five);
        assert(if tv.len() > 5 {
            tv.take(5)
        } else {
            tv
        } == five);
    }
    let t = trim(&out);
    if t.len() == 0 {
        let mut m = chars_of("web_search: no results for '");
        push_str(&mut m, query);
        push_str(&mut m, "'");
        string_of(&m)
    } else {
        truncate(string_of(&t))
    }
}

/// The trimmed URL when it uses http(s); otherwise the message refusing it
/// (`tool` names the refusing tool, e.g. `web_fetch`).
pub fn http_url(tool: &str, url: &str) -> (r: Result<String, String>)
    ensures
        ({
            let u = trim_seq(url@);
            if has_prefix(u, "http://"@) || has_prefix(u, "https://"@) {
                r matches Ok(s) && s@ == u
            } else {
                r matches Err(m) && m@ == tool@ + " needs an http:// or https:// URL"@
            }
        }),
{
    let u = trim(&chars_of(url));
    if starts_with(&u, "http://") || starts_with(&u, "https://") {
        Ok(string_of(&u))
    } else {
        let mut m = chars_of(tool);
        push_str(&mut m, " needs an http:// or https:// URL");
        Err(string_of(&m))
    }
}

/// The text returned for an HTTP response: its status as the HTTP client
/// displays it (code and reason, e.g. `200 OK`) and its body, truncated.
pub fn http_response_text(status: &str, body: &str) -> (r: String)
    ensures
        r@ == truncated("HTTP "@ + status@ + "\n"@ + body@),
{
    let mut v = chars_of("HTTP ");
    push_str(&mut v, status);
    push_str(&mut v, "\n");
    push_str(&mut v, body);
    truncate(string_of(&v))
}

/// The methods `http_request` sends.
pub open spec fn allowed_method(m: Seq<char>) -> bool {
    m == "GET"@ || m == "POST"@ || m == "PUT"@ || m == "DELETE"@
}

/// Checks an upper-cased, trimmed HTTP method: `Ok` with the method when it is
/// one of GET, POST, PUT, DELETE; otherwise the refusal naming it.
pub fn http_method_checked(upper: &Vec<char>) -> (r: Result<String, String>)
    ensures
        allowed_method(upper@) ==> (r matches Ok(m) && m@ == upper@),
        !allowed_method(upper@) ==> (r matches Err(e) && e@
            == "http_request: unsupported method '"@ + upper@ + "'"@),
{
    if eq_str(upper, "GET") || eq_str(upper, "POST") || eq_str(upper, "PUT") || eq_str(upper, "DELETE") {
        Ok(string_of(upper))
    } else {
        let mut e = chars_of("http_request: unsupported method '");
        push_chars(&mut e, upper);
        push_str(&mut e, "'");
        Err(string_of(&e))
    }
}

/// The method of an HTTP request as `http_request` takes it: trimmed and
/// upper-cased (std's `to_uppercase`), then checked by `http_method_checked`.
pub fn http_method(method: &str) -> (r: Result<String, String>)
    ensures
        ({
            let u = uppercase(trim_seq(method@));
            &&& allowed_method(u) ==> (r matches Ok(m) && m@ == u)
            &&& !allowed_method(u) ==> (r matches Err(e) && e@
                == "http_request: unsupported method '"@ + u + "'"@)
        }),
        is_ascii_text(trim_seq(method@)) ==> uppercase(trim_seq(method@)) == ascii_upper_seq(
            trim_seq(method@),
        ),
{
    let t = trim(&chars_of(method));
    let u = to_uppercase(&t);
    http_method_checked(&u)
}

/// The checks `http_request` makes before sending: first the URL (see
/// `http_url`), then the method (see `http_method`). `Ok` holds the method and
/// the trimmed URL.
pub fn http_request_target(method: &str, url: &str) -> (r: Result<(String, String), String>)
    ensures
        ({
            let u = trim_seq(url@);
            let m = uppercase(trim_seq(method@));
            if !(has_prefix(u, "http://"@) || has_prefix(u, "https://"@)) {
                r matches Err(e) && e@ == "http_request needs an http:// or https:// URL"@
            } else if !allowed_method(m) {
                r matches Err(e) && e@ == "http_request: unsupported method '"@ + m + "'"@
            } else {
                r matches Ok((mm, uu)) && mm@ == m && uu@ == u
            }
        }),
{
    let u = match http_url("http_request", url) {
        Ok(u) => u,
        Err(e) => {
            proof {
                reveal_strlit("http_request");
                reveal_strlit(" needs an http:// or https:// URL");
                reveal_strlit("http_request needs an http:// or https:// URL");
                assert(e@ =~= "http_request needs an http:// or https:// URL"@);
            }
            return Err(e);
        },
    };
    match http_method(method) {
        Ok(m) => Ok((m, u)),
        Err(e) => Err(e),
    }
}


/// The map search URL for `query`.
pub fn maps_url(query: &str) -> (r: String)
    ensures
        r@ == "https://www.google.com/maps/search/"@ + url_encoded(query@),
{
    let mut v = chars_of("https://www.google.com/maps/search/");
    let e = url_encode(query);
    push_str(&mut v, e.as_str());
    string_of(&v)
}

} // verus!
