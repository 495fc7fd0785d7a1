//! The decisions of the assistant's two servers: the localhost HTTP server
//! (request line, headers, token check, routing, response framing) and the
//! line-delimited JSON-RPC server (method routing and error messages).
use vstd::prelude::*;

use crate::scan::{
    parse_u64, parse_u64_spec, strip_prefix, strip_prefix_seq, trim, trim_seq, words, words_seq,
};
use crate::text::{
    ascii_lower_seq, chars_of, decimal, eq_str, push_decimal, push_str, slice_chars, string_of,
    to_ascii_lower, utf8_len,
};

verus! {

// ───────────────────────── HTTP ─────────────────────────

/// Body of a request refused for a missing or wrong token.
pub const UNAUTHORIZED_BODY: &'static str = "{\"error\":\"unauthorized\"}";

/// Body of the health probe.
pub const HEALTH_BODY: &'static str = "{\"status\":\"ok\"}";

/// Body for an unknown route.
pub const NOT_FOUND_BODY: &'static str = "{\"error\":\"not found\"}";

/// Calls std's `str::len`, which its documentation defines as the length in
/// bytes. Contract: the UTF-8 byte length of the characters.
#[verifier::external_body]
fn byte_len(s: &str) -> (r: usize)
    ensures
        r == utf8_len(s@),
{
    s.len()
}

/// Method and path of a request line: its first two words, `""` and `"/"` when missing.
pub fn request_parts(line: &str) -> (r: (String, String))
    ensures
        ({
            let ws = words_seq(line@);
            &&& r.0@ == (if ws.len() > 0 {
                ws[0]
            } else {
                Seq::<char>::empty()
            })
            &&& r.1@ == (if ws.len() > 1 {
                ws[1]
            } else {
                "/"@
            })
        }),
{
    let ws = words(&chars_of(line));
    let method = if ws.len() > 0 {
        string_of(&ws[0])
    } else {
        string_of(&Vec::new())
    };
    let path = if ws.len() > 1 {
        string_of(&ws[1])
    } else {
        string_of(&chars_of("/"))
    };
    (method, path)
}

/// What the headers read so far said.
#[derive(Debug, Clone)]
pub struct HeaderInfo {
    pub content_length: usize,
    pub token: Option<String>,
}

/// A blank line ends the headers.
pub fn is_header_end(line: &str) -> (r: bool)
    ensures
        r == (trim_seq(line@).len() == 0),
{
    trim(&chars_of(line)).len() == 0
}

/// What `str::parse::<usize>` gives, `0` when it fails.
pub open spec fn length_value(s: Seq<char>) -> nat {
    match parse_u64_spec(s) {
        Some(n) => if n <= usize::MAX {
            n
        } else {
            0
        },
        None => 0,
    }
}

impl HeaderInfo {
    pub fn new() -> (r: Self)
        ensures
            r.content_length == 0,
            r.token is None,
    {
        HeaderInfo { content_length: 0, token: None }
    }

    /// Take in one header line, its name matched without regard to ASCII case:
    /// `content-length:` sets the body length, `x-lai-token:` the presented
    /// token, which keeps its case as written.
    pub fn absorb(&mut self, header: &str)
        ensures
            ({
                let l = ascii_lower_seq(header@);
                match strip_prefix_seq(l, "content-length:"@) {
                    Some(v) => final(self).content_length == length_value(trim_seq(v)) && final(self).token
                        == old(self).token,
                    None => match strip_prefix_seq(l, "x-lai-token:"@) {
                        Some(_) => final(self).token matches Some(t) && t@ == trim_seq(
                            header@.skip("x-lai-token:"@.len() as int),
                        ) && final(self).content_length == old(self).content_length,
                        None => final(self).content_length == old(self).content_length
                            && final(self).token == old(self).token,
                    },
                }
            }),
    {
        let hc = chars_of(header);
        let l = to_ascii_lower(&hc);
        match strip_prefix(&l, "content-length:") {
            Some(v) => {
                let n = match parse_u64(&trim(&v)) {
                    Some(n) => if n <= usize::MAX as u64 {
                        n as usize
                    } else {
                        0
                    },
                    None => 0,
                };
                self.content_length = n;
            },
            None => match strip_prefix(&l, "x-lai-token:") {
                Some(v) => {
                    let name_len = chars_of("x-lai-token:").len();
                    proof {
                        reveal_strlit("x-lai-token:");
                        assert(l@.len() == hc@.len());
                    }
                    let value = slice_chars(&hc, name_len, hc.len());
                    proof {
                        assert(value@ =~= header@.skip("x-lai-token:"@.len() as int));
                    }
                    self.token = Some(string_of(&trim(&value)));
                },
                None => {},
            },
        }
    }
}

/// Whether a request may proceed: always without a configured token,
/// otherwise only when it presents exactly that token.
pub fn authorized(expected: Option<&str>, presented: Option<&str>) -> (r: bool)
    ensures
        r == match expected {
            None => true,
            Some(e) => match presented {
                Some(p) => p@ == e@,
                None => false,
            },
        },
{
    match expected {
        None => true,
        Some(e) => match presented {
            Some(p) => eq_str(&chars_of(p), e),
            None => false,
        },
    }
}

/// Where an HTTP request goes.
#[derive(Debug, Clone, Copy, PartialEq, Eq, Structural)]
pub enum HttpRoute {
    Chat,
    Health,
    NotFound,
}

pub fn http_route(method: &str, path: &str) -> (r: HttpRoute)
    ensures
        r == if method@ == "POST"@ && path@ == "/chat"@ {
            HttpRoute::Chat
        } else if method@ == "GET"@ && path@ == "/health"@ {
            HttpRoute::Health
        } else {
            HttpRoute::NotFound
        },
{
    let m = chars_of(method);
    let p = chars_of(path);
    if eq_str(&m, "POST") && eq_str(&p, "/chat") {
        HttpRoute::Chat
    } else if eq_str(&m, "GET") && eq_str(&p, "/health") {
        HttpRoute::Health
    } else {
        HttpRoute::NotFound
    }
}

/// A JSON response with `status` (e.g. "200 OK") and `body`, closing the connection.
pub fn http_response(status: &str, body: &str) -> (r: String)
    ensures
        r@ == "HTTP/1.1 "@ + status@ + "\r\nContent-Type: application/json\r\nContent-Length: "@
            + decimal(utf8_len(body@)) + "\r\nConnection: close\r\n\r\n"@ + body@,
{
    let mut v = chars_of("HTTP/1.1 ");
    push_str(&mut v, status);
    push_str(&mut v, "\r\nContent-Type: application/json\r\nContent-Length: ");
    let n = byte_len(body);
    push_decimal(&mut v, n as u64);
    push_str(&mut v, "\r\nConnection: close\r\n\r\n");
    push_str(&mut v, body);
    string_of(&v)
}

// ───────────────────────── JSON-RPC ─────────────────────────

/// MCP protocol version announced on `initialize`.
pub const PROTOCOL_VERSION: &'static str = "2025-11-25";

pub const PARSE_ERROR: i64 = -32700;

pub const METHOD_NOT_FOUND: i64 = -32601;

pub const INTERNAL_ERROR: i64 = -32603;

/// Where a JSON-RPC request goes.
#[derive(Debug, Clone)]
pub enum RpcRoute {
    Initialize,
    /// A notification: no reply.
    Initialized,
    ToolsList,
    Chat,
    /// `tools/call` for another tool; the error message.
    UnknownTool(String),
    /// Any other method; the error message.
    MethodNotFound(String),
}

/// Route a request by its method (and, for `tools/call`, the tool name).
pub fn rpc_route(method: &str, tool_name: &str) -> (r: RpcRoute)
    ensures
        method@ == "initialize"@ ==> r is Initialize,
        method@ == "notifications/initialized"@ ==> r is Initialized,
        method@ == "tools/list"@ ==> r is ToolsList,
        method@ == "tools/call"@ && tool_name@ == "chat"@ ==> r is Chat,
        method@ == "tools/call"@ && tool_name@ != "chat"@ ==> (r matches RpcRoute::UnknownTool(m) && m@
            == "unknown tool: "@ + tool_name@),
        method@ != "initialize"@ && method@ != "notifications/initialized"@ && method@ != "tools/list"@
            && method@ != "tools/call"@ ==> (r matches RpcRoute::MethodNotFound(m) && m@
            == "method not found: "@ + method@),
{
    proof {
        reveal_strlit("initialize");
        reveal_strlit("notifications/initialized");
        reveal_strlit("tools/list");
        reveal_strlit("tools/call");
        assert("initialize"@.len() == 10 && "initialize"@[0] == 'i');
        assert("notifications/initialized"@.len() == 25);
        assert("tools/list"@.len() == 10 && "tools/list"@[0] == 't' && "tools/list"@[6] == 'l');
        assert("tools/call"@.len() == 10 && "tools/call"@[0] == 't' && "tools/call"@[6] == 'c');
        assert("initialize"@ != "notifications/initialized"@);
        assert("initialize"@ != "tools/list"@);
        assert("initialize"@ != "tools/call"@);
        assert("tools/list"@ != "tools/call"@);
        assert("tools/list"@ != "notifications/initialized"@);
        assert("tools/call"@ != "notifications/initialized"@);
    }
    let m = chars_of(method);
    if eq_str(&m, "initialize") {
        return RpcRoute::Initialize;
    }
    if eq_str(&m, "notifications/initialized") {
        return RpcRoute::Initialized;
    }
    if eq_str(&m, "tools/list") {
        return RpcRoute::ToolsList;
    }
    if eq_str(&m, "tools/call") {
        if eq_str(&chars_of(tool_name), "chat") {
            return RpcRoute::Chat;
        }
        let mut v = chars_of("unknown tool: ");
        push_str(&mut v, tool_name);
        return RpcRoute::UnknownTool(string_of(&v));
    }
    let mut v = chars_of("method not found: ");
    push_str(&mut v, method);
    RpcRoute::MethodNotFound(string_of(&v))
}



/// What the server reads from a JSON-RPC line: `method`, the `id` as its JSON
/// text (`null` when absent), `params.name` and `params.arguments.text`; a
/// string field is `None` when it is absent or not a string.
#[derive(Debug, Clone)]
pub struct RpcFields {
    pub method: Option<String>,
    pub id: String,
    pub name: Option<String>,
    pub text: Option<String>,
}

/// A string field's characters.
pub open spec fn opt_chars(o: Option<String>) -> Option<Seq<char>> {
    match o {
        Some(s) => Some(s@),
        None => None,
    }
}

/// The fields as character sequences.
pub open spec fn fields_view(f: Option<RpcFields>) -> Option<
    (Option<Seq<char>>, Seq<char>, Option<Seq<char>>, Option<Seq<char>>),
> {
    match f {
        Some(x) => Some((opt_chars(x.method), x.id@, opt_chars(x.name), opt_chars(x.text))),
        None => None,
    }
}

/// What serde_json reads from a JSON-RPC line: `None` when the line is not
/// JSON, else `method`, the JSON text of `id`, `params.name` and
/// `params.arguments.text` (each string field `None` unless a string).
pub uninterp spec fn rpc_fields(line: Seq<char>) -> Option<
    (Option<Seq<char>>, Seq<char>, Option<Seq<char>>, Option<Seq<char>>),
>;

/// Calls `serde_json::from_str::<serde_json::Value>` on the line, reads
/// `method`, `params.name` and `params.arguments.text` with `as_str`, and
/// renders `id` with `Value`'s `Display` (`null` for a missing id). Contract:
/// the result is `rpc_fields` of the line; the JSON grammar is not stated.
#[verifier::external_body]
fn read_rpc_line(line: &str) -> (r: Option<RpcFields>)
    ensures
        fields_view(r) == rpc_fields(line@),
{
    match serde_json::from_str::<serde_json::Value>(line) {
        Ok(msg) => Some(RpcFields {
            method: msg["method"].as_str().map(|s| s.to_string()),
            id: msg["id"].to_string(),
            name: msg["params"]["name"].as_str().map(|s| s.to_string()),
            text: msg["params"]["arguments"]["text"].as_str().map(|s| s.to_string()),
        }),
        Err(_) => None,
    }
}

/// The reply the server owes a JSON-RPC line (each `id` is the request's id as
/// JSON text).
#[derive(Debug, Clone)]
pub enum RpcReply {
    /// A notification: nothing is written.
    NoReply,
    /// The `initialize` result.
    Initialize { id: String },
    /// The `tools/list` result (the one `chat` tool).
    ToolsList { id: String },
    /// Run the chat on `text`, then reply with `rpc_chat_reply`.
    Chat { id: String, text: String },
    /// The chat's result: the assistant's response as JSON text.
    ChatResult { id: String, response: String },
    /// An error reply.
    Error { id: String, code: i64, message: String },
}

/// A string field, `""` when absent.
pub open spec fn or_empty(o: Option<Seq<char>>) -> Seq<char> {
    match o {
        Some(s) => s,
        None => Seq::empty(),
    }
}

/// `r` is the reply owed to a line whose fields read `f`.
pub open spec fn rpc_reply_holds(
    f: Option<(Option<Seq<char>>, Seq<char>, Option<Seq<char>>, Option<Seq<char>>)>,
    r: RpcReply,
) -> bool {
    match f {
        None => r matches RpcReply::Error { id, code, message } && id@ == "null"@ && code
            == PARSE_ERROR && message@ == "Parse error"@,
        Some((m, id, name, text)) => {
            let method = or_empty(m);
            if method == "initialize"@ {
                r matches RpcReply::Initialize { id: i } && i@ == id
            } else if method == "notifications/initialized"@ {
                r is NoReply
            } else if method == "tools/list"@ {
                r matches RpcReply::ToolsList { id: i } && i@ == id
            } else if method == "tools/call"@ && or_empty(name) == "chat"@ {
                r matches RpcReply::Chat { id: i, text: t } && i@ == id && t@ == or_empty(text)
            } else if method == "tools/call"@ {
                r matches RpcReply::Error { id: i, code, message } && i@ == id && code
                    == METHOD_NOT_FOUND && message@ == "unknown tool: "@ + or_empty(name)
            } else {
                r matches RpcReply::Error { id: i, code, message } && i@ == id && code
                    == METHOD_NOT_FOUND && message@ == "method not found: "@ + method
            }
        },
    }
}

fn or_empty_string(o: &Option<String>) -> (r: String)
    ensures
        r@ == or_empty(opt_chars(*o)),
{
    match o {
        Some(s) => s.clone(),
        None => string_of(&Vec::new()),
    }
}

/// The reply owed to a line with these fields (`None`: not JSON): a parse
/// error with id `null`, nothing for the `initialized` notification, the
/// `initialize` or `tools/list` result, the chat for `tools/call` of `chat`,
/// and method-not-found (-32601) with the id echoed otherwise.
pub fn rpc_reply(fields: Option<RpcFields>) -> (r: RpcReply)
    ensures
        rpc_reply_holds(fields_view(fields), r),
{
    match fields {
        None => RpcReply::Error {
            id: string_of(&chars_of("null")),
            code: PARSE_ERROR,
            message: string_of(&chars_of("Parse error")),
        },
        Some(f) => {
            let method = or_empty_string(&f.method);
            let name = or_empty_string(&f.name);
            let id = f.id;
            match rpc_route(method.as_str(), name.as_str()) {
                RpcRoute::Initialize => RpcReply::Initialize { id },
                RpcRoute::Initialized => RpcReply::NoReply,
                RpcRoute::ToolsList => RpcReply::ToolsList { id },
                RpcRoute::Chat => RpcReply::Chat { id, text: or_empty_string(&f.text) },
                RpcRoute::UnknownTool(message) => RpcReply::Error {
                    id,
                    code: METHOD_NOT_FOUND,
                    message,
                },
                RpcRoute::MethodNotFound(message) => RpcReply::Error {
                    id,
                    code: METHOD_NOT_FOUND,
                    message,
                },
            }
        },
    }
}

/// The reply owed to one raw JSON-RPC line: reads it with serde_json, then
/// `rpc_reply`.
pub fn rpc_line_reply(line: &str) -> (r: RpcReply)
    ensures
        rpc_reply_holds(rpc_fields(line@), r),
{
    rpc_reply(read_rpc_line(line))
}

/// The reply once the chat has run: its response as JSON text, or an internal
/// error (-32603) with the failure's message; the id is echoed.
pub fn rpc_chat_reply(id: &str, outcome: Result<String, String>) -> (r: RpcReply)
    ensures
        match outcome {
            Ok(resp) => r matches RpcReply::ChatResult { id: i, response } && i@ == id@ && response
                == resp,
            Err(e) => r matches RpcReply::Error { id: i, code, message } && i@ == id@ && code
                == INTERNAL_ERROR && message == e,
        },
{
    let i = string_of(&chars_of(id));
    match outcome {
        Ok(resp) => RpcReply::ChatResult { id: i, response: resp },
        Err(e) => RpcReply::Error { id: i, code: INTERNAL_ERROR, message: e },
    }
}

} // verus!
