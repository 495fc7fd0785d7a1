//! Assistant actions: the registry, the decoding of tool calls into actions,
//! and the decisions and text around each tool.
pub mod device;
pub mod reminder;
pub mod schedule;
pub mod timer;
pub mod web;

use vstd::prelude::*;

use crate::scan::{lex_less, lex_lt};
use crate::text::{chars_of, decimal, eq_str, push_decimal, push_str, string_of};

verus! {

// ───────────────────────── registry ─────────────────────────

/// The registered actions and what each does, in registration order.
pub open spec fn registry_entries() -> Seq<(Seq<char>, Seq<char>)> {
    seq![
        ("timer"@, "Set/cancel timers"@),
        ("alarm"@, "Set alarms"@),
        ("reminder"@, "Set reminders"@),
        ("memory"@, "Remember/recall/forget user facts"@),
        ("sms"@, "Send text messages"@),
        ("call"@, "Make phone calls"@),
        ("camera"@, "Take photos"@),
        ("battery"@, "Check battery status"@),
        ("location"@, "Get current location"@),
        ("notification"@, "Notifications and clipboard"@),
        ("web"@, "Web search, fetch, and HTTP requests"@),
    ]
}

pub open spec fn pair_views(v: Seq<(String, String)>) -> Seq<(Seq<char>, Seq<char>)> {
    v.map_values(|p: (String, String)| (p.0@, p.1@))
}

/// Action registry: action names and their descriptions, for help display.
/// No name occurs twice.
#[derive(Debug)]
pub struct Registry {
    handlers: Vec<(String, String)>,
}

fn entry(name: &str, desc: &str) -> (r: (String, String))
    ensures
        r.0@ == name@,
        r.1@ == desc@,
{
    (string_of(&chars_of(name)), string_of(&chars_of(desc)))
}

impl Registry {
    pub closed spec fn entries(&self) -> Seq<(Seq<char>, Seq<char>)> {
        pair_views(self.handlers@)
    }

    pub fn new() -> (r: Registry)
        ensures
            r.entries() == registry_entries(),
    {
        let handlers = vec![
            entry("timer", "Set/cancel timers"),
            entry("alarm", "Set alarms"),
            entry("reminder", "Set reminders"),
            entry("memory", "Remember/recall/forget user facts"),
            entry("sms", "Send text messages"),
            entry("call", "Make phone calls"),
            entry("camera", "Take photos"),
            entry("battery", "Check battery status"),
            entry("location", "Get current location"),
            entry("notification", "Notifications and clipboard"),
            entry("web", "Web search, fetch, and HTTP requests"),
        ];
        proof {
            assert(pair_views(handlers@) =~= registry_entries());
        }
        Registry { handlers }
    }

    /// The registered actions.
    pub fn list(&self) -> (r: &Vec<(String, String)>)
        ensures
            pair_views(r@) == self.entries(),
    {
        &self.handlers
    }
}

// ───────────────────────── tool arguments ─────────────────────────

/// One argument value of a tool call, as far as the handlers read it.
#[derive(Debug, Clone)]
pub enum ArgValue {
    Str(String),
    Int(i64),
    Other,
}

/// The fields of a tool call's argument object (none when it is not an object).
#[derive(Debug, Clone)]
pub struct ToolArgs {
    pub fields: Vec<(String, ArgValue)>,
}

/// The string under `k` (first field so named), or empty when absent or not a string.
pub open spec fn str_arg(f: Seq<(String, ArgValue)>, k: Seq<char>) -> Seq<char>
    decreases f.len(),
{
    if f.len() == 0 {
        seq![]
    } else if f[0].0@ == k {
        match f[0].1 {
            ArgValue::Str(s) => s@,
            _ => seq![],
        }
    } else {
        str_arg(f.drop_first(), k)
    }
}

/// The string under `k`, if present and a string.
pub open spec fn opt_str_arg(f: Seq<(String, ArgValue)>, k: Seq<char>) -> Option<Seq<char>>
    decreases f.len(),
{
    if f.len() == 0 {
        None
    } else if f[0].0@ == k {
        match f[0].1 {
            ArgValue::Str(s) => Some(s@),
            _ => None,
        }
    } else {
        opt_str_arg(f.drop_first(), k)
    }
}

/// The integer under `k`, or 0 when absent or not an integer.
pub open spec fn int_arg(f: Seq<(String, ArgValue)>, k: Seq<char>) -> i64
    decreases f.len(),
{
    if f.len() == 0 {
        0
    } else if f[0].0@ == k {
        match f[0].1 {
            ArgValue::Int(n) => n,
            _ => 0,
        }
    } else {
        int_arg(f.drop_first(), k)
    }
}

/// A field that can stand for a whole fact: not named `key` or `value`, holding a string.
pub open spec fn fact_candidate(p: (String, ArgValue)) -> bool {
    p.0@ != "key"@ && p.0@ != "value"@ && p.1 is Str
}

/// The candidate field with the least name (the first such on ties).
pub open spec fn least_candidate(f: Seq<(String, ArgValue)>) -> Option<(String, ArgValue)>
    decreases f.len(),
{
    if f.len() == 0 {
        None
    } else {
        let b = least_candidate(f.drop_last());
        let x = f.last();
        if !fact_candidate(x) {
            b
        } else {
            match b {
                None => Some(x),
                Some(y) => if lex_lt(x.0@, y.0@) {
                    Some(x)
                } else {
                    Some(y)
                },
            }
        }
    }
}

/// `(key, value)` for the `remember` tool: the declared fields, or, when both
/// are empty, the string field with the least other name.
pub open spec fn remember_args_spec(f: Seq<(String, ArgValue)>) -> (Seq<char>, Seq<char>) {
    let key = str_arg(f, "key"@);
    let value = str_arg(f, "value"@);
    if key.len() > 0 && value.len() > 0 {
        (key, value)
    } else if key.len() == 0 && value.len() == 0 && least_candidate(f) is Some {
        let p = least_candidate(f).unwrap();
        (
            p.0@,
            match p.1 {
                ArgValue::Str(s) => s@,
                _ => seq![],
            },
        )
    } else {
        (key, value)
    }
}

impl ToolArgs {
    fn find(&self, k: &str) -> (r: Option<usize>)
        ensures
            match r {
                Some(i) => i < self.fields@.len() && self.fields@[i as int].0@ == k@ && forall|j: int|
                    0 <= j < i ==> (#[trigger] self.fields@[j]).0@ != k@,
                None => forall|j: int| 0 <= j < self.fields@.len() ==> (#[trigger] self.fields@[j]).0@ != k@,
            },
    {
        let kc = chars_of(k);
        let mut i: usize = 0;
        while i < self.fields.len()
            invariant
                kc@ == k@,
                i <= self.fields.len(),
                forall|j: int| 0 <= j < i ==> (#[trigger] self.fields@[j]).0@ != k@,
            decreases self.fields.len() - i,
        {
            if eq_str(&kc, self.fields[i].0.as_str()) {
                return Some(i);
            }
            i = i + 1;
        }
        None
    }

    proof fn lemma_first_at(f: Seq<(String, ArgValue)>, k: Seq<char>, i: int)
        requires
            0 <= i < f.len(),
            f[i].0@ == k,
            forall|j: int| 0 <= j < i ==> (#[trigger] f[j]).0@ != k,
        ensures
            str_arg(f, k) == match f[i].1 {
                ArgValue::Str(s) => s@,
                _ => Seq::<char>::empty(),
            },
            opt_str_arg(f, k) == match f[i].1 {
                ArgValue::Str(s) => Some(s@),
                _ => None::<Seq<char>>,
            },
            int_arg(f, k) == match f[i].1 {
                ArgValue::Int(n) => n,
                _ => 0i64,
            },
        decreases i,
    {
        if i > 0 {
            assert forall|j: int| 0 <= j < i - 1 implies (#[trigger] f.drop_first()[j]).0@ != k by {
                assert(f.drop_first()[j] == f[j + 1]);
            }
            Self::lemma_first_at(f.drop_first(), k, i - 1);
        }
    }

    proof fn lemma_absent(f: Seq<(String, ArgValue)>, k: Seq<char>)
        requires
            forall|j: int| 0 <= j < f.len() ==> (#[trigger] f[j]).0@ != k,
        ensures
            str_arg(f, k) == Seq::<char>::empty(),
            opt_str_arg(f, k) is None,
            int_arg(f, k) == 0,
        decreases f.len(),
    {
        if f.len() > 0 {
            assert forall|j: int| 0 <= j < f.len() - 1 implies (#[trigger] f.drop_first()[j]).0@ != k by {
                assert(f.drop_first()[j] == f[j + 1]);
            }
            Self::lemma_absent(f.drop_first(), k);
        }
    }

    /// The string argument `k`, or empty.
    pub fn get_str(&self, k: &str) -> (r: String)
        ensures
            r@ == str_arg(self.fields@, k@),
    {
        match self.find(k) {
            Some(i) => {
                proof {
                    Self::lemma_first_at(self.fields@, k@, i as int);
                }
                match &self.fields[i].1 {
                    ArgValue::Str(s) => s.clone(),
                    _ => string_of(&Vec::new()),
                }
            },
            None => {
                proof {
                    Self::lemma_absent(self.fields@, k@);
                }
                string_of(&Vec::new())
            },
        }
    }

    /// The string argument `k`, if present.
    pub fn get_opt_str(&self, k: &str) -> (r: Option<String>)
        ensures
            match opt_str_arg(self.fields@, k@) {
                Some(s) => r matches Some(t) && t@ == s,
                None => r is None,
            },
    {
        match self.find(k) {
            Some(i) => {
                proof {
                    Self::lemma_first_at(self.fields@, k@, i as int);
                }
                match &self.fields[i].1 {
                    ArgValue::Str(s) => Some(s.clone()),
                    _ => None,
                }
            },
            None => {
                proof {
                    Self::lemma_absent(self.fields@, k@);
                }
                None
            },
        }
    }

    /// The integer argument `k`, or 0.
    pub fn get_int(&self, k: &str) -> (r: i64)
        ensures
            r == int_arg(self.fields@, k@),
    {
        match self.find(k) {
            Some(i) => {
                proof {
                    Self::lemma_first_at(self.fields@, k@, i as int);
                }
                match &self.fields[i].1 {
                    ArgValue::Int(n) => *n,
                    _ => 0,
                }
            },
            None => {
                proof {
                    Self::lemma_absent(self.fields@, k@);
                }
                0
            },
        }
    }
}

fn is_fact_candidate(p: &(String, ArgValue)) -> (r: bool)
    ensures
        r == fact_candidate(*p),
{
    let k = chars_of(p.0.as_str());
    !eq_str(&k, "key") && !eq_str(&k, "value") && matches!(p.1, ArgValue::Str(_))
}

/// Extract `(key, value)` for the `remember` tool, tolerating the shapes small
/// models emit: the declared `{key, value}`, a single arbitrary pair (the
/// least-named string field), or a partial object (the lone field kept).
pub fn remember_args(args: &ToolArgs) -> (r: (String, String))
    ensures
        (r.0@, r.1@) == remember_args_spec(args.fields@),
{
    let key = args.get_str("key");
    let value = args.get_str("value");
    if key.unicode_len() > 0 && value.unicode_len() > 0 {
        return (key, value);
    }
    if key.unicode_len() == 0 && value.unicode_len() == 0 {
        let mut best: Option<usize> = None;
        let mut i: usize = 0;
        while i < args.fields.len()
            invariant
                i <= args.fields.len(),
                match least_candidate(args.fields@.take(i as int)) {
                    Some(p) => best matches Some(b) && b < i && args.fields@[b as int] == p,
                    None => best is None,
                },
            decreases args.fields.len() - i,
        {
            proof {
                assert(args.fields@.take(i + 1).drop_last() =~= args.fields@.take(i as int));
                assert(args.fields@.take(i + 1).last() == args.fields@[i as int]);
            }
            if is_fact_candidate(&args.fields[i]) {
                match best {
                    None => {
                        best = Some(i);
                    },
                    Some(b) => {
                        let xk = chars_of(args.fields[i].0.as_str());
                        let yk = chars_of(args.fields[b].0.as_str());
                        if lex_less(&xk, &yk) {
                            best = Some(i);
                        }
                    },
                }
            }
            i = i + 1;
        }
        proof {
            assert(args.fields@.take(i as int) =~= args.fields@);
        }
        match best {
            Some(b) => {
                let name = args.fields[b].0.clone();
                let v = match &args.fields[b].1 {
                    ArgValue::Str(s) => s.clone(),
                    _ => string_of(&Vec::new()),
                };
                return (name, v);
            },
            None => {},
        }
    }
    (key, value)
}

// ───────────────────────── tool plans ─────────────────────────

/// What a tool call asks for, with its decoded arguments.
#[derive(Debug, Clone)]
pub enum ToolPlan {
    /// Answer at once with this text.
    Reply(String),
    SetTimer { seconds: u64, label: Option<String> },
    SetReminder { text: String, when: String },
    Remember { key: String, value: String },
    Recall { key: String },
    Forget { key: String },
    BatteryStatus,
    GetLocation,
    TakePhoto,
    SetClipboard { text: String },
    GetClipboard,
    SendMessage { contact: String, message: String },
    CallContact { contact: String },
    WebSearch { query: String },
    WebFetch { url: String },
    HttpRequest { method: String, url: String, body: Option<String> },
}

/// The plan for the tool `name` with arguments `f`, texts as sequences.
pub open spec fn plan_matches(name: Seq<char>, f: Seq<(String, ArgValue)>, p: ToolPlan) -> bool {
    if name == "set_timer"@ {
        let secs = int_arg(f, "seconds"@);
        let label = str_arg(f, "label"@);
        if secs <= 0 {
            p matches ToolPlan::Reply(m) && m@ == "timer needs a positive duration (seconds)"@
        } else {
            p matches ToolPlan::SetTimer { seconds, label: l } && seconds == secs && (if label.len()
                == 0 {
                l is None
            } else {
                l matches Some(t) && t@ == label
            })
        }
    } else if name == "set_reminder"@ {
        p matches ToolPlan::SetReminder { text, when } && text@ == str_arg(f, "text"@) && when@
            == str_arg(f, "when"@)
    } else if name == "remember"@ {
        p matches ToolPlan::Remember { key, value } && (key@, value@) == remember_args_spec(f)
    } else if name == "recall"@ {
        p matches ToolPlan::Recall { key } && key@ == str_arg(f, "key"@)
    } else if name == "forget"@ {
        p matches ToolPlan::Forget { key } && key@ == str_arg(f, "key"@)
    } else if name == "battery_status"@ {
        p is BatteryStatus
    } else if name == "get_location"@ {
        p is GetLocation
    } else if name == "take_photo"@ {
        p is TakePhoto
    } else if name == "set_clipboard"@ {
        p matches ToolPlan::SetClipboard { text } && text@ == str_arg(f, "text"@)
    } else if name == "get_clipboard"@ {
        p is GetClipboard
    } else if name == "send_message"@ {
        p matches ToolPlan::SendMessage { contact, message } && contact@ == str_arg(f, "contact"@)
            && message@ == str_arg(f, "message"@)
    } else if name == "call_contact"@ {
        p matches ToolPlan::CallContact { contact } && contact@ == str_arg(f, "contact"@)
    } else if name == "web_search"@ {
        p matches ToolPlan::WebSearch { query } && query@ == str_arg(f, "query"@)
    } else if name == "web_fetch"@ {
        p matches ToolPlan::WebFetch { url } && url@ == str_arg(f, "url"@)
    } else if name == "http_request"@ {
        p matches ToolPlan::HttpRequest { method, url, body } && method@ == (match opt_str_arg(
            f,
            "method"@,
        ) {
            Some(m) => m,
            None => "GET"@,
        }) && url@ == str_arg(f, "url"@) && match opt_str_arg(f, "body"@) {
            Some(b) => body matches Some(x) && x@ == b,
            None => body is None,
        }
    } else {
        p matches ToolPlan::Reply(m) && m@ == "tool '"@ + name + "' is not available in-process"@
    }
}

/// Decode a tool call into the action it asks for.
pub fn plan_tool(name: &str, args: &ToolArgs) -> (r: ToolPlan)
    ensures
        plan_matches(name@, args.fields@, r),
{
    let n = chars_of(name);
    if eq_str(&n, "set_timer") {
        let seconds = args.get_int("seconds");
        let label = args.get_str("label");
        if seconds <= 0 {
            return ToolPlan::Reply(string_of(&chars_of("timer needs a positive duration (seconds)")));
        }
        let l = if label.unicode_len() == 0 {
            None
        } else {
            Some(label)
        };
        return ToolPlan::SetTimer { seconds: seconds as u64, label: l };
    }
    if eq_str(&n, "set_reminder") {
        return ToolPlan::SetReminder { text: args.get_str("text"), when: args.get_str("when") };
    }
    if eq_str(&n, "remember") {
        let (key, value) = remember_args(args);
        return ToolPlan::Remember { key, value };
    }
    if eq_str(&n, "recall") {
        return ToolPlan::Recall { key: args.get_str("key") };
    }
    if eq_str(&n, "forget") {
        return ToolPlan::Forget { key: args.get_str("key") };
    }
    if eq_str(&n, "battery_status") {
        return ToolPlan::BatteryStatus;
    }
    if eq_str(&n, "get_location") {
        return ToolPlan::GetLocation;
    }
    if eq_str(&n, "take_photo") {
        return ToolPlan::TakePhoto;
    }
    if eq_str(&n, "set_clipboard") {
        return ToolPlan::SetClipboard { text: args.get_str("text") };
    }
    if eq_str(&n, "get_clipboard") {
        return ToolPlan::GetClipboard;
    }
    if eq_str(&n, "send_message") {
        return ToolPlan::SendMessage {
            contact: args.get_str("contact"),
            message: args.get_str("message"),
        };
    }
    if eq_str(&n, "call_contact") {
        return ToolPlan::CallContact { contact: args.get_str("contact") };
    }
    if eq_str(&n, "web_search") {
        return ToolPlan::WebSearch { query: args.get_str("query") };
    }
    if eq_str(&n, "web_fetch") {
        return ToolPlan::WebFetch { url: args.get_str("url") };
    }
    if eq_str(&n, "http_request") {
        let method = match args.get_opt_str("method") {
            Some(m) => m,
            None => string_of(&chars_of("GET")),
        };
        return ToolPlan::HttpRequest {
            method,
            url: args.get_str("url"),
            body: args.get_opt_str("body"),
        };
    }
    let mut m = chars_of("tool '");
    push_str(&mut m, name);
    push_str(&mut m, "' is not available in-process");
    ToolPlan::Reply(string_of(&m))
}

/// The reply once a timer of `seconds` is armed.
pub fn timer_tool_reply(seconds: u64) -> (r: String)
    ensures
        r@ == "Timer set for "@ + decimal(seconds as nat) + " seconds"@,
{
    let mut m = chars_of("Timer set for ");
    push_decimal(&mut m, seconds);
    push_str(&mut m, " seconds");
    string_of(&m)
}

} // verus!
