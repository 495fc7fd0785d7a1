//! How the assistant answers an intent: at once, through a device action,
//! through an engine under a heading, or in conversation; and the cleanup of
//! what is said.
use vstd::prelude::*;

use crate::actions::{pair_views, Registry};
use crate::intent::{Intent, IntentSpec};
use crate::personality::{humanize, humanize_spec, CONFUSED, GOODBYE, GREETING};
use crate::scan::{contains, contains_seq, has_prefix, starts_with_chars, trim, trim_seq};
use crate::text::{
    ascii_lower_seq, chars_of, eq_str, is_ascii_text, lowercase, push_chars, push_str, string_of,
    to_lowercase,
};

verus! {

/// L's answer to questions about itself.
pub const IDENTITY: &'static str = "I am L — the Shadow Monarch. I do not guess; I observe, reason, and act. Name the task: I will solve it, verify it, or tell you plainly what I cannot.";

/// Said when conversation finds no verified answer.
pub const NO_VERIFIED_ANSWER: &'static str = "I don't have a verified answer for that yet. Try: \"solve 2+2\", \"validate water is H2O\", \"search formulas for gravity\", or \"what's my battery\".";

/// What answering an intent takes.
#[derive(Debug, Clone)]
pub enum Step {
    /// Answer with exactly this text.
    Final(String),
    /// Run the device, schedule or memory action; its reply is said, cleaned up.
    Act,
    /// Run the engine for the intent; its result is said after this heading, cleaned up.
    Engine(String),
    /// Converse: the agent's or the model's answer as is, else the reasoning
    /// engine's result through `converse_fallback`.
    Converse { conversational: bool },
    /// Say this text, cleaned up.
    Say(String),
    /// The help text.
    Help,
}

/// The heading an engine result is given, by intent.
pub open spec fn heading(i: IntentSpec) -> Option<Seq<char>> {
    match i {
        IntentSpec::Solve { .. } => Some("Proof reasoning:\n"@),
        IntentSpec::Validate { .. } => Some("Gate validation:\n"@),
        IntentSpec::Score { .. } => Some("Confidence score:\n"@),
        IntentSpec::Fix { .. } => Some("Fixed response:\n"@),
        IntentSpec::Eval { .. } => Some("Result: "@),
        IntentSpec::Convert { .. } => Some("Conversion: "@),
        IntentSpec::Formula { .. } => Some("Formula result:\n"@),
        IntentSpec::SearchFormulas { .. } => Some("Formula search:\n"@),
        IntentSpec::Traverse { .. } => Some("Wheel traversal:\n"@),
        IntentSpec::Classify { .. } => Some("Classification:\n"@),
        IntentSpec::Wheel { .. } => Some("Zodiac wheel:\n"@),
        IntentSpec::Reason { .. } => Some("Reasoning path:\n"@),
        IntentSpec::Shikai { .. } => Some("Shikai NLP:\n"@),
        IntentSpec::BankaiSolve { .. } => Some("Bankai solve:\n"@),
        IntentSpec::EvalFormula { .. } => Some("Formula evaluation:\n"@),
        IntentSpec::ChainFormulas { .. } => Some("Formula chain:\n"@),
        _ => None,
    }
}

/// Intents answered by a device, schedule or memory action.
pub open spec fn is_action(i: IntentSpec) -> bool {
    match i {
        IntentSpec::SetTimer { .. } | IntentSpec::CancelTimer { .. } | IntentSpec::SetAlarm { .. }
        | IntentSpec::SetReminder { .. } | IntentSpec::Remember { .. } | IntentSpec::Recall { .. }
        | IntentSpec::Forget { .. } | IntentSpec::SendMessage { .. } | IntentSpec::Call { .. }
        | IntentSpec::TakePhoto | IntentSpec::BatteryStatus | IntentSpec::GetLocation
        | IntentSpec::SetClipboard { .. } | IntentSpec::GetClipboard => true,
        _ => false,
    }
}

/// A question about L itself.
pub open spec fn asks_identity(l: Seq<char>) -> bool {
    contains_seq(l, "who are you"@) || contains_seq(l, "what are you"@) || contains_seq(
        l,
        "how are you"@,
    ) || contains_seq(l, "your name"@)
}

pub open spec fn is_greeting(l: Seq<char>) -> bool {
    l == "hello"@ || l == "hi"@ || l == "hey"@ || l == "hey lai"@ || l == "greetings"@ || l == "yo"@
        || l == "sup"@
}

/// The step for a question (`conversational` false) or a conversational remark
/// whose lowercased text is `lowered`: questions about L itself, and greetings,
/// are answered at once; anything else is conversation.
pub open spec fn conversation_matches(conversational: bool, lowered: Seq<char>, s: Step) -> bool {
    if !conversational {
        if asks_identity(lowered) {
            s matches Step::Final(t) && t@ == IDENTITY@
        } else {
            s matches Step::Converse { conversational } && !conversational
        }
    } else {
        let l = trim_seq(lowered);
        if is_greeting(l) {
            s matches Step::Final(t) && t@ == GREETING@
        } else if contains_seq(l, "how are you"@) || contains_seq(l, "who are you"@) {
            s matches Step::Final(t) && t@ == IDENTITY@
        } else {
            s matches Step::Converse { conversational } && conversational
        }
    }
}

/// The step that answers `i`.
pub open spec fn step_matches(i: IntentSpec, s: Step) -> bool {
    if is_action(i) {
        s is Act
    } else if heading(i) is Some {
        s matches Step::Engine(h) && h@ == heading(i).unwrap()
    } else {
        match i {
            IntentSpec::Query { text } => conversation_matches(false, lowercase(text), s),
            IntentSpec::Conversational { text } => conversation_matches(true, lowercase(text), s),
            IntentSpec::Goodbye => s matches Step::Say(t) && t@ == GOODBYE@,
            IntentSpec::Help => s is Help,
            _ => s matches Step::Say(t) && t@ == CONFUSED@,
        }
    }
}

fn lit(t: &str) -> (r: String)
    ensures
        r@ == t@,
{
    string_of(&chars_of(t))
}

fn identity_question(l: &Vec<char>) -> (r: bool)
    ensures
        r == asks_identity(l@),
{
    contains(l, "who are you") || contains(l, "what are you") || contains(l, "how are you") || contains(
        l,
        "your name",
    )
}

/// The step for a question or a conversational remark, given its lowercased
/// text (see `conversation_matches`).
pub fn conversation_step(conversational: bool, lowered: &str) -> (r: Step)
    ensures
        conversation_matches(conversational, lowered@, r),
{
    if !conversational {
        if identity_question(&chars_of(lowered)) {
            Step::Final(lit(IDENTITY))
        } else {
            Step::Converse { conversational: false }
        }
    } else {
        let l = trim(&chars_of(lowered));
        if eq_str(&l, "hello") || eq_str(&l, "hi") || eq_str(&l, "hey") || eq_str(&l, "hey lai")
            || eq_str(&l, "greetings") || eq_str(&l, "yo") || eq_str(&l, "sup") {
            Step::Final(lit(GREETING))
        } else if contains(&l, "how are you") || contains(&l, "who are you") {
            Step::Final(lit(IDENTITY))
        } else {
            Step::Converse { conversational: true }
        }
    }
}

/// Decide how to answer `intent`.
pub fn plan_reply(intent: &Intent) -> (r: Step)
    ensures
        step_matches(intent@, r),
{
    match intent {
        Intent::SetTimer { .. } | Intent::CancelTimer { .. } | Intent::SetAlarm { .. }
        | Intent::SetReminder { .. } | Intent::Remember { .. } | Intent::Recall { .. }
        | Intent::Forget { .. } | Intent::SendMessage { .. } | Intent::Call { .. }
        | Intent::TakePhoto | Intent::BatteryStatus | Intent::GetLocation
        | Intent::SetClipboard { .. } | Intent::GetClipboard => Step::Act,
        Intent::Solve { .. } => Step::Engine(lit("Proof reasoning:\n")),
        Intent::Validate { .. } => Step::Engine(lit("Gate validation:\n")),
        Intent::Score { .. } => Step::Engine(lit("Confidence score:\n")),
        Intent::Fix { .. } => Step::Engine(lit("Fixed response:\n")),
        Intent::Eval { .. } => Step::Engine(lit("Result: ")),
        Intent::Convert { .. } => Step::Engine(lit("Conversion: ")),
        Intent::Formula { .. } => Step::Engine(lit("Formula result:\n")),
        Intent::SearchFormulas { .. } => Step::Engine(lit("Formula search:\n")),
        Intent::Traverse { .. } => Step::Engine(lit("Wheel traversal:\n")),
        Intent::Classify { .. } => Step::Engine(lit("Classification:\n")),
        Intent::Wheel { .. } => Step::Engine(lit("Zodiac wheel:\n")),
        Intent::Reason { .. } => Step::Engine(lit("Reasoning path:\n")),
        Intent::Shikai { .. } => Step::Engine(lit("Shikai NLP:\n")),
        Intent::BankaiSolve { .. } => Step::Engine(lit("Bankai solve:\n")),
        Intent::EvalFormula { .. } => Step::Engine(lit("Formula evaluation:\n")),
        Intent::ChainFormulas { .. } => Step::Engine(lit("Formula chain:\n")),
        Intent::Query { text } => {
            let l = string_of(&to_lowercase(&chars_of(text.as_str())));
            conversation_step(false, l.as_str())
        },
        Intent::Conversational { text } => {
            let l = string_of(&to_lowercase(&chars_of(text.as_str())));
            conversation_step(true, l.as_str())
        },
        Intent::Goodbye => Step::Say(lit(GOODBYE)),
        Intent::Help => Step::Help,
        Intent::Unknown => Step::Say(lit(CONFUSED)),
    }
}

/// What is said for an engine result under `heading`.
pub fn engine_reply(heading: &str, result: &str) -> (r: String)
    ensures
        r@ == humanize_spec(heading@ + result@),
{
    let mut v = chars_of(heading);
    push_str(&mut v, result);
    let t = string_of(&v);
    humanize(t.as_str())
}

/// What is said when conversation falls back to the reasoning engine's result:
/// in conversation its trimmed form, or a pointer to what can be asked when empty.
pub fn converse_fallback(conversational: bool, result: &str) -> (r: String)
    ensures
        !conversational ==> r@ == humanize_spec(result@),
        conversational && trim_seq(result@).len() > 0 ==> r@ == humanize_spec(trim_seq(result@)),
        conversational && trim_seq(result@).len() == 0 ==> r@ == humanize_spec(NO_VERIFIED_ANSWER@),
{
    if !conversational {
        return humanize(result);
    }
    let t = trim(&chars_of(result));
    if t.len() == 0 {
        humanize(NO_VERIFIED_ANSWER)
    } else {
        let s = string_of(&t);
        humanize(s.as_str())
    }
}

/// The help text, without the registered actions.
pub const HELP_TEXT: &'static str = "Here's what I can do:\n\
     \n\
     System:\n\
     \x20 • Set timers: \"set a 5 minute timer\"\n\
     \x20 • Set alarms: \"set an alarm for 7am\"\n\
     \x20 • Set reminders: \"remind me to call mom at 3pm\"\n\
     \x20 • Send texts: \"text John hello\"\n\
     \x20 • Make calls: \"call Sarah\"\n\
     \x20 • Take photos: \"take a photo\"\n\
     \x20 • Check battery: \"what's my battery level\"\n\
     \x20 • Get location: \"where am I\"\n\
     \x20 • Clipboard: \"copy this to clipboard\" or \"read clipboard\"\n\
     \n\
     Proof (reasoning):\n\
     \x20 • Solve: \"prove that 2+2=4\"\n\
     \x20 • Reason: \"reason about climate change\"\n\
     \n\
     Gate (validation):\n\
     \x20 • Validate: \"validate this claim against that\"\n\
     \x20 • Score: \"score this response\"\n\
     \x20 • Fix: \"fix this response against the context\"\n\
     \n\
     Tanto (compute):\n\
     \x20 • Calculate: \"calculate 2+2\" / \"what's sqrt(144)\"\n\
     \x20 • Convert: \"convert 100 miles to kilometers\"\n\
     \x20 • Formula: \"evaluate the circle_area formula with r=5\"\n\
     \n\
     Athena (relational):\n\
     \x20 • Search: \"search formulas for gravity\"\n\
     \x20 • Traverse: \"traverse the mangala domain\"\n\
     \x20 • Classify: \"classify mercury\"\n\
     \x20 • Wheel: \"show the wheel\" / \"wheel aries\"\n\
     \x20 • Reason: \"reason from acceleration to distance\"\n\
     \x20 • Shikai: \"shikai what is gravity\"\n\
     \x20 • Bankai: \"bankai solve for the meaning of life\"\n\
     \x20 • Chain: \"chain formulas circle_area, sphere_volume\"\n\
     \n\
     General:\n\
     \x20 • Ask: \"what is the capital of France\"\n\
     \x20 • Goodbye: \"goodbye\"";

/// One `• name: description` line per registered action.
pub open spec fn action_lines(e: Seq<(Seq<char>, Seq<char>)>) -> Seq<char>
    decreases e.len(),
{
    if e.len() == 0 {
        seq![]
    } else {
        action_lines(e.drop_last()) + "\x20 • "@ + e.last().0 + ": "@ + e.last().1 + "\n"@
    }
}

/// The help text with the registered actions, cleaned up for speech.
pub fn help_text(registry: &Registry) -> (r: String)
    ensures
        r@ == humanize_spec(HELP_TEXT@ + "\n\nRegistered actions:\n"@ + action_lines(registry.entries())),
{
    let mut v = chars_of(HELP_TEXT);
    push_str(&mut v, "\n\nRegistered actions:\n");
    let ghost head = v@;
    let list = registry.list();
    let mut i: usize = 0;
    while i < list.len()
        invariant
            i <= list.len(),
            pair_views(list@) == registry.entries(),
            v@ == head + action_lines(pair_views(list@).take(i as int)),
        decreases list.len() - i,
    {
        let ghost before = v@;
        push_str(&mut v, "\x20 • ");
        push_str(&mut v, list[i].0.as_str());
        push_str(&mut v, ": ");
        push_str(&mut v, list[i].1.as_str());
        push_str(&mut v, "\n");
        proof {
            let t = pair_views(list@).take(i + 1);
            assert(t.drop_last() =~= pair_views(list@).take(i as int));
            assert(t.last() == (list@[i as int].0@, list@[i as int].1@));
            assert(v@ =~= before + ("\x20 • "@ + list@[i as int].0@ + ": "@ + list@[i as int].1@ + "\n"@));
        }
        i = i + 1;
    }
    proof {
        assert(pair_views(list@).take(i as int) =~= pair_views(list@));
    }
    let t = string_of(&v);
    humanize(t.as_str())
}


// ───────────────────────── listening ─────────────────────────

/// What the voice loop does with a transcript.
#[derive(Debug, Clone)]
pub enum Heard {
    /// Nothing to act on.
    Ignore,
    /// The wake word alone: answer that L is listening.
    Acknowledge,
    /// Process this command; the full transcript goes along as the raw input.
    Command(String),
}

/// `s` without the commas and colons it starts with.
pub open spec fn skip_separators(s: Seq<char>) -> Seq<char>
    decreases s.len(),
{
    if s.len() > 0 && (s[0] == ',' || s[0] == ':') {
        skip_separators(s.drop_first())
    } else {
        s
    }
}

/// The command after the wake word: trimmed, leading commas and colons
/// dropped, trimmed again.
pub open spec fn command_after_wake(rest: Seq<char>) -> Seq<char> {
    trim_seq(skip_separators(trim_seq(rest)))
}

fn drop_separators(s: &Vec<char>) -> (r: Vec<char>)
    ensures
        r@ == skip_separators(s@),
{
    let mut i: usize = 0;
    proof {
        assert(s@.skip(0) =~= s@);
    }
    while i < s.len() && (s[i] == ',' || s[i] == ':')
        invariant
            i <= s.len(),
            skip_separators(s@) == skip_separators(s@.skip(i as int)),
        decreases s.len() - i,
    {
        proof {
            assert(s@.skip(i as int).drop_first() =~= s@.skip(i + 1));
        }
        i = i + 1;
    }
    let r = crate::text::slice_chars(s, i, s.len());
    proof {
        assert(r@ =~= s@.skip(i as int));
    }
    r
}

/// What the voice loop does with a transcript, given the transcript `text`,
/// its lowercased form and the lowercased wake word. A blank transcript is
/// ignored. Outside daemon mode every transcript is a command. In daemon mode
/// only a transcript that starts with the wake word counts: the rest is the
/// command, or, when nothing is left, L acknowledges.
pub open spec fn heard_spec(text: Seq<char>, lower: Seq<char>, wake: Seq<char>, daemon: bool, r: Heard) -> bool {
    if trim_seq(text).len() == 0 {
        r is Ignore
    } else if !daemon {
        r matches Heard::Command(c) && c@ == text
    } else if has_prefix(lower, wake) {
        let cmd = command_after_wake(lower.skip(wake.len() as int));
        if cmd.len() == 0 {
            r is Acknowledge
        } else {
            r matches Heard::Command(c) && c@ == cmd
        }
    } else {
        r is Ignore
    }
}

/// `heard` once the transcript and the wake word are lowercased.
pub fn heard_lowered(text: &str, lowered_text: &str, lowered_wake: &str, daemon: bool) -> (r: Heard)
    ensures
        heard_spec(text@, lowered_text@, lowered_wake@, daemon, r),
{
    let t = chars_of(text);
    if trim(&t).len() == 0 {
        return Heard::Ignore;
    }
    if !daemon {
        return Heard::Command(string_of(&t));
    }
    let lower = chars_of(lowered_text);
    let wake = chars_of(lowered_wake);
    if starts_with_chars(&lower, &wake) {
        let rest = crate::text::slice_chars(&lower, wake.len(), lower.len());
        proof {
            assert(rest@ =~= lower@.skip(wake@.len() as int));
        }
        let cmd = trim(&drop_separators(&trim(&rest)));
        if cmd.len() == 0 {
            Heard::Acknowledge
        } else {
            Heard::Command(string_of(&cmd))
        }
    } else {
        Heard::Ignore
    }
}

/// What the voice loop does with a transcript `text`, the transcript and the
/// wake word lowercased by std's `to_lowercase` (see `heard_spec`).
pub fn heard(text: &str, wake_word: &str, daemon: bool) -> (r: Heard)
    ensures
        heard_spec(text@, lowercase(text@), lowercase(wake_word@), daemon, r),
        is_ascii_text(text@) ==> lowercase(text@) == ascii_lower_seq(text@),
        is_ascii_text(wake_word@) ==> lowercase(wake_word@) == ascii_lower_seq(wake_word@),
{
    let lower = string_of(&to_lowercase(&chars_of(text)));
    let wake = string_of(&to_lowercase(&chars_of(wake_word)));
    heard_lowered(text, lower.as_str(), wake.as_str(), daemon)
}

/// Which reasoning engine runs for an engine intent, with its arguments in the
/// order the engine takes them.
#[derive(Debug, Clone)]
pub enum EngineCall {
    Solve(String),
    Validate(String, String),
    Score(String),
    Fix(String, String),
    Eval(String),
    /// The value is the numeral as written; the engine takes it as a number.
    Convert(String, String, String),
    Formula(String, Vec<String>),
    SearchFormulas(String),
    Traverse(String, usize),
    Classify(String),
    Wheel(Option<String>),
    Reason(String, String, usize),
    Shikai(String),
    BankaiSolve(String),
    EvalFormula(String, String),
    ChainFormulas(String, String),
}

/// The intent an engine call answers: the same variant with the same fields.
pub open spec fn call_intent(c: EngineCall) -> IntentSpec {
    match c {
        EngineCall::Solve(q) => IntentSpec::Solve { query: q@ },
        EngineCall::Validate(t, c) => IntentSpec::Validate { text: t@, context: c@ },
        EngineCall::Score(t) => IntentSpec::Score { text: t@ },
        EngineCall::Fix(t, c) => IntentSpec::Fix { text: t@, context: c@ },
        EngineCall::Eval(e) => IntentSpec::Eval { expression: e@ },
        EngineCall::Convert(v, f, t) => IntentSpec::Convert { value: v@, from: f@, to: t@ },
        EngineCall::Formula(n, a) => IntentSpec::Formula {
            name: n@,
            args: a@.map_values(|x: String| x@),
        },
        EngineCall::SearchFormulas(k) => IntentSpec::SearchFormulas { keyword: k@ },
        EngineCall::Traverse(d, n) => IntentSpec::Traverse { domain: d@, depth: n },
        EngineCall::Classify(t) => IntentSpec::Classify { token: t@ },
        EngineCall::Wheel(d) => IntentSpec::Wheel { domain: crate::intent::opt_str(d) },
        EngineCall::Reason(h, w, n) => IntentSpec::Reason { have: h@, want: w@, max_depth: n },
        EngineCall::Shikai(q) => IntentSpec::Shikai { query: q@ },
        EngineCall::BankaiSolve(q) => IntentSpec::BankaiSolve { query: q@ },
        EngineCall::EvalFormula(f, a) => IntentSpec::EvalFormula { formula_id: f@, args: a@ },
        EngineCall::ChainFormulas(f, a) => IntentSpec::ChainFormulas { formulas: f@, args: a@ },
    }
}

/// The engine call for an intent: `Some` exactly for the intents answered by
/// an engine (those with a heading), naming that intent's engine and handing
/// it the intent's fields, in order.
pub fn engine_call(intent: &Intent) -> (r: Option<EngineCall>)
    ensures
        r is Some <==> heading(intent@) is Some,
        r matches Some(c) ==> call_intent(c) == intent@,
{
    match intent {
        Intent::Solve { query } => Some(EngineCall::Solve(query.clone())),
        Intent::Validate { text, context } => Some(EngineCall::Validate(text.clone(), context.clone())),
        Intent::Score { text } => Some(EngineCall::Score(text.clone())),
        Intent::Fix { text, context } => Some(EngineCall::Fix(text.clone(), context.clone())),
        Intent::Eval { expression } => Some(EngineCall::Eval(expression.clone())),
        Intent::Convert { value, from, to } => Some(
            EngineCall::Convert(value.clone(), from.clone(), to.clone()),
        ),
        Intent::Formula { name, args } => Some(
            EngineCall::Formula(name.clone(), crate::intent::copy_strings(args)),
        ),
        Intent::SearchFormulas { keyword } => Some(EngineCall::SearchFormulas(keyword.clone())),
        Intent::Traverse { domain, depth } => Some(EngineCall::Traverse(domain.clone(), *depth)),
        Intent::Classify { token } => Some(EngineCall::Classify(token.clone())),
        Intent::Wheel { domain } => Some(EngineCall::Wheel(crate::intent::copy_opt_string(domain))),
        Intent::Reason { have, want, max_depth } => Some(
            EngineCall::Reason(have.clone(), want.clone(), *max_depth),
        ),
        Intent::Shikai { query } => Some(EngineCall::Shikai(query.clone())),
        Intent::BankaiSolve { query } => Some(EngineCall::BankaiSolve(query.clone())),
        Intent::EvalFormula { formula_id, args } => Some(
            EngineCall::EvalFormula(formula_id.clone(), args.clone()),
        ),
        Intent::ChainFormulas { formulas, args } => Some(
            EngineCall::ChainFormulas(formulas.clone(), args.clone()),
        ),
        _ => None,
    }
}

} // verus!
