//! The agent loop's decisions: the prompt it runs under, the step budget,
//! which answers are cross-checked, and the messages it adds to the transcript.
use vstd::prelude::*;

use crate::llm::{StepChoice, PERSONA_SYSTEM_PROMPT};
use crate::scan::{contains, contains_seq, is_digit, trim, trim_seq, has_prefix, starts_with};
use crate::text::{chars_of, decimal, lowercase, push_decimal, push_str, string_of, to_lowercase};

verus! {

/// Most tool-calling turns before the agent must answer.
pub const MAX_STEPS: usize = 6;

/// The system prompt: the persona, then the remembered facts when there are any.
pub fn system_prompt(memory_block: &str) -> (r: String)
    ensures
        trim_seq(memory_block@).len() == 0 ==> r@ == PERSONA_SYSTEM_PROMPT@,
        trim_seq(memory_block@).len() > 0 ==> r@ == PERSONA_SYSTEM_PROMPT@ + "\n\n"@ + memory_block@,
{
    let mut v = chars_of(PERSONA_SYSTEM_PROMPT);
    if trim(&chars_of(memory_block)).len() > 0 {
        push_str(&mut v, "\n\n");
        push_str(&mut v, memory_block);
    }
    string_of(&v)
}

/// `answer` holds a digit and its lowercased form `lowered` a statement word
/// ("is ", "equals", "=", "are ").
pub open spec fn claim_in(answer: Seq<char>, lowered: Seq<char>) -> bool {
    &&& exists|i: int| 0 <= i < answer.len() && is_digit(#[trigger] answer[i])
    &&& contains_seq(lowered, "is "@) || contains_seq(lowered, "equals"@) || contains_seq(lowered, "="@)
        || contains_seq(lowered, "are "@)
}

/// An answer that states a number or a fact: a digit, and a statement word
/// once lowercased.
pub open spec fn looks_like_claim(answer: Seq<char>) -> bool {
    claim_in(answer, lowercase(answer))
}

/// Whether `answer` with its lowercased form `lowered` makes a claim (see `claim_in`).
pub fn states_claim(answer: &str, lowered: &str) -> (r: bool)
    ensures
        r == claim_in(answer@, lowered@),
{
    let a = chars_of(answer);
    let mut has_digit = false;
    let mut i: usize = 0;
    while i < a.len()
        invariant
            i <= a.len(),
            a@ == answer@,
            has_digit == exists|k: int| 0 <= k < i && is_digit(#[trigger] a@[k]),
        decreases a.len() - i,
    {
        if '0' <= a[i] && a[i] <= '9' {
            has_digit = true;
        }
        i = i + 1;
    }
    if !has_digit {
        return false;
    }
    let l = chars_of(lowered);
    contains(&l, "is ") || contains(&l, "equals") || contains(&l, "=") || contains(&l, "are ")
}

/// Whether an answer should be cross-checked before it is accepted: it holds
/// a digit and, lowercased (std's `to_lowercase`), a statement word.
pub fn needs_cross_check(answer: &str) -> (r: bool)
    ensures
        r == looks_like_claim(answer@),
{
    let l = string_of(&to_lowercase(&chars_of(answer)));
    states_claim(answer, l.as_str())
}

/// A verification result that settles nothing: empty, or an error.
pub fn inconclusive(verified: &str) -> (r: bool)
    ensures
        r == (trim_seq(verified@).len() == 0 || has_prefix(verified@, "error"@)),
{
    let v = chars_of(verified);
    trim(&v).len() == 0 || starts_with(&v, "error")
}

/// The message asking the model to reconcile its answer with a verified result.
pub fn cross_check_message(verified: &str) -> (r: String)
    ensures
        r@ == "Cross-check: a verified computation returned:\n"@ + verified@
            + "\n\nIf your previous answer conflicts with this verified result, correct it. Otherwise confirm it. Reply with the final, corrected answer only."@,
{
    let mut v = chars_of("Cross-check: a verified computation returned:\n");
    push_str(&mut v, verified);
    push_str(
        &mut v,
        "\n\nIf your previous answer conflicts with this verified result, correct it. Otherwise confirm it. Reply with the final, corrected answer only.",
    );
    string_of(&v)
}

/// The id of the tool call made at `step`.
pub fn call_id(step: usize) -> (r: String)
    ensures
        r@ == "call_"@ + decimal(step as nat),
{
    let mut v = chars_of("call_");
    push_decimal(&mut v, step as u64);
    string_of(&v)
}

/// The question put to the model once the step budget is spent.
pub fn summary_question(goal: &str) -> (r: String)
    ensures
        r@ == "Summarize the answer to: "@ + goal@,
{
    let mut v = chars_of("Summarize the answer to: ");
    push_str(&mut v, goal);
    string_of(&v)
}


// ───────────────────────── the agent loop ─────────────────────────

/// Where the agent loop stands.
#[derive(Debug, Clone)]
pub enum AgentState {
    /// Waiting for the model's reply at step `step` (1 to `MAX_STEPS`).
    Asking { step: usize },
    /// The tool the model asked for at step `step` is running.
    Observing { step: usize },
    /// The solver checks the claim `answer`.
    Verifying { answer: String },
    /// The model reconciles `answer` with the solver's result.
    Reconciling { answer: String },
    /// The step budget is spent; the model summarizes.
    Summarizing,
    /// The loop has ended.
    Done,
}

/// What came back from the last action.
#[derive(Debug, Clone)]
pub enum AgentEvent {
    /// The model's turn: `None` when it could not be had or held nothing usable.
    Reply(Option<StepChoice>),
    /// What the tool or the solver printed.
    Output(String),
    /// The model's summary, if any.
    Summary(Option<String>),
}

/// What the loop does next.
#[derive(Debug, Clone)]
pub enum AgentAction {
    /// Ask the model again with the transcript as it stands.
    AskModel,
    /// Run the tool `name` with the arguments the model gave, under `call_id`.
    RunTool { name: String, call_id: String },
    /// Run the solver on `query`.
    Verify { query: String },
    /// Append the model's `answer` and the cross-check `message`, then ask the model.
    Reconcile { answer: String, message: String },
    /// Ask the model, without tools, to answer `question`.
    Summarize { question: String },
    /// Stop with this answer (`None`: the caller falls back to the engine).
    Finish(Option<String>),
}

/// A state the loop can be in: steps stay within the budget.
pub open spec fn state_ok(s: AgentState) -> bool {
    match s {
        AgentState::Asking { step } => 1 <= step <= MAX_STEPS,
        AgentState::Observing { step } => 1 <= step <= MAX_STEPS,
        _ => true,
    }
}

/// Tool runs the loop may still ask for from state `s`.
pub open spec fn tools_left(s: AgentState) -> int {
    match s {
        AgentState::Asking { step } => MAX_STEPS - step + 1,
        AgentState::Observing { step } => MAX_STEPS - step,
        _ => 0,
    }
}

/// A measure that every transition out of a live state lowers.
pub open spec fn rank(s: AgentState) -> int {
    match s {
        AgentState::Asking { step } => 2 * (MAX_STEPS - step) + 4,
        AgentState::Observing { step } => 2 * (MAX_STEPS - step) + 3,
        AgentState::Verifying { .. } => 2,
        AgentState::Reconciling { .. } => 1,
        AgentState::Summarizing => 1,
        AgentState::Done => 0,
    }
}

/// The loop ends with `answer`.
pub open spec fn finishes(next: AgentState, act: AgentAction, answer: Option<Seq<char>>) -> bool {
    &&& next is Done
    &&& match act {
        AgentAction::Finish(r) => match (r, answer) {
            (Some(x), Some(y)) => x@ == y,
            (None, None) => true,
            _ => false,
        },
        _ => false,
    }
}

/// The transition from `s` on event `e` for the user goal `goal`: `next` and
/// `act` are the state and action that follow.
pub open spec fn transition(s: AgentState, e: AgentEvent, goal: Seq<char>, next: AgentState, act: AgentAction) -> bool {
    match (s, e) {
        (AgentState::Asking { step }, AgentEvent::Reply(r)) => match r {
            Some(StepChoice::Call(name)) => {
                &&& next == AgentState::Observing { step }
                &&& act matches AgentAction::RunTool { name: n, call_id }
                &&& n@ == name@
                &&& call_id@ == "call_"@ + decimal(step as nat)
            },
            Some(StepChoice::Answer(a)) => if looks_like_claim(a@) {
                &&& next matches AgentState::Verifying { answer }
                &&& answer@ == a@
                &&& act matches AgentAction::Verify { query }
                &&& query@ == a@
            } else {
                finishes(next, act, Some(a@))
            },
            None => finishes(next, act, None),
        },
        (AgentState::Observing { step }, AgentEvent::Output(_)) => if step < MAX_STEPS {
            next == AgentState::Asking { step: (step + 1) as usize } && act is AskModel
        } else {
            &&& next is Summarizing
            &&& act matches AgentAction::Summarize { question }
            &&& question@ == "Summarize the answer to: "@ + goal
        },
        (AgentState::Verifying { answer }, AgentEvent::Output(v)) => if trim_seq(v@).len() == 0 || has_prefix(v@, "error"@) {
            finishes(next, act, Some(answer@))
        } else {
            &&& next matches AgentState::Reconciling { answer: a2 }
            &&& a2@ == answer@
            &&& act matches AgentAction::Reconcile { answer: a3, message }
            &&& a3@ == answer@
            &&& message@ == "Cross-check: a verified computation returned:\n"@ + v@ + "\n\nIf your previous answer conflicts with this verified result, correct it. Otherwise confirm it. Reply with the final, corrected answer only."@
        },
        (AgentState::Reconciling { answer }, AgentEvent::Reply(r)) => match r {
            Some(StepChoice::Answer(c)) => finishes(next, act, Some(c@)),
            _ => finishes(next, act, Some(answer@)),
        },
        (AgentState::Summarizing, AgentEvent::Summary(r)) => finishes(next, act, match r {
            Some(t) => Some(t@),
            None => None,
        }),
        _ => finishes(next, act, None),
    }
}

/// Where the loop starts: ask the model at step 1.
pub fn agent_start() -> (r: (AgentState, AgentAction))
    ensures
        r.0 == (AgentState::Asking { step: 1 }),
        r.1 is AskModel,
        state_ok(r.0),
        tools_left(r.0) == MAX_STEPS,
{
    (AgentState::Asking { step: 1 }, AgentAction::AskModel)
}

fn finish(answer: Option<String>) -> (r: (AgentState, AgentAction))
    ensures
        finishes(r.0, r.1, match answer {
            Some(a) => Some(a@),
            None => None,
        }),
{
    (AgentState::Done, AgentAction::Finish(answer))
}

/// The agent loop's decision: from the state `s` and what came back (`e`),
/// the next state and what to do. A tool call at step `n` runs under
/// `call_n`; after the tool of the last step the model summarizes; a claim
/// (a digit and a statement word) is checked with the solver before it is
/// accepted, and kept when the check is inconclusive; a reply that does not
/// fit the state ends the loop with no answer.
pub fn agent_transition(s: AgentState, e: AgentEvent, goal: &str) -> (r: (AgentState, AgentAction))
    ensures
        transition(s, e, goal@, r.0, r.1),
{
    match (s, e) {
        (AgentState::Asking { step }, AgentEvent::Reply(reply)) => match reply {
            Some(StepChoice::Call(name)) => (AgentState::Observing { step }, AgentAction::RunTool { name, call_id: call_id(step) }),
            Some(StepChoice::Answer(a)) => {
                if needs_cross_check(a.as_str()) {
                    let q = string_of(&chars_of(a.as_str()));
                    (AgentState::Verifying { answer: a }, AgentAction::Verify { query: q })
                } else {
                    finish(Some(a))
                }
            },
            None => finish(None),
        },
        (AgentState::Observing { step }, AgentEvent::Output(_)) => {
            if step < MAX_STEPS {
                (AgentState::Asking { step: step + 1 }, AgentAction::AskModel)
            } else {
                (AgentState::Summarizing, AgentAction::Summarize { question: summary_question(goal) })
            }
        },
        (AgentState::Verifying { answer }, AgentEvent::Output(v)) => {
            if inconclusive(v.as_str()) {
                finish(Some(answer))
            } else {
                let kept = string_of(&chars_of(answer.as_str()));
                let message = cross_check_message(v.as_str());
                (AgentState::Reconciling { answer }, AgentAction::Reconcile { answer: kept, message })
            }
        },
        (AgentState::Reconciling { answer }, AgentEvent::Reply(reply)) => match reply {
            Some(StepChoice::Answer(c)) => finish(Some(c)),
            _ => finish(Some(answer)),
        },
        (AgentState::Summarizing, AgentEvent::Summary(t)) => finish(t),
        _ => finish(None),
    }
}

/// The agent loop always ends, within its step budget: every transition out
/// of a live state lowers `rank` and keeps the state within the budget, and
/// each tool run spends one of at most `MAX_STEPS` (none is ever given back).
pub proof fn law_agent_loop_is_bounded(
    s: AgentState,
    e: AgentEvent,
    goal: Seq<char>,
    next: AgentState,
    act: AgentAction,
)
    requires
        state_ok(s),
        transition(s, e, goal, next, act),
    ensures
        state_ok(next),
        s !is Done ==> rank(next) < rank(s),
        0 <= tools_left(next) <= tools_left(s) <= MAX_STEPS,
        act is RunTool ==> tools_left(next) == tools_left(s) - 1,
        next is Done <==> act is Finish,
{
}

} // verus!
