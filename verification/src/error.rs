//! Error kinds of the reasoning core, each with the message it displays.
use vstd::prelude::*;

use crate::text::{chars_of, decimal, push_decimal, push_str, string_of};

verus! {

/// `prefix` followed by `detail`, as a `String`.
fn message_with(prefix: &str, detail: &str) -> (r: String)
    ensures
        r@ == prefix@ + detail@,
{
    let mut v = chars_of(prefix);
    push_str(&mut v, detail);
    string_of(&v)
}

/// `s` as a `String`.
fn message_of(s: &str) -> (r: String)
    ensures
        r@ == s@,
{
    let v = chars_of(s);
    string_of(&v)
}

/// Errors originating from reasoning and proof logic.
#[derive(Debug, Clone)]
pub enum ReasoningError {
    NoProof { query: String },
    Rejected { reason: String },
    BudgetExhausted { requested: usize, available: usize },
    CircularDependency(String),
    UnsupportedQuery(String),
}

impl ReasoningError {
    pub open spec fn message_spec(&self) -> Seq<char> {
        match self {
            ReasoningError::NoProof { query } => "no proof found for query: "@ + query@,
            ReasoningError::Rejected { reason } => "proof rejected: "@ + reason@,
            ReasoningError::BudgetExhausted { requested, available } => "budget exhausted: requested "@
                + decimal(*requested as nat) + ", available "@ + decimal(*available as nat),
            ReasoningError::CircularDependency(s) => "circular dependency detected: "@ + s@,
            ReasoningError::UnsupportedQuery(s) => "unsupported query type: "@ + s@,
        }
    }

    /// The message this error displays.
    pub fn message(&self) -> (r: String)
        ensures
            r@ == self.message_spec(),
    {
        match self {
            ReasoningError::NoProof { query } => message_with("no proof found for query: ", query.as_str()),
            ReasoningError::Rejected { reason } => message_with("proof rejected: ", reason.as_str()),
            ReasoningError::BudgetExhausted { requested, available } => {
                let mut v = chars_of("budget exhausted: requested ");
                push_decimal(&mut v, *requested as u64);
                push_str(&mut v, ", available ");
                push_decimal(&mut v, *available as u64);
                string_of(&v)
            },
            ReasoningError::CircularDependency(s) => message_with(
                "circular dependency detected: ",
                s.as_str(),
            ),
            ReasoningError::UnsupportedQuery(s) => message_with("unsupported query type: ", s.as_str()),
        }
    }
}

/// Errors from LLM or neural inference paths.
#[derive(Debug, Clone)]
pub enum InferenceError {
    ModelNotLoaded(String),
    Failed(String),
    TokenBudgetExceeded,
}

impl InferenceError {
    pub open spec fn message_spec(&self) -> Seq<char> {
        match self {
            InferenceError::ModelNotLoaded(s) => "model not loaded: "@ + s@,
            InferenceError::Failed(s) => "inference failed: "@ + s@,
            InferenceError::TokenBudgetExceeded => "token budget exceeded during inference"@,
        }
    }

    /// The message this error displays.
    pub fn message(&self) -> (r: String)
        ensures
            r@ == self.message_spec(),
    {
        match self {
            InferenceError::ModelNotLoaded(s) => message_with("model not loaded: ", s.as_str()),
            InferenceError::Failed(s) => message_with("inference failed: ", s.as_str()),
            InferenceError::TokenBudgetExceeded => message_of("token budget exceeded during inference"),
        }
    }
}

/// Errors from NLP and query parsing.
#[derive(Debug, Clone)]
pub enum ParserError {
    Syntax(String),
    UnknownToken(String),
    UnexpectedEof,
}

impl ParserError {
    pub open spec fn message_spec(&self) -> Seq<char> {
        match self {
            ParserError::Syntax(s) => "syntax error: "@ + s@,
            ParserError::UnknownToken(s) => "unknown token: "@ + s@,
            ParserError::UnexpectedEof => "unexpected end of input"@,
        }
    }

    /// The message this error displays.
    pub fn message(&self) -> (r: String)
        ensures
            r@ == self.message_spec(),
    {
        match self {
            ParserError::Syntax(s) => message_with("syntax error: ", s.as_str()),
            ParserError::UnknownToken(s) => message_with("unknown token: ", s.as_str()),
            ParserError::UnexpectedEof => message_of("unexpected end of input"),
        }
    }
}

/// Errors from network or IPC transport.
#[derive(Debug, Clone)]
pub enum TransportError {
    ConnectionRefused(String),
    Timeout(u64),
    Protocol(String),
}

impl TransportError {
    pub open spec fn message_spec(&self) -> Seq<char> {
        match self {
            TransportError::ConnectionRefused(s) => "connection refused: "@ + s@,
            TransportError::Timeout(ms) => "timeout after "@ + decimal(*ms as nat) + "ms"@,
            TransportError::Protocol(s) => "protocol error: "@ + s@,
        }
    }

    /// The message this error displays.
    pub fn message(&self) -> (r: String)
        ensures
            r@ == self.message_spec(),
    {
        match self {
            TransportError::ConnectionRefused(s) => message_with("connection refused: ", s.as_str()),
            TransportError::Timeout(ms) => {
                let mut v = chars_of("timeout after ");
                push_decimal(&mut v, *ms);
                push_str(&mut v, "ms");
                string_of(&v)
            },
            TransportError::Protocol(s) => message_with("protocol error: ", s.as_str()),
        }
    }
}


/// Errors from input validation and schema checks. (The range error, whose
/// bounds are floating-point numbers, is raised and displayed outside this
/// library.)
#[derive(Debug, Clone)]
pub enum ValidationError {
    InvalidDomain(String),
    MissingField(String),
    Malformed(String),
}

impl ValidationError {
    pub open spec fn message_spec(&self) -> Seq<char> {
        match self {
            ValidationError::InvalidDomain(s) => "invalid domain: "@ + s@,
            ValidationError::MissingField(s) => "missing required field: "@ + s@,
            ValidationError::Malformed(s) => "malformed input: "@ + s@,
        }
    }

    /// The message this error displays.
    pub fn message(&self) -> (r: String)
        ensures
            r@ == self.message_spec(),
    {
        match self {
            ValidationError::InvalidDomain(s) => message_with("invalid domain: ", s.as_str()),
            ValidationError::MissingField(s) => message_with("missing required field: ", s.as_str()),
            ValidationError::Malformed(s) => message_with("malformed input: ", s.as_str()),
        }
    }
}

/// Root error type: each domain error shows through unchanged, and any other
/// failure is an internal error carrying its text.
#[derive(Debug, Clone)]
pub enum LaiError {
    Reasoning(ReasoningError),
    Validation(ValidationError),
    Inference(InferenceError),
    Parser(ParserError),
    Transport(TransportError),
    Internal(String),
}

impl LaiError {
    pub open spec fn message_spec(&self) -> Seq<char> {
        match self {
            LaiError::Reasoning(e) => e.message_spec(),
            LaiError::Validation(e) => e.message_spec(),
            LaiError::Inference(e) => e.message_spec(),
            LaiError::Parser(e) => e.message_spec(),
            LaiError::Transport(e) => e.message_spec(),
            LaiError::Internal(s) => s@,
        }
    }

    /// The message this error displays: the wrapped error's own message, or
    /// the internal error's text.
    pub fn message(&self) -> (r: String)
        ensures
            r@ == self.message_spec(),
    {
        match self {
            LaiError::Reasoning(e) => e.message(),
            LaiError::Validation(e) => e.message(),
            LaiError::Inference(e) => e.message(),
            LaiError::Parser(e) => e.message(),
            LaiError::Transport(e) => e.message(),
            LaiError::Internal(s) => message_of(s.as_str()),
        }
    }

    /// An internal error carrying the text `s`.
    pub fn internal(s: &str) -> (r: Self)
        ensures
            r matches LaiError::Internal(m) && m@ == s@,
    {
        LaiError::Internal(message_of(s))
    }
}

impl From<String> for LaiError {
    fn from(s: String) -> (r: Self) {
        LaiError::Internal(s)
    }
}

impl vstd::std_specs::convert::FromSpecImpl<String> for LaiError {
    open spec fn obeys_from_spec() -> bool {
        true
    }

    open spec fn from_spec(s: String) -> LaiError {
        LaiError::Internal(s)
    }
}

impl From<ReasoningError> for LaiError {
    fn from(e: ReasoningError) -> (r: Self) {
        LaiError::Reasoning(e)
    }
}

impl vstd::std_specs::convert::FromSpecImpl<ReasoningError> for LaiError {
    open spec fn obeys_from_spec() -> bool {
        true
    }

    open spec fn from_spec(e: ReasoningError) -> LaiError {
        LaiError::Reasoning(e)
    }
}

} // verus!
