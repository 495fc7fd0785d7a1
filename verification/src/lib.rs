use vstd::prelude::*;

pub mod actions;
pub mod agent;
pub mod domain;
pub mod error;
pub mod gate;
pub mod intent;
pub mod llm;
pub mod memory;
pub mod personality;
pub mod primitive;
pub mod proactive;
pub mod route;
pub mod scan;
pub mod serve;
pub mod strategy;
pub mod text;
pub mod understanding;
pub mod vad;
pub mod wheel;

verus! {
}
