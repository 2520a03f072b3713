//! The rules of an agent's tools: which handler takes a call, what hooks see of it and may do
//! to it, what a skill is permitted, and how agents are spawned and waited for.
//!
//! What has to wait for the world is written as a state machine. Its `step` takes what came of
//! the last action and says what to do next; a caller performs the actions. Each machine has a
//! `next` function over mathematical values that says what `step` does, and laws that hold
//! along every course that a call can take.

pub mod context;
pub mod dispatch;
pub mod hooks;
pub mod json;
pub mod multi_agents;
pub mod path;
pub mod permissions;
pub mod policy;
pub mod registry;
pub mod text;
pub mod tool_input;
