//! The tasks agents work on and the outputs they produce.

use vstd::prelude::*;
use crate::json::Json;

verus! {

/// A task to be understood and carried out.
#[derive(Debug)]
pub struct Task {
    pub id: String,
    pub description: String,
    pub context: Json,
}

/// A part of a task, possibly assigned to an agent.
#[derive(Debug)]
pub struct SubTask {
    pub id: String,
    pub parent_id: String,
    pub description: String,
    pub parameters: Json,
    pub assigned_to: Option<String>,
}

/// The outcome of carrying out a (sub)task.
#[derive(Debug)]
pub struct Output {
    pub task_id: String,
    pub result: Json,
    pub success: bool,
    pub message: Option<String>,
}

/// The view of an optional string.
pub open spec fn opt_str(o: Option<String>) -> Option<Seq<char>> {
    match o {
        Some(s) => Some(s@),
        None => None,
    }
}

} // verus!
