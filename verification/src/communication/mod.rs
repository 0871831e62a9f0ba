//! Messages exchanged between agents.

pub mod message;
