//! Decision core of a compute-graph task scheduler.
//!
//! Given one event of an invocation (its start, or the completion of one of
//! its tasks) the library decides which tasks have to be created next, which
//! reduction work is queued or drained, and whether the invocation is over.
//! The decision is a value: nothing is persisted or scheduled here.
//!
//! - [`data_model`]: the graph, its tasks and their outputs;
//! - [`decision`]: which decision each event calls for, as mathematics;
//! - [`task_creator`]: the handlers, proved to carry that decision out;
//! - [`guarantees`]: what holds of every decision;
//! - [`memory`]: a bounded history of conversation turns.

pub mod data_model;
pub mod decision;
pub mod guarantees;
pub mod memory;
pub mod task_creator;

pub use memory::{ConversationHistory, ConversationHistoryError};
pub use task_creator::TaskCreationResult;
