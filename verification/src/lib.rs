//! The message stream of a set of groups: which messages a subscription hands on,
//! which it skips, and how the position in each group's topic moves.

pub mod bytes;
pub mod error;
pub mod group_list;
pub mod group_message;
pub mod laws;
pub mod position;
pub mod process;
pub mod process_guarantees;
pub mod stream;
pub mod stream_guarantees;
pub mod summary;
pub mod value_guarantees;
