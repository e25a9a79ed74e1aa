//! A singly-linked list that owns its links.
//!
//! A [`list::List`] is a handle on a chain of [`list::Node`]s, or on nothing
//! when it is empty. Every operation is specified over the sequence of
//! payloads that the list holds, front first: appending concatenates two
//! sequences, reversing reverses one, dropping the head takes the first
//! element away.
//!
//! - [`list`]: the two types and their operations.
//! - [`render`]: a list as text, `1->2->3`, or `<Empty>`.
//! - [`laws`]: what holds between the operations, for every list.

pub mod laws;
pub mod list;
pub mod render;
