//! An in-memory to-do list: entries with a completion state and the instants
//! at which they were created and finished, kept in the order in which they
//! were added and addressed by their position in that order.

pub mod clock;
pub mod laws;
pub mod list;
pub mod todo;

pub use clock::Timestamp;
pub use list::{ListFilter, TodoError, TodoList};
pub use todo::{Todo, TodoState, TodoView};
