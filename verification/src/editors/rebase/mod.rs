//! The editor for rebase plans.

pub mod commit;
pub mod editor;
pub mod laws;
pub mod todo;

pub use editor::RebaseEditor;
pub use todo::{RebaseTodo, RebaseTodoLine};
