//! The core of an interactive editor for rebase plans: the line model of a todo file, the
//! document with its cursor, and the decisions of an editing session.

use vstd::prelude::*;

pub mod editors;
pub mod style;
pub mod text;

verus! {

/// The kinds of file that the tool has an editor for.
#[derive(Debug, Clone, Copy, PartialEq, Eq)]
pub enum Commands {
    /// The todo file of an interactive rebase.
    Rebase,
}

} // verus!
