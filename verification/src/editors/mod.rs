//! Editors for the files that a version-control tool hands to its editor.

pub mod rebase;
