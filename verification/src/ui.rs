//! Pane identifiers for the four-pane layout.
//!
//! Drawing is done by the embedding program; the core only needs to know
//! which pane has focus, since searching and navigation depend on it.

use vstd::prelude::*;

verus! {

/// A focusable region of the screen.
#[derive(Debug, Clone, Copy, PartialEq, Eq, Structural)]
pub enum Pane {
    ParentDirectory,
    CurrentDirectory,
    SelectedDirectory,
    Targets,
    Details,
}

/// The two halves of the layout: directory browsing and target inspection.
#[derive(Debug, Clone, Copy, PartialEq, Eq, Structural)]
pub enum PaneGroup {
    Explorer,
    Inspector,
}

} // verus!
