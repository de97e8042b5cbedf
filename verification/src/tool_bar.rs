//! The operations a tool bar can hold.

use vstd::prelude::*;

verus! {

/// One tool-bar button, or the elastic blank separating left-aligned
/// buttons from right-aligned ones.
#[derive(Copy, Clone, PartialEq, Eq, Structural)]
pub enum ToolBarOp {
    PlayAll,
    Stop,
    ExportSelected,
    ExportAll,
    ExportAllInOneFile,
    SaveProject,
    Undo,
    Redo,
    LoadText,
    Blank,
}

} // verus!
