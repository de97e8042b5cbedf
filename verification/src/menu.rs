//! The operations reachable from the top menu bar.

use vstd::prelude::*;

verus! {

/// One top-menu action.
#[derive(Copy, Clone, PartialEq, Eq, Structural)]
pub enum TopMenuOp {
    NewProject,
    AudioOutput,
    OutputOne,
    OutputConnected,
    LoadText,
    OverwriteProject,
    SaveProjectAs,
    LoadProject,
    RebootEngine,
    KeyConfig,
    ToolBarCustomize,
    SampleVoice,
    DefaultStyle,
    Dictionary,
    Option,
    Help,
}

} // verus!
