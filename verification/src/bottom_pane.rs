//! Which parameter view the bottom editing pane is showing.

use vstd::prelude::*;

verus! {

/// The parameter currently being edited per mora: accent position,
/// intonation (pitch), or phoneme length.
#[derive(Copy, Clone, PartialEq, Eq, Structural)]
pub enum Displaying {
    Accent,
    Intonation,
    Length,
}

} // verus!
