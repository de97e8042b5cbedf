//! The choices a modal dialogue offers.

use vstd::prelude::*;

verus! {

/// A dialogue's row of controls: each entry is a labelled button carrying
/// the value the dialogue resolves to when it is pressed, and `None`
/// marks the gap between left- and right-aligned buttons.
pub trait DialogueSelectable<T: PartialEq + Clone> {
    fn layout(&self) -> Vec<Option<(T, &'static str)>>;
}

/// The controls of the "abandon customization?" dialogue: cancel on the
/// left, confirm exit on the right.
pub struct ExitControl;

impl DialogueSelectable<bool> for ExitControl {
    fn layout(&self) -> Vec<Option<(bool, &'static str)>> {
        let mut controls: Vec<Option<(bool, &'static str)>> = Vec::new();
        controls.push(Some((false, "キャンセル")));
        controls.push(None);
        controls.push(Some((true, "終了")));
        controls
    }
}

} // verus!
