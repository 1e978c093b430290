//! Plain data types at the boundary to the embedding workspace: the colour
//! theme, pane-split directions, and the external-editor feature whose
//! launching side lives outside the library.

use vstd::prelude::*;

verus! {

/// The colour theme the embedding front end renders with.
#[derive(Clone, Copy, PartialEq, Eq, Structural, Debug)]
pub enum Theme {
    Dark,
    Light,
    System,
}

/// How a view is split in two: left/right or top/bottom.
#[derive(Clone, Copy, PartialEq, Eq, Structural, Debug)]
pub enum SplitDirection {
    Horizontal,
    Vertical,
}

/// The layout direction of a tiling step.
#[derive(Clone, Copy, PartialEq, Eq, Structural, Debug)]
pub enum TileDirection {
    Horizontal,
    Vertical,
}

/// The external-editor feature: which editor binary to launch in a
/// terminal pane.  Spawning the editor process happens outside the
/// library.
pub struct EditorFeature {
    pub editor_binary: String,
}

impl EditorFeature {
    /// The feature with its stock editor.
    pub fn new() -> (r: EditorFeature)
        ensures
            r.editor_binary@ == "micro"@,
    {
        EditorFeature { editor_binary: String::from_str("micro") }
    }
}

impl Default for EditorFeature {
    /// The same feature [`EditorFeature::new`] builds.
    fn default() -> (r: Self)
        ensures
            r.editor_binary@ == "micro"@,
    {
        EditorFeature::new()
    }
}

} // verus!
