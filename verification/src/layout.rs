//! Keys under which measured text layouts are cached.

use vstd::prelude::*;

verus! {

/// The space a layout may take along one axis, in whole pixels.
#[derive(Clone, Copy, Debug, PartialEq, Eq, Hash, Structural)]
pub enum AvailableSpaceKey {
    /// The amount of space available is the specified number of pixels.
    Definite(u32),
    /// The element is laid out under a min-content constraint.
    MinContent,
    /// The element is laid out under a max-content constraint.
    MaxContent,
}

/// The constraints a text layout was measured under.
#[derive(Clone, Copy, Debug, PartialEq, Eq, Hash, Structural)]
pub struct TextHashKey {
    pub width_constraint: Option<u32>,
    pub height_constraint: Option<u32>,
    pub available_space_width: AvailableSpaceKey,
    pub available_space_height: AvailableSpaceKey,
}

} // verus!
