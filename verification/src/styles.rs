//! Style selectors for the presentation layer. The pipeline only decides
//! *which* style a widget is in; turning a selector into concrete colors
//! and borders is the presentation layer's business and stays outside the
//! library.

use vstd::prelude::*;

verus! {

/// Selects the backdrop style of the drop surface: highlighted while a
/// drag hovers over the application, plain otherwise.
#[derive(Debug, Clone, Copy, PartialEq, Eq, Structural)]
pub struct HoveredContainer {
    pub hovered: bool,
}

impl HoveredContainer {
    /// A selector reflecting the given hover state.
    pub fn new(hovered: bool) -> (r: HoveredContainer)
        ensures
            r.hovered == hovered,
    {
        HoveredContainer { hovered }
    }
}

/// Selects a container style.
#[derive(Debug, Clone, Copy, PartialEq, Eq, Structural)]
pub enum Container {
    Primary,
    Secondary,
}

/// Selects a button style.
#[derive(Debug, Clone, Copy, PartialEq, Eq, Structural)]
pub enum Button {
    Primary,
    Transparent,
}

/// Selects a text-input style.
#[derive(Debug, Clone, Copy, PartialEq, Eq, Structural)]
pub enum TextInput {
    Primary,
}

} // verus!
