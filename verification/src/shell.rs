//! Plain data shared with the surrounding desktop shell: which screen is
//! active, which colour picker a settings panel opened, and which of the
//! application's directories a path request names. The widgets themselves
//! live outside the verified core.

use vstd::prelude::*;

verus! {

/// The screens the application can show.
#[derive(Debug, Clone, PartialEq, Eq, Structural)]
pub enum Screens {
    Explorer,
    Viewer,
}

impl Default for Screens {
    fn default() -> (r: Self)
        ensures
            r == Screens::Explorer,
    {
        Screens::Explorer
    }
}

/// Which colour a picker in the display settings edits.
#[derive(Debug, Clone, PartialEq, Eq, Structural)]
pub enum ColorPickerType {
    DefaultStateboxColor,
    DefaultTextColor,
}

/// The directory categories the application keeps files under.
#[derive(Debug, Clone, PartialEq, Eq, Structural)]
pub enum Directories {
    Log,
    Cache,
    Data,
    Config,
}

} // verus!
