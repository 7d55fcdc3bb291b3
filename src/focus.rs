//! Targets that keyboard, pointer and touch focus can point at.
use vstd::prelude::*;

verus! {

/// A focus target: a window, a layer surface or a popup, by index.
#[derive(Clone, Copy, Debug, PartialEq, Eq, Structural)]
pub enum CompostorFocus {
    Window(u8),
    Layer(u8),
    Popup(u8),
}

impl CompostorFocus {
    /// The protocol surface behind the target; input routing is not wired
    /// to surfaces yet, so there is none.
    pub fn wl_surface(&self) -> (r: Option<u64>)
        ensures
            r is None,
    {
        None
    }
}

} // verus!
