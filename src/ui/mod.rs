//! What the terminal interface shows.
use vstd::prelude::*;

verus! {

/// The tabs of the main screen.
#[derive(Clone, Copy, PartialEq, Eq, Structural, Debug)]
pub enum TabView {
    Rooms,
    Users,
    Chat,
    Settings,
}

} // verus!
