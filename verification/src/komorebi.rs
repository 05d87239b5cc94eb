//! The top-level pairing of the window manager with its border engine.

use crate::border_manager::BorderManager;
use crate::window_manager::WindowManager;
use vstd::prelude::*;

verus! {

/// The whole reconciliation core: the manager state and a border engine.
#[derive(Debug)]
pub struct Komorebi {
    pub window_manager: WindowManager,
    pub border_manager: BorderManager,
}

} // verus!
