//! Reconciliation and control core of a tiling window manager.
//!
//! The library keeps a set of overlay "border" windows in sync with the
//! manager's layout state, and provides the message bus through which every
//! subsystem requests mutations of shared window-manager state. Native window
//! operations are never performed here: the reconciliation engine consumes a
//! snapshot of the layout plus a sample of ambient native state and produces
//! the list of native operations for the caller to execute.

pub mod border_manager;
pub mod core_types;
pub mod monitor;
pub mod monitor_reconciliator;
pub mod ops;
pub mod runtime;
pub mod theme_manager;
pub mod window_manager;
pub mod komorebi;
pub mod text;
pub mod transparency_manager;
pub mod stackbar_manager;

use vstd::prelude::*;

verus! {

/// Window-kind classification driving border colour and behaviour.
#[derive(Debug, Clone, Copy, PartialEq, Eq, Structural)]
pub enum WindowKind {
    Single,
    Stack,
    Monocle,
    Unfocused,
    UnfocusedLocked,
    Floating,
}

impl Default for WindowKind {
    /// A border starts out unfocused until a pass classifies it.
    fn default() -> (k: Self)
        ensures
            k is Unfocused,
    {
        WindowKind::Unfocused
    }
}

} // verus!
