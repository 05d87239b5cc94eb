//! Native side effects as data. The reconciliation engine never touches a
//! native window itself: it returns the operations to perform, in order, and
//! reads ambient native state from a sample the driver gathered up front.

use crate::core_types::Rect;
use vstd::prelude::*;

verus! {

/// One native window operation requested by the core.
#[derive(Debug)]
pub enum NativeOp {
    /// Spawn the overlay window for a new border on its own thread.
    CreateBorder { id: String, border_hwnd: isize, tracking_hwnd: isize, monitor_idx: usize },
    /// Signal the overlay window's own message loop to exit and release the
    /// native resources exactly once.
    DestroyBorder { border_hwnd: isize },
    /// Move and size the overlay window around the tracked window.
    SetBorderPosition { border_hwnd: isize, rect: Rect, tracking_hwnd: isize },
    /// Force the overlay window to repaint.
    InvalidateBorder { border_hwnd: isize },
    RestoreWindow { hwnd: isize },
    HideWindow { hwnd: isize },
    RaiseWindow { hwnd: isize },
    LowerWindow { hwnd: isize },
    /// Set a native accent colour directly on a tracked window.
    SetAccent { hwnd: isize, colour: u32 },
    /// Forward a native event to an overlay window, carrying the tracked
    /// window's handle.
    NotifyBorder { border_hwnd: isize, event: u32, tracking_hwnd: isize },
    /// Enumerate and destroy overlay windows this manager no longer knows.
    PurgeUnknownBorders,
    /// Make a window transparent with the given alpha.
    SetTransparent { hwnd: isize, alpha: u8 },
    /// Restore a window to full opacity.
    SetOpaque { hwnd: isize, alpha: u8 },
    /// Ask a window to close itself.
    CloseWindow { hwnd: isize },
    /// Give a window the input focus.
    FocusWindow { hwnd: isize },
    /// Move and size a managed window.
    SetWindowPosition { hwnd: isize, rect: Rect },
    MinimizeWindow { hwnd: isize },
    /// Spawn the native window of a new stackbar on its own thread.
    CreateStackbar { id: String, hwnd: isize },
    /// Move and size a stackbar window.
    PositionStackbar { hwnd: isize, rect: Rect },
    /// Repaint a stackbar's tabs at the given rectangles, with the focused
    /// tab highlighted.
    DrawStackbar { hwnd: isize, tab_rects: Vec<Rect>, focused_tab: usize },
}

/// A point-in-time sample of ambient native state, gathered by the driver
/// before a reconciliation pass.
#[derive(Debug)]
pub struct NativeEnv {
    /// The window the OS reports as foreground.
    pub foreground_window: isize,
    /// The native id of the monitor the foreground window is on.
    pub foreground_monitor_id: isize,
    /// Whether the foreground window is maximized.
    pub foreground_zoomed: bool,
    /// The window handles that are currently visible.
    pub visible_hwnds: Vec<isize>,
    /// Current geometry per window; a window missing here failed the
    /// geometry read (it was destroyed in the meantime).
    pub window_rects: Vec<(isize, Rect)>,
    /// Handles that overlay-window creation will assign, in order; when this
    /// runs out, creation fails and the monitor's remaining work for the
    /// pass is abandoned.
    pub fresh_border_hwnds: Vec<isize>,
    /// Handles that stackbar-window creation will assign, in order.
    pub fresh_stackbar_hwnds: Vec<isize>,
    /// Windows the transparency blacklist matches; these are never made
    /// transparent.
    pub blacklisted_hwnds: Vec<isize>,
}

/// The geometry recorded for `h`, searching from the front.
pub open spec fn rect_lookup(s: Seq<(isize, Rect)>, h: isize) -> Option<Rect>
    decreases s.len(),
{
    if s.len() == 0 {
        None
    } else if s[0].0 == h {
        Some(s[0].1)
    } else {
        rect_lookup(s.drop_first(), h)
    }
}

/// Every coordinate of `r` lies within `b` of zero.
pub open spec fn rect_bounded(r: Rect, b: int) -> bool {
    -b <= r.left <= b && -b <= r.top <= b && -b <= r.right <= b && -b <= r.bottom <= b
}

/// A successful geometry lookup stays within the bounds of the recorded
/// rectangles.
pub proof fn lemma_rect_lookup_bounded(s: Seq<(isize, Rect)>, h: isize, b: int)
    requires
        forall|k: int| 0 <= k < s.len() ==> rect_bounded((#[trigger] s[k]).1, b),
    ensures
        rect_lookup(s, h) matches Some(rc) ==> rect_bounded(rc, b),
    decreases s.len(),
{
    if s.len() > 0 && s[0].0 != h {
        assert forall|k: int| 0 <= k < s.drop_first().len() implies rect_bounded(
            (#[trigger] s.drop_first()[k]).1,
            b,
        ) by {
            assert(rect_bounded(s[k + 1].1, b));
        }
        lemma_rect_lookup_bounded(s.drop_first(), h, b);
    }
}

impl NativeEnv {
    /// Whether the sample reports `h` as a visible window.
    pub open spec fn spec_visible(&self, h: isize) -> bool {
        self.visible_hwnds@.contains(h)
    }

    pub fn is_visible(&self, h: isize) -> (r: bool)
        ensures
            r == self.spec_visible(h),
    {
        let mut i: usize = 0;
        while i < self.visible_hwnds.len()
            invariant
                0 <= i <= self.visible_hwnds@.len(),
                forall|j: int| 0 <= j < i ==> self.visible_hwnds@[j] != h,
            decreases self.visible_hwnds@.len() - i,
        {
            if self.visible_hwnds[i] == h {
                return true;
            }
            i = i + 1;
        }
        false
    }

    /// Whether the transparency blacklist matches `h`.
    pub open spec fn spec_blacklisted(&self, h: isize) -> bool {
        self.blacklisted_hwnds@.contains(h)
    }

    pub fn is_blacklisted(&self, h: isize) -> (r: bool)
        ensures
            r == self.spec_blacklisted(h),
    {
        let mut i: usize = 0;
        while i < self.blacklisted_hwnds.len()
            invariant
                0 <= i <= self.blacklisted_hwnds@.len(),
                forall|j: int| 0 <= j < i ==> self.blacklisted_hwnds@[j] != h,
            decreases self.blacklisted_hwnds@.len() - i,
        {
            if self.blacklisted_hwnds[i] == h {
                return true;
            }
            i = i + 1;
        }
        false
    }

    /// Reads the sampled geometry of `h`; `None` stands for a failed
    /// geometry read.
    pub fn window_rect(&self, h: isize) -> (r: Option<Rect>)
        ensures
            r == rect_lookup(self.window_rects@, h),
    {
        let mut i: usize = 0;
        proof {
            assert(self.window_rects@.skip(0) =~= self.window_rects@);
        }
        while i < self.window_rects.len()
            invariant
                0 <= i <= self.window_rects@.len(),
                rect_lookup(self.window_rects@, h) == rect_lookup(
                    self.window_rects@.skip(i as int),
                    h,
                ),
            decreases self.window_rects@.len() - i,
        {
            if self.window_rects[i].0 == h {
                proof {
                    assert(self.window_rects@.skip(i as int)[0] == self.window_rects@[i as int]);
                }
                return Some(self.window_rects[i].1);
            }
            proof {
                assert(self.window_rects@.skip(i as int).drop_first() =~= self.window_rects@.skip(
                    i as int + 1,
                ));
            }
            i = i + 1;
        }
        proof {
            assert(self.window_rects@.skip(i as int).len() == 0);
        }
        None
    }
}

} // verus!
