//! The border reconciliation engine: owns the border entities and the
//! reverse index from tracked window to border id, and decides, from a
//! snapshot of the layout and a sample of native state, which overlay
//! windows to create, reposition, repaint and destroy.

use crate::core_types::BorderImplementation;
use crate::core_types::BorderStyle;
use crate::core_types::Rect;
use crate::core_types::Rgb;
use crate::core_types::WorkspaceLayer;
use crate::monitor::monitors_eq;
use crate::monitor::monitors_vec_eq;
use crate::monitor::Monitor;
use crate::monitor::Workspace;
use crate::ops::rect_lookup;
use crate::ops::NativeEnv;
use crate::ops::NativeOp;
use crate::WindowKind;
use vstd::prelude::*;

verus! {

/// One overlay window's visual and lifecycle state.
#[derive(Debug)]
pub struct Border {
    /// Stable key: the container id, or the stringified handle of a floating
    /// window.
    pub id: String,
    /// Native handle of the overlay window itself.
    pub hwnd: isize,
    /// Native handle of the window the overlay is drawn around.
    pub tracking_hwnd: isize,
    pub window_kind: WindowKind,
    /// The monitor the border currently belongs to.
    pub monitor_idx: Option<usize>,
    /// Last painted geometry of the tracked window.
    pub window_rect: Rect,
    pub style: BorderStyle,
    pub width: i32,
    pub offset: i32,
}

/// The colour used for each window kind.
#[derive(Debug, Clone, Copy, PartialEq, Eq, Structural)]
pub struct WindowKindColours {
    pub single_colour: u32,
    pub unfocused_colour: u32,
    pub monocle_colour: u32,
    pub stack_colour: u32,
    pub floating_colour: u32,
    pub unfocused_locked_colour: u32,
}

impl Default for WindowKindColours {
    fn default() -> (c: Self)
        ensures
            c == WindowKindColours::default_spec(),
    {
        WindowKindColours {
            single_colour: Rgb::new(66, 165, 245).to_u32(),
            unfocused_colour: Rgb::new(128, 128, 128).to_u32(),
            monocle_colour: Rgb::new(255, 51, 153).to_u32(),
            stack_colour: Rgb::new(0, 165, 66).to_u32(),
            floating_colour: Rgb::new(245, 245, 165).to_u32(),
            unfocused_locked_colour: Rgb::new(128, 128, 128).to_u32(),
        }
    }
}

impl WindowKindColours {
    pub open spec fn default_spec() -> WindowKindColours {
        WindowKindColours {
            single_colour: crate::core_types::spec_rgb_u32(66, 165, 245) as u32,
            unfocused_colour: crate::core_types::spec_rgb_u32(128, 128, 128) as u32,
            monocle_colour: crate::core_types::spec_rgb_u32(255, 51, 153) as u32,
            stack_colour: crate::core_types::spec_rgb_u32(0, 165, 66) as u32,
            floating_colour: crate::core_types::spec_rgb_u32(245, 245, 165) as u32,
            unfocused_locked_colour: crate::core_types::spec_rgb_u32(128, 128, 128) as u32,
        }
    }

    /// The colour configured for the given window kind.
    pub open spec fn spec_from_kind(&self, window_kind: WindowKind) -> u32 {
        match window_kind {
            WindowKind::Unfocused => self.unfocused_colour,
            WindowKind::UnfocusedLocked => self.unfocused_locked_colour,
            WindowKind::Single => self.single_colour,
            WindowKind::Stack => self.stack_colour,
            WindowKind::Monocle => self.monocle_colour,
            WindowKind::Floating => self.floating_colour,
        }
    }

    /// Gets the colour as a `u32` from the `WindowKind`.
    pub fn from_kind(&self, window_kind: WindowKind) -> (c: u32)
        ensures
            c == self.spec_from_kind(window_kind),
    {
        match window_kind {
            WindowKind::Unfocused => self.unfocused_colour,
            WindowKind::UnfocusedLocked => self.unfocused_locked_colour,
            WindowKind::Single => self.single_colour,
            WindowKind::Stack => self.stack_colour,
            WindowKind::Monocle => self.monocle_colour,
            WindowKind::Floating => self.floating_colour,
        }
    }
}

/// A control request consumed by the border engine.
#[derive(Debug)]
pub enum BorderMessage {
    /// Reconcile all borders; the optional handle is the window whose focus
    /// change triggered the update.
    Update(Option<isize>),
    /// Reconcile all borders even when the change gate would skip the pass.
    ForceUpdate(Option<isize>),
    /// Forward a native event to the border of the given tracked window.
    PassEvent(isize, u32),
    /// Remove the border around the given tracked window.
    Delete(isize),
    Show(isize),
    Hide(isize),
    Raise(isize),
    Lower(isize),
    /// Destroy every known and unknown border.
    DestroyAll,
}

/// What a caller needs to know of the border attached to some window.
#[derive(Debug, Clone, Copy, PartialEq, Eq, Structural)]
pub struct BorderInfo {
    pub border_hwnd: isize,
    pub window_kind: WindowKind,
}

/// The info from the `WindowManager` that the border engine needs: one
/// immutable snapshot per pass.
#[derive(Debug)]
pub struct WindowManagerInfo {
    pub is_paused: bool,
    pub focused_monitor_idx: usize,
    pub monitors: Vec<Monitor>,
    /// A pending window-drag operation, as (monitor, workspace, window).
    pub pending_move_op: Option<(usize, usize, isize)>,
    /// Floating windows of the focused workspace.
    pub floating_window_hwnds: Vec<isize>,
    pub workspace_layer: WorkspaceLayer,
}

impl WindowManagerInfo {
    /// An empty snapshot, before the first pass delivers a real one.
    pub fn empty() -> (r: WindowManagerInfo)
        ensures
            r.is_paused == false,
            r.focused_monitor_idx == 0,
            r.monitors@.len() == 0,
            r.pending_move_op is None,
            r.floating_window_hwnds@.len() == 0,
            r.workspace_layer is Tiling,
    {
        WindowManagerInfo {
            is_paused: false,
            focused_monitor_idx: 0,
            monitors: Vec::new(),
            pending_move_op: None,
            floating_window_hwnds: Vec::new(),
            workspace_layer: WorkspaceLayer::Tiling,
        }
    }
}

/// Whether some border in `s` has the id `id`.
pub open spec fn has_border_id(s: Seq<Border>, id: Seq<char>) -> bool {
    exists|i: int| 0 <= i < s.len() && s[i].id@ == id
}

/// Border ids are pairwise distinct.
pub open spec fn border_ids_unique(s: Seq<Border>) -> bool {
    forall|i: int, j: int| #![trigger s[i].id, s[j].id] 0 <= i < j < s.len() ==> s[i].id@ != s[j].id@
}

/// Whether `b` occurs, with exactly this value, among the borders `s`.
pub open spec fn in_borders(b: Border, s: Seq<Border>) -> bool {
    exists|k: int| 0 <= k < s.len() && #[trigger] s[k] == b
}

/// Whether the reverse index holds the pair `(h, id)`.
pub open spec fn ix_has(s: Seq<(isize, String)>, h: isize, id: Seq<char>) -> bool {
    exists|i: int| 0 <= i < s.len() && s[i].0 == h && (#[trigger] s[i].1)@ == id
}

/// Whether the reverse index has an entry for the window `h`.
pub open spec fn ix_has_key(s: Seq<(isize, String)>, h: isize) -> bool {
    exists|i: int| 0 <= i < s.len() && (#[trigger] s[i]).0 == h
}

/// Reverse-index keys are pairwise distinct.
pub open spec fn ix_keys_unique(s: Seq<(isize, String)>) -> bool {
    forall|i: int, j: int| #![trigger s[i].0, s[j].0] 0 <= i < j < s.len() ==> s[i].0 != s[j].0
}

/// Some border in `bs` has the id `id` and tracks the window `h`.
pub open spec fn entry_consistent(bs: Seq<Border>, h: isize, id: Seq<char>) -> bool {
    exists|j: int| 0 <= j < bs.len() && (#[trigger] bs[j]).id@ == id && bs[j].tracking_hwnd == h
}

/// Every reverse-index entry references an existing border whose tracking
/// handle equals the entry's key.
pub open spec fn index_consistent(bs: Seq<Border>, ix: Seq<(isize, String)>) -> bool {
    forall|i: int|
        0 <= i < ix.len() ==> entry_consistent(bs, (#[trigger] ix[i]).0, ix[i].1@)
}

/// Responsible for all border related logic and control.
#[derive(Debug)]
pub struct BorderManager {
    pub enabled: bool,
    /// The border entities, keyed by their id; ids are unique.
    pub borders: Vec<Border>,
    /// Reverse index: tracked window handle to border id.
    pub windows_borders: Vec<(isize, String)>,
    /// The focus hint of the previous pass.
    pub tracking_hwnd: Option<isize>,
    /// The snapshot absorbed by the previous pass.
    pub wm_info: WindowManagerInfo,
    pub border_width: i32,
    pub border_offset: i32,
    pub border_style: BorderStyle,
    pub border_implementation: BorderImplementation,
    pub kind_colours: WindowKindColours,
}

impl BorderManager {
    /// Well-formedness: unique border ids, unique index keys, and a reverse
    /// index whose every entry points at an existing border that tracks the
    /// entry's window.
    pub open spec fn wf(&self) -> bool {
        &&& border_ids_unique(self.borders@)
        &&& ix_keys_unique(self.windows_borders@)
        &&& index_consistent(self.borders@, self.windows_borders@)
    }

    /// A fresh manager with no borders.
    pub fn new() -> (r: BorderManager)
        ensures
            r.wf(),
            r.enabled == false,
            r.borders@.len() == 0,
            r.windows_borders@.len() == 0,
            r.tracking_hwnd is None,
            r.border_implementation is Komorebi,
    {
        BorderManager {
            enabled: false,
            borders: Vec::new(),
            windows_borders: Vec::new(),
            tracking_hwnd: None,
            wm_info: WindowManagerInfo::empty(),
            border_width: 8,
            border_offset: -1,
            border_style: BorderStyle::System,
            border_implementation: BorderImplementation::Komorebi,
            kind_colours: WindowKindColours::default(),
        }
    }

    /// Index of the border with the given id, if any.
    fn find_border_idx(&self, id: &String) -> (r: Option<usize>)
        ensures
            match r {
                Some(i) => 0 <= i < self.borders@.len() && self.borders@[i as int].id@ == id@,
                None => !has_border_id(self.borders@, id@),
            },
    {
        let mut i: usize = 0;
        while i < self.borders.len()
            invariant
                0 <= i <= self.borders@.len(),
                forall|j: int| 0 <= j < i ==> (#[trigger] self.borders@[j]).id@ != id@,
            decreases self.borders@.len() - i,
        {
            if self.borders[i].id == *id {
                return Some(i);
            }
            i = i + 1;
        }
        None
    }

    /// Index of the reverse-index entry for the given window, if any.
    fn ix_find(&self, h: isize) -> (r: Option<usize>)
        ensures
            match r {
                Some(i) => 0 <= i < self.windows_borders@.len() && self.windows_borders@[i as int].0
                    == h,
                None => !ix_has_key(self.windows_borders@, h),
            },
    {
        let mut i: usize = 0;
        while i < self.windows_borders.len()
            invariant
                0 <= i <= self.windows_borders@.len(),
                forall|j: int| 0 <= j < i ==> (#[trigger] self.windows_borders@[j]).0 != h,
            decreases self.windows_borders@.len() - i,
        {
            if self.windows_borders[i].0 == h {
                return Some(i);
            }
            i = i + 1;
        }
        None
    }

    /// Removes the reverse-index entry for `h`, if present.
    fn ix_remove_key(&mut self, h: isize)
        requires
            ix_keys_unique(old(self).windows_borders@),
        ensures
            final(self).borders == old(self).borders,
            final(self).enabled == old(self).enabled,
            final(self).tracking_hwnd == old(self).tracking_hwnd,
            final(self).wm_info == old(self).wm_info,
            final(self).border_width == old(self).border_width,
            final(self).border_offset == old(self).border_offset,
            final(self).border_style == old(self).border_style,
            final(self).border_implementation == old(self).border_implementation,
            final(self).kind_colours == old(self).kind_colours,
            ix_keys_unique(final(self).windows_borders@),
            !ix_has_key(final(self).windows_borders@, h),
            forall|h2: isize, id2: Seq<char>|
                ix_has(final(self).windows_borders@, h2, id2) <==> (ix_has(
                    old(self).windows_borders@,
                    h2,
                    id2,
                ) && h2 != h),
    {
        let r = self.ix_find(h);
        match r {
            Some(i) => {
                let ghost pre = self.windows_borders@;
                self.windows_borders.remove(i);
                proof {
                    let post = self.windows_borders@;
                    assert forall|h2: isize, id2: Seq<char>|
                        ix_has(post, h2, id2) implies (ix_has(pre, h2, id2) && h2 != h) by {
                        let k = choose|k: int|
                            0 <= k < post.len() && post[k].0 == h2 && (#[trigger] post[k].1)@
                                == id2;
                        if k < i {
                            assert(pre[k].0 == h2 && pre[k].1@ == id2);
                        } else {
                            assert(pre[k + 1].0 == h2 && pre[k + 1].1@ == id2);
                        }
                    }
                    assert forall|h2: isize, id2: Seq<char>|
                        ix_has(pre, h2, id2) && h2 != h implies ix_has(post, h2, id2) by {
                        let k = choose|k: int|
                            0 <= k < pre.len() && pre[k].0 == h2 && (#[trigger] pre[k].1)@ == id2;
                        if k < i {
                            assert(post[k].0 == h2 && post[k].1@ == id2);
                        } else {
                            assert(post[k - 1].0 == h2 && post[k - 1].1@ == id2);
                        }
                    }
                    assert forall|k: int| 0 <= k < post.len() implies (#[trigger] post[k]).0
                        != h by {
                        if k < i {
                            assert(post[k] == pre[k]);
                        } else {
                            assert(post[k] == pre[k + 1]);
                        }
                    }
                }
            },
            None => {
                proof {
                    assert forall|h2: isize, id2: Seq<char>|
                        ix_has(self.windows_borders@, h2, id2) implies h2 != h by {
                        let k = choose|k: int|
                            0 <= k < self.windows_borders@.len() && self.windows_borders@[k].0 == h2
                                && (#[trigger] self.windows_borders@[k].1)@ == id2;
                        assert(self.windows_borders@[k].0 == h2);
                    }
                }
            },
        }
    }

    /// Points the reverse index for `h` at the border `id`, replacing any
    /// previous entry for `h`.
    fn ix_insert(&mut self, h: isize, id: String)
        requires
            ix_keys_unique(old(self).windows_borders@),
        ensures
            final(self).borders == old(self).borders,
            final(self).enabled == old(self).enabled,
            final(self).tracking_hwnd == old(self).tracking_hwnd,
            final(self).wm_info == old(self).wm_info,
            final(self).border_width == old(self).border_width,
            final(self).border_offset == old(self).border_offset,
            final(self).border_style == old(self).border_style,
            final(self).border_implementation == old(self).border_implementation,
            final(self).kind_colours == old(self).kind_colours,
            ix_keys_unique(final(self).windows_borders@),
            forall|h2: isize, id2: Seq<char>|
                ix_has(final(self).windows_borders@, h2, id2) <==> ((h2 == h && id2 == id@) || (ix_has(
                    old(self).windows_borders@,
                    h2,
                    id2,
                ) && h2 != h)),
    {
        self.ix_remove_key(h);
        let ghost pre = self.windows_borders@;
        self.windows_borders.push((h, id));
        proof {
            let post = self.windows_borders@;
            assert(post[post.len() - 1].0 == h);
            assert(post[post.len() - 1].1@ == id@);
            assert(ix_has(post, h, id@));
            assert forall|h2: isize, id2: Seq<char>|
                ix_has(post, h2, id2) implies ((h2 == h && id2 == id@) || (
            ix_has(pre, h2, id2) && h2 != h)) by {
                let k = choose|k: int|
                    0 <= k < post.len() && post[k].0 == h2 && (#[trigger] post[k].1)@ == id2;
                if k < post.len() - 1 {
                    assert(pre[k].0 == h2 && pre[k].1@ == id2);
                    assert(ix_has(pre, h2, id2));
                }
            }
            assert forall|h2: isize, id2: Seq<char>|
                ix_has(pre, h2, id2) && h2 != h implies ix_has(post, h2, id2) by {
                let k = choose|k: int|
                    0 <= k < pre.len() && pre[k].0 == h2 && (#[trigger] pre[k].1)@ == id2;
                assert(post[k].0 == h2 && post[k].1@ == id2);
            }
            assert forall|i: int, j: int|
                #![trigger post[i].0, post[j].0]
                0 <= i < j < post.len() implies post[i].0 != post[j].0 by {
                if j == post.len() - 1 {
                    assert(!ix_has_key(pre, h));
                    assert(post[i] == pre[i]);
                }
            }
        }
    }

    /// Check if some window with `hwnd` has a border attached to it; if it
    /// does, returns the `BorderInfo` related to its border.
    pub fn window_border(&self, hwnd: isize) -> (r: Option<BorderInfo>)
        requires
            self.wf(),
        ensures
            r is Some <==> ix_has_key(self.windows_borders@, hwnd),
            r matches Some(info) ==> exists|j: int|
                0 <= j < self.borders@.len() && ix_has(
                    self.windows_borders@,
                    hwnd,
                    (#[trigger] self.borders@[j]).id@,
                ) && self.borders@[j].tracking_hwnd == hwnd && info.border_hwnd
                    == self.borders@[j].hwnd && info.window_kind == self.borders@[j].window_kind,
    {
        let e = self.ix_find(hwnd);
        match e {
            Some(i) => {
                let id = &self.windows_borders[i].1;
                let b = self.find_border_idx(id);
                match b {
                    Some(j) => {
                        proof {
                            assert(ix_has(self.windows_borders@, hwnd, self.borders@[j as int].id@));
                            assert(entry_consistent(
                                self.borders@,
                                self.windows_borders@[i as int].0,
                                self.windows_borders@[i as int].1@,
                            ));
                            let k = choose|k: int|
                                0 <= k < self.borders@.len() && (#[trigger] self.borders@[k]).id@
                                    == self.windows_borders@[i as int].1@
                                    && self.borders@[k].tracking_hwnd
                                    == self.windows_borders@[i as int].0;
                            if k != j as int {
                                if k < j as int {
                                    assert(self.borders@[k].id@ != self.borders@[j as int].id@);
                                } else {
                                    assert(self.borders@[j as int].id@ != self.borders@[k].id@);
                                }
                            }
                            assert(self.borders@[j as int].tracking_hwnd == hwnd);
                        }
                        Some(
                            BorderInfo {
                                border_hwnd: self.borders[j].hwnd,
                                window_kind: self.borders[j].window_kind,
                            },
                        )
                    },
                    None => {
                        proof {
                            assert(entry_consistent(
                                self.borders@,
                                self.windows_borders@[i as int].0,
                                self.windows_borders@[i as int].1@,
                            ));
                            let k = choose|k: int|
                                0 <= k < self.borders@.len() && (#[trigger] self.borders@[k]).id@
                                    == self.windows_borders@[i as int].1@
                                    && self.borders@[k].tracking_hwnd
                                    == self.windows_borders@[i as int].0;
                            assert(has_border_id(self.borders@, id@));
                        }
                        None
                    },
                }
            },
            None => None,
        }
    }
}


/// Whether `id` occurs among the given id strings.
pub open spec fn id_in_strings(ids: Seq<String>, id: Seq<char>) -> bool {
    exists|k: int| 0 <= k < ids.len() && (#[trigger] ids[k])@ == id
}

/// Which borders of one monitor a removal pass selects.
#[derive(Debug, Clone, Copy)]
pub enum RemoveScope {
    /// Every border of the monitor.
    All,
    /// Every border of the monitor except the one with this overlay handle.
    ExceptHwnd(isize),
    /// Every border of the monitor whose id is not in the given id list.
    NotInIds,
}

pub open spec fn scope_matches(scope: RemoveScope, ids: Seq<String>, b: Border) -> bool {
    match scope {
        RemoveScope::All => true,
        RemoveScope::ExceptHwnd(h) => b.hwnd != h,
        RemoveScope::NotInIds => !id_in_strings(ids, b.id@),
    }
}

/// A border is removed by a removal pass over monitor `m` when it belongs to
/// `m`, the scope selects it, and its overlay window is visible: hidden
/// borders are intentionally left alone, they stand for temporarily hidden
/// managed windows.
pub open spec fn border_removable(
    scope: RemoveScope,
    ids: Seq<String>,
    m: int,
    env: NativeEnv,
    b: Border,
) -> bool {
    &&& b.monitor_idx matches Some(mi) && mi == m
    &&& scope_matches(scope, ids, b)
    &&& env.spec_visible(b.hwnd)
}

fn contains_id(ids: &Vec<String>, id: &String) -> (r: bool)
    ensures
        r == id_in_strings(ids@, id@),
{
    let mut i: usize = 0;
    while i < ids.len()
        invariant
            0 <= i <= ids@.len(),
            forall|j: int| 0 <= j < i ==> (#[trigger] ids@[j])@ != id@,
        decreases ids@.len() - i,
    {
        if ids[i] == *id {
            return true;
        }
        i = i + 1;
    }
    false
}

impl BorderManager {
    /// Removes the border with `id` and all its related info from all maps;
    /// its overlay window is destroyed.
    pub fn remove_border(&mut self, id: &String, ops: &mut Vec<NativeOp>)
        requires
            old(self).wf(),
        ensures
            final(self).wf(),
            forall|x: Seq<char>|
                has_border_id(final(self).borders@, x) <==> (has_border_id(
                    old(self).borders@,
                    x,
                ) && x != id@),
            forall|j: int|
                0 <= j < final(self).borders@.len() ==> in_borders(
                    #[trigger] final(self).borders@[j],
                    old(self).borders@,
                ),
            forall|h2: isize, id2: Seq<char>|
                ix_has(final(self).windows_borders@, h2, id2) ==> ix_has(
                    old(self).windows_borders@,
                    h2,
                    id2,
                ),
            final(self).borders@.len() == old(self).borders@.len() - (
            if has_border_id(old(self).borders@, id@) {
                1int
            } else {
                0int
            }),
            has_border_id(old(self).borders@, id@) ==> exists|k: int|
                0 <= k < old(self).borders@.len() && (#[trigger] old(self).borders@[k]).id@ == id@
                    && final(ops)@ == old(ops)@.push(
                    NativeOp::DestroyBorder { border_hwnd: old(self).borders@[k].hwnd },
                ),
            !has_border_id(old(self).borders@, id@) ==> final(ops)@ == old(ops)@ && final(self).borders@ == old(self).borders@ && final(self).windows_borders@ == old(self).windows_borders@,
            final(self).enabled == old(self).enabled,
            final(self).tracking_hwnd == old(self).tracking_hwnd,
            final(self).wm_info == old(self).wm_info,
            final(self).border_width == old(self).border_width,
            final(self).border_offset == old(self).border_offset,
            final(self).border_style == old(self).border_style,
            final(self).border_implementation == old(self).border_implementation,
            final(self).kind_colours == old(self).kind_colours,
    {
        let r = self.find_border_idx(id);
        match r {
            Some(i) => {
                let ghost bs0 = self.borders@;
                let ghost ix0 = self.windows_borders@;
                let b = self.borders.remove(i);
                let ghost bs1 = self.borders@;
                proof {
                    assert(bs1 =~= bs0.remove(i as int));
                    assert forall|p: int, q: int|
                        #![trigger bs1[p].id, bs1[q].id]
                        0 <= p < q < bs1.len() implies bs1[p].id@ != bs1[q].id@ by {
                        let p0: int = if p < i { p } else { p + 1 };
                        let q0: int = if q < i { q } else { q + 1 };
                        assert(bs1[p] == bs0[p0] && bs1[q] == bs0[q0]);
                    }
                    assert forall|j: int| 0 <= j < bs1.len() implies in_borders(
                        #[trigger] bs1[j],
                        bs0,
                    ) by {
                        let k0: int = if j < i { j } else { j + 1 };
                        assert(bs0[k0] == bs1[j]);
                    }
                    assert forall|x: Seq<char>|
                        has_border_id(bs0, x) && x != id@ implies has_border_id(bs1, x) by {
                        let k = choose|k: int| 0 <= k < bs0.len() && (#[trigger] bs0[k]).id@ == x;
                        let j: int = if k < i { k } else { k - 1 };
                        assert(bs1[j] == bs0[k]);
                    }
                }
                self.ix_remove_key(b.tracking_hwnd);
                proof {
                    let ixn = self.windows_borders@;
                    assert forall|e: int| 0 <= e < ixn.len() implies entry_consistent(
                        bs1,
                        (#[trigger] ixn[e]).0,
                        ixn[e].1@,
                    ) by {
                        let h2 = ixn[e].0;
                        let id2 = ixn[e].1@;
                        assert(ix_has(ixn, h2, id2));
                        assert(ix_has(ix0, h2, id2) && h2 != b.tracking_hwnd);
                        let e0 = choose|e0: int|
                            0 <= e0 < ix0.len() && ix0[e0].0 == h2 && (#[trigger] ix0[e0].1)@
                                == id2;
                        assert(entry_consistent(bs0, ix0[e0].0, ix0[e0].1@));
                        let k = choose|k: int|
                            0 <= k < bs0.len() && (#[trigger] bs0[k]).id@ == ix0[e0].1@
                                && bs0[k].tracking_hwnd == ix0[e0].0;
                        assert(k != i);
                        let j: int = if k < i { k } else { k - 1 };
                        assert(bs1[j] == bs0[k]);
                        assert(bs1[j].id@ == id2);
                        assert(bs1[j].tracking_hwnd == h2);
                    }
                    assert(index_consistent(bs1, ixn));
                }
                ops.push(NativeOp::DestroyBorder { border_hwnd: b.hwnd });
                proof {
                    assert(has_border_id(bs0, id@));
                    assert(bs0[i as int].id@ == id@);
                    assert forall|x: Seq<char>|
                        has_border_id(final(self).borders@, x) implies (has_border_id(bs0, x) && x
                            != id@) by {
                        let j = choose|j: int|
                            0 <= j < bs1.len() && (#[trigger] bs1[j]).id@ == x;
                        let k0: int = if j < i { j } else { j + 1 };
                        assert(bs1[j] == bs0[k0]);
                        assert(k0 != i);
                        assert(border_ids_unique(bs0));
                        if k0 < i {
                            assert(bs0[k0].id@ != bs0[i as int].id@);
                        } else {
                            assert(bs0[i as int].id@ != bs0[k0].id@);
                        }
                    }
                }
            },
            None => {
                proof {
                    assert forall|j: int| 0 <= j < self.borders@.len() implies in_borders(
                        #[trigger] self.borders@[j],
                        old(self).borders@,
                    ) by {
                        assert(old(self).borders@[j] == self.borders@[j]);
                    }
                }
            },
        }
    }

    /// Index of the first border the removal pass selects, if any.
    fn find_removable(
        &self,
        monitor_idx: usize,
        scope: RemoveScope,
        ids: &Vec<String>,
        env: &NativeEnv,
    ) -> (r: Option<usize>)
        ensures
            match r {
                Some(i) => 0 <= i < self.borders@.len() && border_removable(
                    scope,
                    ids@,
                    monitor_idx as int,
                    *env,
                    self.borders@[i as int],
                ),
                None => forall|j: int|
                    0 <= j < self.borders@.len() ==> !border_removable(
                        scope,
                        ids@,
                        monitor_idx as int,
                        *env,
                        #[trigger] self.borders@[j],
                    ),
            },
    {
        let mut i: usize = 0;
        while i < self.borders.len()
            invariant
                0 <= i <= self.borders@.len(),
                forall|j: int|
                    0 <= j < i ==> !border_removable(
                        scope,
                        ids@,
                        monitor_idx as int,
                        *env,
                        #[trigger] self.borders@[j],
                    ),
            decreases self.borders@.len() - i,
        {
            let b = &self.borders[i];
            let on_monitor = match b.monitor_idx {
                Some(mi) => mi == monitor_idx,
                None => false,
            };
            if on_monitor {
                let in_scope = match scope {
                    RemoveScope::All => true,
                    RemoveScope::ExceptHwnd(h) => b.hwnd != h,
                    RemoveScope::NotInIds => !contains_id(ids, &b.id),
                };
                if in_scope && env.is_visible(b.hwnd) {
                    return Some(i);
                }
            }
            i = i + 1;
        }
        None
    }

    /// Removes all borders of monitor `monitor_idx` that the scope selects
    /// and whose overlay windows are visible; hidden borders are left alone.
    pub fn remove_borders(
        &mut self,
        monitor_idx: usize,
        scope: RemoveScope,
        ids: &Vec<String>,
        env: &NativeEnv,
        ops: &mut Vec<NativeOp>,
    )
        requires
            old(self).wf(),
        ensures
            final(self).wf(),
            forall|x: Seq<char>|
                has_border_id(final(self).borders@, x) <==> exists|k: int|
                    0 <= k < old(self).borders@.len() && (#[trigger] old(self).borders@[k]).id@
                        == x && !border_removable(
                        scope,
                        ids@,
                        monitor_idx as int,
                        *env,
                        old(self).borders@[k],
                    ),
            forall|j: int|
                0 <= j < final(self).borders@.len() ==> in_borders(
                    #[trigger] final(self).borders@[j],
                    old(self).borders@,
                ),
            forall|h2: isize, id2: Seq<char>|
                ix_has(final(self).windows_borders@, h2, id2) ==> ix_has(
                    old(self).windows_borders@,
                    h2,
                    id2,
                ),
            old(ops)@.len() <= final(ops)@.len(),
            final(ops)@.subrange(0, old(ops)@.len() as int) == old(ops)@,
            forall|k: int|
                old(ops)@.len() <= k < final(ops)@.len() ==> (#[trigger] final(ops)@[k]) is DestroyBorder,
            (forall|k: int|
                0 <= k < old(self).borders@.len() ==> !border_removable(
                    scope,
                    ids@,
                    monitor_idx as int,
                    *env,
                    #[trigger] old(self).borders@[k],
                )) ==> final(ops)@ == old(ops)@ && final(self).borders@ == old(self).borders@
                && final(self).windows_borders@ == old(self).windows_borders@,
            final(self).enabled == old(self).enabled,
            final(self).tracking_hwnd == old(self).tracking_hwnd,
            final(self).wm_info == old(self).wm_info,
            final(self).border_width == old(self).border_width,
            final(self).border_offset == old(self).border_offset,
            final(self).border_style == old(self).border_style,
            final(self).border_implementation == old(self).border_implementation,
            final(self).kind_colours == old(self).kind_colours,
    {
        let ghost bs0 = old(self).borders@;
        let ghost ops0 = old(ops)@;
        loop
            invariant
                self.wf(),
                forall|j: int|
                    0 <= j < self.borders@.len() ==> in_borders(#[trigger] self.borders@[j], bs0),
                forall|k: int|
                    0 <= k < bs0.len() && !border_removable(
                        scope,
                        ids@,
                        monitor_idx as int,
                        *env,
                        #[trigger] bs0[k],
                    ) ==> has_border_id(self.borders@, bs0[k].id@),
                forall|h2: isize, id2: Seq<char>|
                    ix_has(self.windows_borders@, h2, id2) ==> ix_has(
                        old(self).windows_borders@,
                        h2,
                        id2,
                    ),
                border_ids_unique(bs0),
                ops0.len() <= ops@.len(),
                ops@.subrange(0, ops0.len() as int) == ops0,
                forall|k: int| ops0.len() <= k < ops@.len() ==> (#[trigger] ops@[k]) is DestroyBorder,
                (forall|k: int|
                    0 <= k < bs0.len() ==> !border_removable(
                        scope,
                        ids@,
                        monitor_idx as int,
                        *env,
                        #[trigger] bs0[k],
                    )) ==> ops@ == ops0 && self.borders@ == bs0 && self.windows_borders@ == old(
                    self,
                ).windows_borders@,
                self.enabled == old(self).enabled,
                self.tracking_hwnd == old(self).tracking_hwnd,
                self.wm_info == old(self).wm_info,
                self.border_width == old(self).border_width,
                self.border_offset == old(self).border_offset,
                self.border_style == old(self).border_style,
                self.border_implementation == old(self).border_implementation,
                self.kind_colours == old(self).kind_colours,
            ensures
                forall|j: int|
                    0 <= j < self.borders@.len() ==> !border_removable(
                        scope,
                        ids@,
                        monitor_idx as int,
                        *env,
                        #[trigger] self.borders@[j],
                    ),
            decreases self.borders@.len(),
        {
            let r = self.find_removable(monitor_idx, scope, ids, env);
            match r {
                None => {
                    break ;
                },
                Some(i) => {
                    let idstr = self.borders[i].id.clone();
                    proof {
                        assert(has_border_id(self.borders@, idstr@));
                        assert(in_borders(self.borders@[i as int], bs0));
                        let kx = choose|kx: int|
                            0 <= kx < bs0.len() && #[trigger] bs0[kx] == self.borders@[i as int];
                        assert(border_removable(scope, ids@, monitor_idx as int, *env, bs0[kx]));
                    }
                    let ghost pre = self.borders@;
                    self.remove_border(&idstr, ops);
                    proof {
                        assert(pre[i as int].id@ == idstr@);
                        assert forall|k: int|
                            0 <= k < bs0.len() && !border_removable(
                                scope,
                                ids@,
                                monitor_idx as int,
                                *env,
                                #[trigger] bs0[k],
                            ) implies has_border_id(self.borders@, bs0[k].id@) by {
                            if bs0[k].id@ == idstr@ {
                                assert(in_borders(pre[i as int], bs0));
                                let k2 = choose|k2: int|
                                    0 <= k2 < bs0.len() && #[trigger] bs0[k2] == pre[i as int];
                                assert(bs0[k2].id@ == idstr@);
                                assert(k2 == k);
                                assert(border_removable(
                                    scope,
                                    ids@,
                                    monitor_idx as int,
                                    *env,
                                    pre[i as int],
                                ));
                            }
                        }
                    }
                },
            }
        }
        proof {
            assert forall|x: Seq<char>|
                has_border_id(self.borders@, x) implies exists|k: int|
                0 <= k < bs0.len() && (#[trigger] bs0[k]).id@ == x && !border_removable(
                    scope,
                    ids@,
                    monitor_idx as int,
                    *env,
                    bs0[k],
                ) by {
                let j = choose|j: int| 0 <= j < self.borders@.len() && (#[trigger] self.borders@[j]).id@ == x;
                assert(in_borders(self.borders@[j], bs0));
                let k = choose|k: int| 0 <= k < bs0.len() && #[trigger] bs0[k] == self.borders@[j];
                assert(!border_removable(scope, ids@, monitor_idx as int, *env, bs0[k]));
            }
        }
    }

    /// Destroys every border this manager knows, emptying the border map
    /// and the reverse index.
    pub fn sweep_borders(&mut self, ops: &mut Vec<NativeOp>)
        requires
            old(self).wf(),
        ensures
            final(self).wf(),
            final(self).borders@.len() == 0,
            final(self).windows_borders@.len() == 0,
            final(ops)@.len() == old(ops)@.len() + old(self).borders@.len(),
            final(ops)@.subrange(0, old(ops)@.len() as int) == old(ops)@,
            forall|k: int|
                0 <= k < old(self).borders@.len() ==> final(ops)@[old(ops)@.len() + k]
                    == (NativeOp::DestroyBorder {
                    border_hwnd: (#[trigger] old(self).borders@[k]).hwnd,
                }),
            final(self).enabled == old(self).enabled,
            final(self).tracking_hwnd == old(self).tracking_hwnd,
            final(self).wm_info == old(self).wm_info,
            final(self).border_width == old(self).border_width,
            final(self).border_offset == old(self).border_offset,
            final(self).border_style == old(self).border_style,
            final(self).border_implementation == old(self).border_implementation,
            final(self).kind_colours == old(self).kind_colours,
    {
        let ghost bs0 = self.borders@;
        let ghost ops0 = ops@;
        let mut i: usize = 0;
        while i < self.borders.len()
            invariant
                0 <= i <= bs0.len(),
                self.borders@ == bs0,
                ops@.len() == ops0.len() + i,
                ops@.subrange(0, ops0.len() as int) == ops0,
                forall|k: int|
                    0 <= k < i ==> ops@[ops0.len() + k] == (NativeOp::DestroyBorder {
                        border_hwnd: (#[trigger] bs0[k]).hwnd,
                    }),
            decreases bs0.len() - i,
        {
            let h = self.borders[i].hwnd;
            ops.push(NativeOp::DestroyBorder { border_hwnd: h });
            proof {
                assert(ops@.subrange(0, ops0.len() as int) =~= ops0);
            }
            i = i + 1;
        }
        self.borders = Vec::new();
        self.windows_borders = Vec::new();
    }

    /// Destroys all known borders and requests a purge of any unknown
    /// overlay windows left behind by an earlier run.
    pub fn destroy_all_borders(&mut self, ops: &mut Vec<NativeOp>)
        requires
            old(self).wf(),
        ensures
            final(self).wf(),
            final(self).borders@.len() == 0,
            final(self).windows_borders@.len() == 0,
            final(ops)@.len() == old(ops)@.len() + old(self).borders@.len() + 1,
            final(ops)@.subrange(0, old(ops)@.len() as int) == old(ops)@,
            forall|k: int|
                0 <= k < old(self).borders@.len() ==> final(ops)@[old(ops)@.len() + k]
                    == (NativeOp::DestroyBorder {
                    border_hwnd: (#[trigger] old(self).borders@[k]).hwnd,
                }),
            final(ops)@[final(ops)@.len() - 1] is PurgeUnknownBorders,
    {
        let ghost ops0 = ops@;
        self.sweep_borders(ops);
        ops.push(NativeOp::PurgeUnknownBorders);
        proof {
            assert(ops@.subrange(0, ops0.len() as int) =~= ops0);
        }
    }
}


/// The decimal digit character for `d`.
pub open spec fn dec_digit(d: int) -> char {
    if d == 0 {
        '0'
    } else if d == 1 {
        '1'
    } else if d == 2 {
        '2'
    } else if d == 3 {
        '3'
    } else if d == 4 {
        '4'
    } else if d == 5 {
        '5'
    } else if d == 6 {
        '6'
    } else if d == 7 {
        '7'
    } else if d == 8 {
        '8'
    } else {
        '9'
    }
}

/// The decimal digits of a non-negative number, most significant first.
pub open spec fn dec_nat(n: int) -> Seq<char>
    decreases n,
{
    if n < 10 {
        seq![dec_digit(n)]
    } else {
        dec_nat(n / 10).push(dec_digit(n % 10))
    }
}

/// The decimal form of a handle, with a leading minus sign when negative:
/// the stable border key of a floating window.
pub open spec fn dec_isize(h: isize) -> Seq<char> {
    if h < 0 {
        seq!['-'] + dec_nat(-(h as int))
    } else {
        dec_nat(h as int)
    }
}

fn digit_str(d: u128) -> (r: &'static str)
    requires
        d < 10,
    ensures
        r@ == seq![dec_digit(d as int)],
{
    proof {
        reveal_strlit("0");
        reveal_strlit("1");
        reveal_strlit("2");
        reveal_strlit("3");
        reveal_strlit("4");
        reveal_strlit("5");
        reveal_strlit("6");
        reveal_strlit("7");
        reveal_strlit("8");
        reveal_strlit("9");
    }
    if d == 0 {
        proof {
            assert("0"@ =~= seq![dec_digit(0)]);
        }
        "0"
    } else if d == 1 {
        proof {
            assert("1"@ =~= seq![dec_digit(1)]);
        }
        "1"
    } else if d == 2 {
        proof {
            assert("2"@ =~= seq![dec_digit(2)]);
        }
        "2"
    } else if d == 3 {
        proof {
            assert("3"@ =~= seq![dec_digit(3)]);
        }
        "3"
    } else if d == 4 {
        proof {
            assert("4"@ =~= seq![dec_digit(4)]);
        }
        "4"
    } else if d == 5 {
        proof {
            assert("5"@ =~= seq![dec_digit(5)]);
        }
        "5"
    } else if d == 6 {
        proof {
            assert("6"@ =~= seq![dec_digit(6)]);
        }
        "6"
    } else if d == 7 {
        proof {
            assert("7"@ =~= seq![dec_digit(7)]);
        }
        "7"
    } else if d == 8 {
        proof {
            assert("8"@ =~= seq![dec_digit(8)]);
        }
        "8"
    } else {
        proof {
            assert("9"@ =~= seq![dec_digit(9)]);
        }
        "9"
    }
}

fn format_u128(n: u128) -> (r: String)
    ensures
        r@ == dec_nat(n as int),
    decreases n,
{
    if n < 10 {
        let s = String::from_str(digit_str(n));
        s
    } else {
        let mut s = format_u128(n / 10);
        s.append(digit_str(n % 10));
        proof {
            assert(dec_nat(n as int / 10).push(dec_digit(n as int % 10)) =~= dec_nat(
                n as int / 10,
            ) + seq![dec_digit(n as int % 10)]);
        }
        s
    }
}

/// The stable border key of the window with handle `h`: its decimal form.
pub fn hwnd_key(h: isize) -> (r: String)
    ensures
        r@ == dec_isize(h),
{
    if h < 0 {
        let mag: u128 = (-(h as i128)) as u128;
        let mut s = String::from_str("-");
        proof {
            reveal_strlit("-");
            assert("-"@ =~= seq!['-']);
        }
        let digits = format_u128(mag);
        s.append(digits.as_str());
        s
    } else {
        format_u128(h as u128)
    }
}

/// The focus classification of one container's border.
///
/// A container that is not the focused container on the focused monitor, or
/// whose focused window is not the OS foreground window, is unfocused
/// (locked containers keep a distinct unfocused kind); the focused container
/// is a stack when it holds more than one window, else single.
pub open spec fn spec_container_kind(
    container_idx: int,
    focused_container_idx: int,
    monitor_idx: int,
    focused_monitor_idx: int,
    focused_window_hwnd: isize,
    foreground_window: isize,
    window_count: int,
    locked: bool,
) -> WindowKind {
    if container_idx != focused_container_idx || monitor_idx != focused_monitor_idx
        || focused_window_hwnd != foreground_window {
        if locked {
            WindowKind::UnfocusedLocked
        } else {
            WindowKind::Unfocused
        }
    } else if window_count > 1 {
        WindowKind::Stack
    } else {
        WindowKind::Single
    }
}

/// Classifies one container's border kind; the executable form of
/// `spec_container_kind`.
pub fn classify_container_kind(
    container_idx: usize,
    focused_container_idx: usize,
    monitor_idx: usize,
    focused_monitor_idx: usize,
    focused_window_hwnd: isize,
    foreground_window: isize,
    window_count: usize,
    locked: bool,
) -> (k: WindowKind)
    ensures
        k == spec_container_kind(
            container_idx as int,
            focused_container_idx as int,
            monitor_idx as int,
            focused_monitor_idx as int,
            focused_window_hwnd,
            foreground_window,
            window_count as int,
            locked,
        ),
{
    if container_idx != focused_container_idx || monitor_idx != focused_monitor_idx
        || focused_window_hwnd != foreground_window {
        if locked {
            WindowKind::UnfocusedLocked
        } else {
            WindowKind::Unfocused
        }
    } else if window_count > 1 {
        WindowKind::Stack
    } else {
        WindowKind::Single
    }
}

/// The kind of a monocle border: monocle on the focused monitor, unfocused
/// elsewhere.
pub open spec fn spec_monocle_kind(monitor_idx: int, focused_monitor_idx: int) -> WindowKind {
    if monitor_idx != focused_monitor_idx {
        WindowKind::Unfocused
    } else {
        WindowKind::Monocle
    }
}

/// The kind of a floating window's border: floating when it is the OS
/// foreground window, unfocused otherwise.
pub open spec fn spec_floating_kind(hwnd: isize, foreground_window: isize) -> WindowKind {
    if hwnd == foreground_window {
        WindowKind::Floating
    } else {
        WindowKind::Unfocused
    }
}

/// The focus hint, with an absent hint standing in as handle zero.
pub open spec fn hint_or_zero(hint: Option<isize>) -> isize {
    match hint {
        Some(h) => h,
        None => 0,
    }
}

impl BorderManager {
    /// Whether the window `h` currently has a border of the given kind.
    pub open spec fn tracked_kind_is(&self, h: isize, kind: WindowKind) -> bool {
        exists|i: int, j: int|
            0 <= i < self.windows_borders@.len() && 0 <= j < self.borders@.len() && (
            #[trigger] self.windows_borders@[i]).0 == h && self.windows_borders@[i].1@ == (
            #[trigger] self.borders@[j]).id@ && self.borders@[j].window_kind == kind
    }

    /// Whether any floating window of the snapshot either is the window the
    /// focus hint points at, or still wears a floating border without being
    /// the foreground window.
    pub open spec fn spec_switch_floating(
        &self,
        info: WindowManagerInfo,
        hint0: isize,
        fg: isize,
    ) -> bool {
        exists|k: int|
            0 <= k < info.floating_window_hwnds@.len() && {
                let fw = #[trigger] info.floating_window_hwnds@[k];
                fw == hint0 || (fw != fg && self.tracked_kind_is(fw, WindowKind::Floating))
            }
    }

    /// The change gate: the conditions under which a reconciliation pass
    /// must run. When none holds, the pass is skipped to keep the steady
    /// state free of native work.
    pub open spec fn spec_gate(
        &self,
        info: WindowManagerInfo,
        hint: Option<isize>,
        fg: isize,
    ) -> bool {
        ||| !(monitors_eq(info.monitors@, self.wm_info.monitors@) && info.pending_move_op
            == self.wm_info.pending_move_op)
        ||| info.is_paused != self.wm_info.is_paused
        ||| self.borders@.len() == 0
        ||| self.tracked_kind_is(hint_or_zero(hint), WindowKind::Unfocused)
        ||| self.spec_switch_floating(info, hint_or_zero(hint), fg)
        ||| (self.tracking_hwnd matches Some(p) && p != hint_or_zero(hint))
    }

    /// Whether the window `h` wears a border of kind `kind` right now.
    fn tracked_kind_check(&self, h: isize, kind: WindowKind) -> (r: bool)
        requires
            self.wf(),
        ensures
            r == self.tracked_kind_is(h, kind),
    {
        let b = self.window_border(h);
        match b {
            Some(info) => {
                proof {
                    if info.window_kind != kind && self.tracked_kind_is(h, kind) {
                        let (i2, j2) = choose|i2: int, j2: int|
                            0 <= i2 < self.windows_borders@.len() && 0 <= j2
                                < self.borders@.len() && (#[trigger] self.windows_borders@[i2]).0
                                == h && self.windows_borders@[i2].1@ == (
                            #[trigger] self.borders@[j2]).id@ && self.borders@[j2].window_kind
                                == kind;
                        let j = choose|j: int|
                            0 <= j < self.borders@.len() && ix_has(
                                self.windows_borders@,
                                h,
                                (#[trigger] self.borders@[j]).id@,
                            ) && self.borders@[j].tracking_hwnd == h && info.border_hwnd
                                == self.borders@[j].hwnd && info.window_kind
                                == self.borders@[j].window_kind;
                        let i = choose|i: int|
                            0 <= i < self.windows_borders@.len() && self.windows_borders@[i].0 == h
                                && (#[trigger] self.windows_borders@[i].1)@
                                == self.borders@[j].id@;
                        if i != i2 {
                            if i < i2 {
                                assert(self.windows_borders@[i].0 != self.windows_borders@[i2].0);
                            } else {
                                assert(self.windows_borders@[i2].0 != self.windows_borders@[i].0);
                            }
                        }
                        if j != j2 {
                            if j < j2 {
                                assert(self.borders@[j].id@ != self.borders@[j2].id@);
                            } else {
                                assert(self.borders@[j2].id@ != self.borders@[j].id@);
                            }
                        }
                    }
                    if info.window_kind == kind {
                        let j = choose|j: int|
                            0 <= j < self.borders@.len() && ix_has(
                                self.windows_borders@,
                                h,
                                (#[trigger] self.borders@[j]).id@,
                            ) && self.borders@[j].tracking_hwnd == h && info.border_hwnd
                                == self.borders@[j].hwnd && info.window_kind
                                == self.borders@[j].window_kind;
                        let i = choose|i: int|
                            0 <= i < self.windows_borders@.len() && self.windows_borders@[i].0 == h
                                && (#[trigger] self.windows_borders@[i].1)@
                                == self.borders@[j].id@;
                        assert(self.tracked_kind_is(h, kind));
                    }
                }
                match (info.window_kind, kind) {
                    (WindowKind::Single, WindowKind::Single) => true,
                    (WindowKind::Stack, WindowKind::Stack) => true,
                    (WindowKind::Monocle, WindowKind::Monocle) => true,
                    (WindowKind::Unfocused, WindowKind::Unfocused) => true,
                    (WindowKind::UnfocusedLocked, WindowKind::UnfocusedLocked) => true,
                    (WindowKind::Floating, WindowKind::Floating) => true,
                    _ => false,
                }
            },
            None => {
                proof {
                    if self.tracked_kind_is(h, kind) {
                        let (i2, j2) = choose|i2: int, j2: int|
                            0 <= i2 < self.windows_borders@.len() && 0 <= j2
                                < self.borders@.len() && (#[trigger] self.windows_borders@[i2]).0
                                == h && self.windows_borders@[i2].1@ == (
                            #[trigger] self.borders@[j2]).id@ && self.borders@[j2].window_kind
                                == kind;
                        assert(ix_has_key(self.windows_borders@, h));
                    }
                }
                false
            },
        }
    }

    /// The executable change gate; the conditions of `spec_gate`, tested in
    /// the order the engine accumulated them.
    fn should_process(&self, info: &WindowManagerInfo, hint: Option<isize>, fg: isize) -> (r:
        bool)
        requires
            self.wf(),
        ensures
            r == self.spec_gate(*info, hint, fg),
    {
        let hint0: isize = match hint {
            Some(h) => h,
            None => 0,
        };
        let mut should: bool = false;
        if !(monitors_vec_eq(&info.monitors, &self.wm_info.monitors) && info.pending_move_op
            == self.wm_info.pending_move_op) {
            should = true;
        }
        if info.is_paused != self.wm_info.is_paused {
            should = true;
        }
        if !should && self.borders.len() == 0 {
            should = true;
        }
        let mut switch_floating: bool = false;
        let mut k: usize = 0;
        while k < info.floating_window_hwnds.len()
            invariant
                0 <= k <= info.floating_window_hwnds@.len(),
                self.wf(),
                switch_floating == exists|k2: int|
                    0 <= k2 < k && {
                        let fw = #[trigger] info.floating_window_hwnds@[k2];
                        fw == hint0 || (fw != fg && self.tracked_kind_is(
                            fw,
                            WindowKind::Floating,
                        ))
                    },
            decreases info.floating_window_hwnds@.len() - k,
        {
            let fw = info.floating_window_hwnds[k];
            if fw == hint0 || (fw != fg && self.tracked_kind_check(fw, WindowKind::Floating)) {
                switch_floating = true;
            }
            k = k + 1;
        }
        if !should && self.tracked_kind_check(hint0, WindowKind::Unfocused) {
            should = true;
        }
        if !should && switch_floating {
            should = true;
        }
        if !should {
            match self.tracking_hwnd {
                Some(p) => {
                    if p != hint0 {
                        should = true;
                    }
                },
                None => {},
            }
        }
        should
    }
}


/// The index of the border with id `id`, where one exists.
pub open spec fn border_idx_of(s: Seq<Border>, id: Seq<char>) -> int {
    choose|k: int| 0 <= k < s.len() && (#[trigger] s[k]).id@ == id
}

/// Like `index_consistent`, but stated over the entry pairs, and tolerating
/// dangling entries for one border (id `xid`, last known tracking `t0`)
/// while that border is being rebuilt.
pub open spec fn consistent_except(
    bs: Seq<Border>,
    ix: Seq<(isize, String)>,
    xid: Seq<char>,
    t0: isize,
) -> bool {
    forall|h: isize, v: Seq<char>|
        ix_has(ix, h, v) ==> entry_consistent(bs, h, v) || (v == xid && h == t0)
}

/// How one border's reconciliation step ended.
#[derive(Debug, Clone, Copy, PartialEq, Eq, Structural)]
pub enum StepOutcome {
    /// The border exists, tracks its window, and is indexed.
    Done,
    /// Reading the tracked window's geometry failed (the window is gone):
    /// the border was dropped, and the pass continues with the next entity.
    RectFailed,
    /// No overlay window could be created: the monitor's remaining work for
    /// this pass is abandoned and retried on the next pass.
    CreateFailed,
}

/// Whether the overlay is repainted by a step: a repaint happens only for a
/// new border, a changed window kind, a changed focus layer, or a monocle
/// border, which is always repainted.
pub open spec fn spec_should_invalidate(
    new_border: bool,
    last_kind: WindowKind,
    kind: WindowKind,
    layer_changed: bool,
    always: bool,
) -> bool {
    always || new_border || last_kind != kind || layer_changed
}

/// The kind the step's repaint decision compares against: the existing
/// border's kind, or the fresh default for a border created this step.
pub open spec fn step_last_kind(bs: Seq<Border>, id: Seq<char>) -> WindowKind {
    if has_border_id(bs, id) {
        bs[border_idx_of(bs, id)].window_kind
    } else {
        WindowKind::Unfocused
    }
}

/// The overlay handle the step works with: the existing border's, or the
/// fresh handle creation will assign.
pub open spec fn step_hwnd(bs: Seq<Border>, id: Seq<char>, env: NativeEnv, cursor0: int) -> isize {
    if has_border_id(bs, id) {
        bs[border_idx_of(bs, id)].hwnd
    } else {
        env.fresh_border_hwnds@[cursor0]
    }
}

/// The tracking handle the step starts from: the existing border's, or the
/// target itself for a border created this step.
pub open spec fn step_tracking0(bs: Seq<Border>, id: Seq<char>, target: isize) -> isize {
    if has_border_id(bs, id) {
        bs[border_idx_of(bs, id)].tracking_hwnd
    } else {
        target
    }
}

/// The operations a step emits before reading geometry: the creation of a
/// new overlay, and the restore of a hidden overlay that was re-pointed at
/// another window.
pub open spec fn spec_step_prefix_ops(
    existing: bool,
    sid: String,
    bhwnd: isize,
    tracking0: isize,
    target: isize,
    monitor_idx: usize,
    repoint_restore: bool,
    visible: bool,
) -> Seq<NativeOp> {
    (if !existing {
        seq![
            NativeOp::CreateBorder {
                id: sid,
                border_hwnd: bhwnd,
                tracking_hwnd: target,
                monitor_idx,
            },
        ]
    } else {
        Seq::<NativeOp>::empty()
    }) + (if tracking0 != target && repoint_restore && !visible {
        seq![NativeOp::RestoreWindow { hwnd: bhwnd }]
    } else {
        Seq::<NativeOp>::empty()
    })
}

/// The operations a successful step emits, in order: the prefix above, then
/// — exactly when `spec_should_invalidate` says so — a reposition and a
/// repaint (a monocle border repaints every pass but is positioned only
/// when new).
pub open spec fn spec_step_done_ops(
    existing: bool,
    sid: String,
    bhwnd: isize,
    tracking0: isize,
    last_kind: WindowKind,
    target: isize,
    kind: WindowKind,
    monitor_idx: usize,
    repoint_restore: bool,
    always: bool,
    layer_changed: bool,
    visible: bool,
    rect: Rect,
) -> Seq<NativeOp> {
    spec_step_prefix_ops(
        existing,
        sid,
        bhwnd,
        tracking0,
        target,
        monitor_idx,
        repoint_restore,
        visible,
    ) + (if always {
        (if !existing {
            seq![
                NativeOp::SetBorderPosition { border_hwnd: bhwnd, rect, tracking_hwnd: target },
            ]
        } else {
            Seq::<NativeOp>::empty()
        }) + seq![NativeOp::InvalidateBorder { border_hwnd: bhwnd }]
    } else if spec_should_invalidate(!existing, last_kind, kind, layer_changed, false) {
        seq![
            NativeOp::SetBorderPosition { border_hwnd: bhwnd, rect, tracking_hwnd: target },
            NativeOp::InvalidateBorder { border_hwnd: bhwnd },
        ]
    } else {
        Seq::<NativeOp>::empty()
    })
}

impl BorderManager {
    /// Gets or creates the border `id`, classifies it as `kind`, re-points
    /// the reverse index at `target_tracking`, refreshes its geometry, and
    /// emits the native operations that follow from what changed.
    fn border_pass_step(
        &mut self,
        id: &String,
        target_tracking: isize,
        kind: WindowKind,
        monitor_idx: usize,
        repoint_restore: bool,
        always_invalidate: bool,
        layer_changed: bool,
        env: &NativeEnv,
        cursor: &mut usize,
        ops: &mut Vec<NativeOp>,
    ) -> (r: StepOutcome)
        requires
            old(self).wf(),
            *old(cursor) <= env.fresh_border_hwnds@.len(),
        ensures
            final(self).wf(),
            *old(cursor) <= *final(cursor) <= env.fresh_border_hwnds@.len(),
            *final(cursor) <= *old(cursor) + 1,
            old(ops)@.len() <= final(ops)@.len(),
            final(ops)@.subrange(0, old(ops)@.len() as int) == old(ops)@,
            r is Done ==> final(ops)@ == old(ops)@ + spec_step_done_ops(
                has_border_id(old(self).borders@, id@),
                *id,
                step_hwnd(old(self).borders@, id@, *env, *old(cursor) as int),
                step_tracking0(old(self).borders@, id@, target_tracking),
                step_last_kind(old(self).borders@, id@),
                target_tracking,
                kind,
                monitor_idx,
                repoint_restore,
                always_invalidate,
                layer_changed,
                env.spec_visible(step_hwnd(old(self).borders@, id@, *env, *old(cursor) as int)),
                rect_lookup(env.window_rects@, target_tracking)->Some_0,
            ),
            r is RectFailed ==> final(ops)@ == old(ops)@ + spec_step_prefix_ops(
                has_border_id(old(self).borders@, id@),
                *id,
                step_hwnd(old(self).borders@, id@, *env, *old(cursor) as int),
                step_tracking0(old(self).borders@, id@, target_tracking),
                target_tracking,
                monitor_idx,
                repoint_restore,
                env.spec_visible(step_hwnd(old(self).borders@, id@, *env, *old(cursor) as int)),
            ) + seq![
                NativeOp::DestroyBorder {
                    border_hwnd: step_hwnd(old(self).borders@, id@, *env, *old(cursor) as int),
                },
            ],
            r is CreateFailed <==> (!has_border_id(old(self).borders@, id@) && *old(cursor)
                >= env.fresh_border_hwnds@.len()),
            r is CreateFailed ==> *final(self) == *old(self) && final(ops)@ == old(ops)@
                && *final(cursor) == *old(cursor),
            r is RectFailed <==> (!(r is CreateFailed) && rect_lookup(
                env.window_rects@,
                target_tracking,
            ) is None),
            r is RectFailed ==> (forall|x: Seq<char>|
                has_border_id(final(self).borders@, x) <==> (has_border_id(
                    old(self).borders@,
                    x,
                ) && x != id@)),
            r is Done ==> (forall|x: Seq<char>|
                has_border_id(final(self).borders@, x) <==> (has_border_id(
                    old(self).borders@,
                    x,
                ) || x == id@)),
            r is Done ==> final(self).borders@.len() >= 1 && {
                let b = final(self).borders@.last();
                &&& b.id@ == id@
                &&& b.tracking_hwnd == target_tracking
                &&& b.window_kind == kind
                &&& b.monitor_idx == Some(monitor_idx)
                &&& rect_lookup(env.window_rects@, target_tracking) == Some(b.window_rect)
                &&& (has_border_id(old(self).borders@, id@) ==> b.hwnd == old(self).borders@[
                    border_idx_of(old(self).borders@, id@)
                ].hwnd)
                &&& (!has_border_id(old(self).borders@, id@) ==> b.hwnd
                    == env.fresh_border_hwnds@[*old(cursor) as int])
            },
            r is Done ==> (forall|j: int|
                0 <= j < final(self).borders@.len() - 1 ==> in_borders(
                    #[trigger] final(self).borders@[j],
                    old(self).borders@,
                ) && final(self).borders@[j].id@ != id@),
            r is RectFailed ==> (forall|j: int|
                0 <= j < final(self).borders@.len() ==> in_borders(
                    #[trigger] final(self).borders@[j],
                    old(self).borders@,
                )),
            r is Done ==> ix_has(final(self).windows_borders@, target_tracking, id@),
            forall|h: isize, v: Seq<char>|
                ix_has(final(self).windows_borders@, h, v) ==> ((h == target_tracking && v == id@)
                    || ix_has(old(self).windows_borders@, h, v)),
            final(self).enabled == old(self).enabled,
            final(self).tracking_hwnd == old(self).tracking_hwnd,
            final(self).wm_info == old(self).wm_info,
            final(self).border_width == old(self).border_width,
            final(self).border_offset == old(self).border_offset,
            final(self).border_style == old(self).border_style,
            final(self).border_implementation == old(self).border_implementation,
            final(self).kind_colours == old(self).kind_colours,
    {
        let ghost bs0 = self.borders@;
        let ghost ix0 = self.windows_borders@;
        let ghost ops0 = ops@;
        let ghost cursor0 = *cursor as int;
        let ghost ex0 = has_border_id(self.borders@, id@);
        let ghost bh = step_hwnd(self.borders@, id@, *env, *cursor as int);
        let ghost tr0 = step_tracking0(self.borders@, id@, target_tracking);
        let ghost lk0 = step_last_kind(self.borders@, id@);
        let existing = self.find_border_idx(id);
        let mut border: Border;
        let new_border: bool;
        match existing {
            Some(i) => {
                proof {
                    assert(has_border_id(bs0, id@));
                    assert(bs0[border_idx_of(bs0, id@)].id@ == id@);
                    if border_idx_of(bs0, id@) != i as int {
                        let k = border_idx_of(bs0, id@);
                        if k < i as int {
                            assert(bs0[k].id@ != bs0[i as int].id@);
                        } else {
                            assert(bs0[i as int].id@ != bs0[k].id@);
                        }
                    }
                }
                border = self.borders.remove(i);
                new_border = false;
                proof {
                    let bs1 = self.borders@;
                    assert forall|p: int, q: int|
                        #![trigger bs1[p].id, bs1[q].id]
                        0 <= p < q < bs1.len() implies bs1[p].id@ != bs1[q].id@ by {
                        let p0: int = if p < i { p } else { p + 1 };
                        let q0: int = if q < i { q } else { q + 1 };
                        assert(bs1[p] == bs0[p0] && bs1[q] == bs0[q0]);
                    }
                    assert forall|j: int| 0 <= j < bs1.len() implies in_borders(
                        #[trigger] bs1[j],
                        bs0,
                    ) && bs1[j].id@ != id@ by {
                        let k0: int = if j < i { j } else { j + 1 };
                        assert(bs0[k0] == bs1[j]);
                        if k0 < i as int {
                            assert(bs0[k0].id@ != bs0[i as int].id@);
                        } else {
                            assert(bs0[i as int].id@ != bs0[k0].id@);
                        }
                    }
                    assert forall|x: Seq<char>|
                        has_border_id(bs0, x) && x != id@ implies has_border_id(bs1, x) by {
                        let k = choose|k: int| 0 <= k < bs0.len() && (#[trigger] bs0[k]).id@ == x;
                        let j: int = if k < i { k } else { k - 1 };
                        assert(bs1[j] == bs0[k]);
                    }
                    assert forall|h: isize, v: Seq<char>|
                        ix_has(ix0, h, v) implies entry_consistent(bs1, h, v) || (v == id@ && h
                            == border.tracking_hwnd) by {
                        let e0 = choose|e0: int|
                            0 <= e0 < ix0.len() && ix0[e0].0 == h && (#[trigger] ix0[e0].1)@ == v;
                        assert(entry_consistent(bs0, ix0[e0].0, ix0[e0].1@));
                        let k = choose|k: int|
                            0 <= k < bs0.len() && (#[trigger] bs0[k]).id@ == v
                                && bs0[k].tracking_hwnd == h;
                        if k == i as int {
                            assert(v == id@ && h == border.tracking_hwnd);
                        } else {
                            let j: int = if k < i { k } else { k - 1 };
                            assert(bs1[j] == bs0[k]);
                            assert(entry_consistent(bs1, h, v));
                        }
                    }
                }
            },
            None => {
                if *cursor < env.fresh_border_hwnds.len() {
                    let bh = env.fresh_border_hwnds[*cursor];
                    *cursor = *cursor + 1;
                    ops.push(
                        NativeOp::CreateBorder {
                            id: id.clone(),
                            border_hwnd: bh,
                            tracking_hwnd: target_tracking,
                            monitor_idx,
                        },
                    );
                    border = Border {
                        id: id.clone(),
                        hwnd: bh,
                        tracking_hwnd: target_tracking,
                        window_kind: WindowKind::Unfocused,
                        monitor_idx: Some(monitor_idx),
                        window_rect: Rect { left: 0, top: 0, right: 0, bottom: 0 },
                        style: self.border_style,
                        width: self.border_width,
                        offset: self.border_offset,
                    };
                    new_border = true;
                    proof {
                        assert(ops@.subrange(0, old(ops)@.len() as int) =~= old(ops)@);
                        assert forall|h: isize, v: Seq<char>|
                            ix_has(ix0, h, v) implies entry_consistent(self.borders@, h, v) || (v
                            == id@ && h == border.tracking_hwnd) by {
                            let e0 = choose|e0: int|
                                0 <= e0 < ix0.len() && ix0[e0].0 == h && (#[trigger] ix0[e0].1)@
                                    == v;
                            assert(entry_consistent(bs0, ix0[e0].0, ix0[e0].1@));
                        }
                        assert forall|j: int| 0 <= j < self.borders@.len() implies in_borders(
                            #[trigger] self.borders@[j],
                            bs0,
                        ) && self.borders@[j].id@ != id@ by {
                            assert(bs0[j] == self.borders@[j]);
                            if has_border_id(bs0, id@) {
                                assert(false);
                            }
                        }
                    }
                } else {
                    return StepOutcome::CreateFailed;
                }
            },
        }
        let ghost bs1 = self.borders@;
        let ghost t_old = border.tracking_hwnd;
        proof {
            assert(border_ids_unique(bs1));
            assert(!has_border_id(bs1, id@));
            assert(consistent_except(bs1, self.windows_borders@, id@, t_old));
        }
        border.style = self.border_style;
        border.width = self.border_width;
        border.offset = self.border_offset;
        let last_kind = border.window_kind;
        border.window_kind = kind;
        if border.tracking_hwnd != target_tracking {
            let t0 = border.tracking_hwnd;
            let e = self.ix_find(t0);
            match e {
                Some(ei) => {
                    let points_here = self.windows_borders[ei].1 == *id;
                    if points_here {
                        proof {
                            assert(ix_has(self.windows_borders@, t0, id@));
                        }
                        self.ix_remove_key(t0);
                    } else {
                        proof {
                            assert forall|h: isize, v: Seq<char>|
                                ix_has(self.windows_borders@, h, v) implies entry_consistent(
                                bs1,
                                h,
                                v,
                            ) by {
                                if v == id@ && h == t0 {
                                    let e2 = choose|e2: int|
                                        0 <= e2 < self.windows_borders@.len()
                                            && self.windows_borders@[e2].0 == h && (
                                        #[trigger] self.windows_borders@[e2].1)@ == v;
                                    if e2 != ei as int {
                                        if e2 < ei as int {
                                            assert(self.windows_borders@[e2].0
                                                != self.windows_borders@[ei as int].0);
                                        } else {
                                            assert(self.windows_borders@[ei as int].0
                                                != self.windows_borders@[e2].0);
                                        }
                                    }
                                    assert(false);
                                }
                            }
                        }
                    }
                },
                None => {
                    proof {
                        assert forall|h: isize, v: Seq<char>|
                            ix_has(self.windows_borders@, h, v) implies entry_consistent(
                            bs1,
                            h,
                            v,
                        ) by {
                            if v == id@ && h == t0 {
                                let e2 = choose|e2: int|
                                    0 <= e2 < self.windows_borders@.len()
                                        && self.windows_borders@[e2].0 == h && (
                                    #[trigger] self.windows_borders@[e2].1)@ == v;
                                assert(ix_has_key(self.windows_borders@, t0));
                                assert(false);
                            }
                        }
                    }
                },
            }
            border.tracking_hwnd = target_tracking;
            if repoint_restore && !env.is_visible(border.hwnd) {
                ops.push(NativeOp::RestoreWindow { hwnd: border.hwnd });
                proof {
                    assert(ops@.subrange(0, old(ops)@.len() as int) =~= old(ops)@);
                }
            }
        }
        proof {
            assert(consistent_except(bs1, self.windows_borders@, id@, border.tracking_hwnd));
            assert(border.hwnd == bh);
            assert(t_old == tr0);
            assert(last_kind == lk0);
            assert(ops@ =~= ops0 + spec_step_prefix_ops(
                ex0,
                *id,
                bh,
                tr0,
                target_tracking,
                monitor_idx,
                repoint_restore,
                env.spec_visible(bh),
            ));
        }
        border.monitor_idx = Some(monitor_idx);
        let rect = env.window_rect(target_tracking);
        match rect {
            None => {
                self.ix_remove_key(border.tracking_hwnd);
                ops.push(NativeOp::DestroyBorder { border_hwnd: border.hwnd });
                proof {
                    assert(ops@ =~= ops0 + spec_step_prefix_ops(
                        ex0,
                        *id,
                        bh,
                        tr0,
                        target_tracking,
                        monitor_idx,
                        repoint_restore,
                        env.spec_visible(bh),
                    ) + seq![NativeOp::DestroyBorder { border_hwnd: bh }]);
                    assert(ops@.subrange(0, old(ops)@.len() as int) =~= old(ops)@);
                    assert forall|e: int|
                        0 <= e < self.windows_borders@.len() implies entry_consistent(
                        self.borders@,
                        (#[trigger] self.windows_borders@[e]).0,
                        self.windows_borders@[e].1@,
                    ) by {
                        let h = self.windows_borders@[e].0;
                        let v = self.windows_borders@[e].1@;
                        assert(ix_has(self.windows_borders@, h, v));
                        assert(h != border.tracking_hwnd);
                    }
                    if new_border {
                        assert forall|x: Seq<char>|
                            has_border_id(self.borders@, x) implies (has_border_id(bs0, x) && x
                            != id@) by {
                            let k = choose|k: int|
                                0 <= k < self.borders@.len() && (#[trigger] self.borders@[k]).id@
                                    == x;
                        }
                    }
                }
                StepOutcome::RectFailed
            },
            Some(rc) => {
                border.window_rect = rc;
                let kind_changed = match (last_kind, kind) {
                    (WindowKind::Single, WindowKind::Single) => false,
                    (WindowKind::Stack, WindowKind::Stack) => false,
                    (WindowKind::Monocle, WindowKind::Monocle) => false,
                    (WindowKind::Unfocused, WindowKind::Unfocused) => false,
                    (WindowKind::UnfocusedLocked, WindowKind::UnfocusedLocked) => false,
                    (WindowKind::Floating, WindowKind::Floating) => false,
                    _ => true,
                };
                let should_invalidate = new_border || kind_changed || layer_changed;
                if always_invalidate {
                    if new_border {
                        ops.push(
                            NativeOp::SetBorderPosition {
                                border_hwnd: border.hwnd,
                                rect: rc,
                                tracking_hwnd: target_tracking,
                            },
                        );
                    }
                    ops.push(NativeOp::InvalidateBorder { border_hwnd: border.hwnd });
                } else if should_invalidate {
                    ops.push(
                        NativeOp::SetBorderPosition {
                            border_hwnd: border.hwnd,
                            rect: rc,
                            tracking_hwnd: target_tracking,
                        },
                    );
                    ops.push(NativeOp::InvalidateBorder { border_hwnd: border.hwnd });
                }
                proof {
                    assert(rect_lookup(env.window_rects@, target_tracking) == Some(rc));
                    assert(kind_changed == (lk0 != kind));
                    assert(ops@ =~= ops0 + spec_step_done_ops(
                        ex0,
                        *id,
                        bh,
                        tr0,
                        lk0,
                        target_tracking,
                        kind,
                        monitor_idx,
                        repoint_restore,
                        always_invalidate,
                        layer_changed,
                        env.spec_visible(bh),
                        rc,
                    ));
                    assert(ops@.subrange(0, old(ops)@.len() as int) =~= old(ops)@);
                }
                let ghost bpre = self.borders@;
                let bhwnd = border.hwnd;
                self.borders.push(border);
                proof {
                    let bs2 = self.borders@;
                    assert(bs2 =~= bpre.push(bs2.last()));
                    assert(bs2.last().id@ == id@);
                    assert forall|p: int, q: int|
                        #![trigger bs2[p].id, bs2[q].id]
                        0 <= p < q < bs2.len() implies bs2[p].id@ != bs2[q].id@ by {
                        if q == bs2.len() - 1 {
                            assert(bs2[p] == bpre[p]);
                            assert(!has_border_id(bpre, id@));
                        } else {
                            assert(bs2[p] == bpre[p] && bs2[q] == bpre[q]);
                        }
                    }
                    assert forall|h: isize, v: Seq<char>|
                        ix_has(self.windows_borders@, h, v) implies entry_consistent(
                        bs2,
                        h,
                        v,
                    ) by {
                        if entry_consistent(bpre, h, v) {
                            let k = choose|k: int|
                                0 <= k < bpre.len() && (#[trigger] bpre[k]).id@ == v
                                    && bpre[k].tracking_hwnd == h;
                            assert(bs2[k] == bpre[k]);
                        } else {
                            assert(v == id@ && h == bs2.last().tracking_hwnd);
                            assert(bs2[bs2.len() - 1].id@ == v && bs2[bs2.len()
                                - 1].tracking_hwnd == h);
                        }
                    }
                }
                self.ix_insert(target_tracking, id.clone());
                proof {
                    let bs2 = self.borders@;
                    assert forall|e: int|
                        0 <= e < self.windows_borders@.len() implies entry_consistent(
                        bs2,
                        (#[trigger] self.windows_borders@[e]).0,
                        self.windows_borders@[e].1@,
                    ) by {
                        let h = self.windows_borders@[e].0;
                        let v = self.windows_borders@[e].1@;
                        assert(ix_has(self.windows_borders@, h, v));
                        if h == target_tracking && v == id@ {
                            assert(bs2[bs2.len() - 1].id@ == v && bs2[bs2.len()
                                - 1].tracking_hwnd == h);
                        }
                    }
                    assert forall|x: Seq<char>|
                        has_border_id(bs2, x) implies (has_border_id(bs0, x) || x == id@) by {
                        let k = choose|k: int| 0 <= k < bs2.len() && (#[trigger] bs2[k]).id@ == x;
                        if k < bs2.len() - 1 {
                            assert(in_borders(bs2[k], bs0));
                            let k0 = choose|k0: int|
                                0 <= k0 < bs0.len() && #[trigger] bs0[k0] == bs2[k];
                        }
                    }
                    assert forall|x: Seq<char>|
                        has_border_id(bs0, x) implies has_border_id(bs2, x) by {
                        if x == id@ {
                            assert(bs2[bs2.len() - 1].id@ == x);
                        } else {
                            let k = choose|k: int|
                                0 <= k < bs0.len() && (#[trigger] bs0[k]).id@ == x;
                            assert(has_border_id(bs1, x));
                            let j = choose|j: int|
                                0 <= j < bs1.len() && (#[trigger] bs1[j]).id@ == x;
                            assert(bs2[j] == bs1[j]);
                        }
                    }
                    if has_border_id(bs0, id@) {
                        assert(bs0[border_idx_of(bs0, id@)].id@ == id@);
                    }
                }
                StepOutcome::Done
            },
        }
    }
}


/// The window a container's border tracks: the container's focused window,
/// or handle zero when it has none.
pub open spec fn container_target(mc: crate::monitor::Container) -> isize {
    if mc.focused_window_idx < mc.windows@.len() {
        mc.windows@[mc.focused_window_idx as int].hwnd
    } else {
        0
    }
}

/// Whether the focused workspace still owns a border id: it is some
/// container's id, or the key of some floating window.
pub open spec fn ws_has_id(ws: Workspace, id: Seq<char>) -> bool {
    ||| exists|k: int| 0 <= k < ws.containers@.len() && (#[trigger] ws.containers@[k]).id@ == id
    ||| exists|k: int|
        0 <= k < ws.floating_windows@.len() && dec_isize(
            (#[trigger] ws.floating_windows@[k]).hwnd,
        ) == id
}

/// Whether the focused workspace claims a border id this pass: a container
/// id, a floating window's key, or the monocle container's id.
pub open spec fn ws_claims_id(ws: Workspace, id: Seq<char>) -> bool {
    ws_has_id(ws, id) || (ws.monocle_container matches Some(mc) && mc.id@ == id)
}

/// Snapshot hygiene for one workspace: container ids are pairwise distinct
/// and no floating window's key collides with a container id.
pub open spec fn ws_ids_distinct(ws: Workspace) -> bool {
    &&& (forall|i: int, j: int|
        #![trigger ws.containers@[i].id, ws.containers@[j].id]
        0 <= i < j < ws.containers@.len() ==> ws.containers@[i].id@ != ws.containers@[j].id@)
    &&& (forall|i: int, k: int|
        #![trigger ws.containers@[i].id, ws.floating_windows@[k]]
        0 <= i < ws.containers@.len() && 0 <= k < ws.floating_windows@.len()
            ==> ws.containers@[i].id@ != dec_isize(ws.floating_windows@[k].hwnd))
}

/// What the pass owes container `ci` of workspace `ws` on monitor
/// `monitor_idx`: a border under the container's id, tracking its focused
/// window, carrying the focus classification of `spec_container_kind`.
pub open spec fn container_claim(
    bs: Seq<Border>,
    ws: Workspace,
    ci: int,
    monitor_idx: usize,
    focused_monitor_idx: usize,
    fg: isize,
) -> bool {
    let c = ws.containers@[ci];
    exists|j: int|
        0 <= j < bs.len() && (#[trigger] bs[j]).id@ == c.id@ && bs[j].tracking_hwnd
            == container_target(c) && bs[j].monitor_idx == Some(monitor_idx)
            && bs[j].window_kind == spec_container_kind(
            ci,
            ws.focused_container_idx as int,
            monitor_idx as int,
            focused_monitor_idx as int,
            container_target(c),
            fg,
            c.windows@.len() as int,
            c.locked,
        )
}

/// A border keeps its exact value across an operation that only shrinks the
/// border set.
proof fn lemma_subset_preserves_border(pre: Seq<Border>, post: Seq<Border>, b: Border)
    requires
        border_ids_unique(pre),
        in_borders(b, pre),
        has_border_id(post, b.id@),
        forall|j: int| 0 <= j < post.len() ==> in_borders(#[trigger] post[j], pre),
    ensures
        in_borders(b, post),
{
    let j = choose|j: int| 0 <= j < post.len() && (#[trigger] post[j]).id@ == b.id@;
    assert(in_borders(post[j], pre));
    let k = choose|k: int| 0 <= k < pre.len() && #[trigger] pre[k] == post[j];
    let k2 = choose|k2: int| 0 <= k2 < pre.len() && #[trigger] pre[k2] == b;
    if k != k2 {
        if k < k2 {
            assert(pre[k].id@ != pre[k2].id@);
        } else {
            assert(pre[k2].id@ != pre[k].id@);
        }
    }
    assert(post[j] == b);
}

/// A border whose id one reconciliation step does not touch keeps its exact
/// value across the step.
proof fn lemma_step_preserves_border(pre: Seq<Border>, post: Seq<Border>, sid: Seq<char>, b: Border)
    requires
        border_ids_unique(pre),
        in_borders(b, pre),
        b.id@ != sid,
        has_border_id(post, b.id@),
        forall|j: int|
            0 <= j < post.len() ==> (in_borders(#[trigger] post[j], pre) || post[j].id@ == sid),
    ensures
        in_borders(b, post),
{
    let j = choose|j: int| 0 <= j < post.len() && (#[trigger] post[j]).id@ == b.id@;
    assert(in_borders(post[j], pre));
    let k = choose|k: int| 0 <= k < pre.len() && #[trigger] pre[k] == post[j];
    let k2 = choose|k2: int| 0 <= k2 < pre.len() && #[trigger] pre[k2] == b;
    if k != k2 {
        if k < k2 {
            assert(pre[k].id@ != pre[k2].id@);
        } else {
            assert(pre[k2].id@ != pre[k].id@);
        }
    }
    assert(post[j] == b);
}

proof fn lemma_prefix_trans(a: Seq<NativeOp>, b: Seq<NativeOp>, c: Seq<NativeOp>)
    requires
        a.len() <= b.len() <= c.len(),
        c.subrange(0, b.len() as int) == b,
        b.subrange(0, a.len() as int) == a,
    ensures
        c.subrange(0, a.len() as int) == a,
{
    assert(c.subrange(0, a.len() as int) =~= b.subrange(0, a.len() as int));
}

impl BorderManager {
    /// Reconciles the borders of one monitor's focused workspace.
    ///
    /// Three of the engine's laws are stated here. Monocle exclusivity:
    /// when the workspace has a monocle container, and the native sample is
    /// clean (its geometry is readable, a handle is available if the border
    /// is new, every border of this monitor is visible, and no other border
    /// shares the monocle's overlay handle), then after the pass exactly
    /// the monocle's border remains on this monitor, tracking the monocle's
    /// focused window. Garbage collection: a visible border of this monitor
    /// whose id the workspace no longer owns does not survive the pass.
    /// Focus classification: on a hygienic workspace with enough fresh
    /// handles, every container whose geometry is readable ends the pass
    /// with a border of the kind `spec_container_kind` assigns — each
    /// container's claim depends only on its own geometry, so one dead
    /// window never costs the other containers their borders. The frame
    /// clauses pin the collateral: borders of other monitors whose ids this
    /// workspace does not claim survive with their exact values, every new
    /// or reworked border belongs to this monitor, and the pass introduces
    /// no id the workspace does not claim.
    #[verifier::loop_isolation(false)]
    pub fn reconcile_monitor(
        &mut self,
        monitor_idx: usize,
        m_id: isize,
        ws: &Workspace,
        focused_monitor_idx: usize,
        foreground_window: isize,
        layer_changed: bool,
        env: &NativeEnv,
        cursor: &mut usize,
        ops: &mut Vec<NativeOp>,
    )
        requires
            old(self).wf(),
            *old(cursor) <= env.fresh_border_hwnds@.len(),
        ensures
            final(self).wf(),
            *old(cursor) <= *final(cursor) <= env.fresh_border_hwnds@.len(),
            old(ops)@.len() <= final(ops)@.len(),
            final(ops)@.subrange(0, old(ops)@.len() as int) == old(ops)@,
            final(self).enabled == old(self).enabled,
            final(self).tracking_hwnd == old(self).tracking_hwnd,
            final(self).wm_info == old(self).wm_info,
            final(self).border_width == old(self).border_width,
            final(self).border_offset == old(self).border_offset,
            final(self).border_style == old(self).border_style,
            final(self).border_implementation == old(self).border_implementation,
            final(self).kind_colours == old(self).kind_colours,
            *final(cursor) <= *old(cursor) + ws.containers@.len() + ws.floating_windows@.len() + (
            if ws.monocle_container is Some {
                1int
            } else {
                0int
            }),
            forall|k: int|
                0 <= k < old(self).borders@.len() ==> ((!ws_claims_id(
                    *ws,
                    (#[trigger] old(self).borders@[k]).id@,
                ) && !(old(self).borders@[k].monitor_idx matches Some(x) && x == monitor_idx))
                    ==> in_borders(old(self).borders@[k], final(self).borders@)),
            forall|j: int|
                0 <= j < final(self).borders@.len() ==> (in_borders(
                    #[trigger] final(self).borders@[j],
                    old(self).borders@,
                ) || final(self).borders@[j].monitor_idx == Some(monitor_idx)),
            forall|x: Seq<char>|
                has_border_id(final(self).borders@, x) ==> (has_border_id(old(self).borders@, x)
                    || ws_claims_id(*ws, x)),
            ({
                &&& ws.tile
                &&& ws.monocle_container is None
                &&& !(env.foreground_monitor_id == m_id && env.foreground_zoomed)
                &&& ws_ids_distinct(*ws)
                &&& *old(cursor) + ws.containers@.len() + ws.floating_windows@.len()
                    <= env.fresh_border_hwnds@.len()
            }) ==> (forall|ci: int|
                #![trigger ws.containers@[ci]]
                0 <= ci < ws.containers@.len() && rect_lookup(
                    env.window_rects@,
                    container_target(ws.containers@[ci]),
                ) is Some ==> container_claim(
                    final(self).borders@,
                    *ws,
                    ci,
                    monitor_idx,
                    focused_monitor_idx,
                    foreground_window,
                )),
            ({
                &&& ws.tile
                &&& ws.monocle_container matches Some(mc) && ({
                let existing = has_border_id(old(self).borders@, mc.id@);
                let mono_hwnd = if existing {
                    old(self).borders@[border_idx_of(old(self).borders@, mc.id@)].hwnd
                } else {
                    env.fresh_border_hwnds@[*old(cursor) as int]
                };
                &&& (existing || *old(cursor) < env.fresh_border_hwnds@.len())
                &&& rect_lookup(env.window_rects@, container_target(mc)) is Some
                &&& (forall|k: int|
                    0 <= k < old(self).borders@.len() ==> ((#[trigger] old(self).borders@[k]).monitor_idx matches Some(mi) && mi == monitor_idx
                        ==> env.spec_visible(old(self).borders@[k].hwnd)))
                &&& (forall|k: int|
                    0 <= k < old(self).borders@.len() ==> ((#[trigger] old(self).borders@[k]).id@
                        != mc.id@ ==> old(self).borders@[k].hwnd != mono_hwnd))
            })
            }) ==> {
                &&& has_border_id(final(self).borders@, ws.monocle_container->Some_0.id@)
                &&& forall|j: int|
                    0 <= j < final(self).borders@.len() ==> ((#[trigger] final(self).borders@[j]).monitor_idx matches Some(mi) && mi == monitor_idx
                        ==> final(self).borders@[j].id@ == ws.monocle_container->Some_0.id@
                        && final(self).borders@[j].tracking_hwnd == container_target(ws.monocle_container->Some_0)
                        && final(self).borders@[j].window_kind == spec_monocle_kind(
                        monitor_idx as int,
                        focused_monitor_idx as int,
                    ))
            },
            (ws.tile && ws.monocle_container is None && !(env.foreground_monitor_id == m_id
                && env.foreground_zoomed)) ==> (forall|k: int|
                0 <= k < old(self).borders@.len() ==> (((#[trigger] old(self).borders@[k]).monitor_idx matches Some(mi) && mi == monitor_idx
                    && env.spec_visible(old(self).borders@[k].hwnd) && !ws_has_id(
                    *ws,
                    old(self).borders@[k].id@,
                )) ==> !has_border_id(final(self).borders@, old(self).borders@[k].id@))),
        {
        let empty_ids: Vec<String> = Vec::new();
        if !ws.tile {
            self.remove_borders(monitor_idx, RemoveScope::All, &empty_ids, env, ops);
            proof {
                let pre = old(self).borders@;
                assert forall|k: int|
                    0 <= k < pre.len() && (!ws_claims_id(*ws, (#[trigger] pre[k]).id@) && !(
                    pre[k].monitor_idx matches Some(x) && x == monitor_idx)) implies in_borders(
                    pre[k],
                    self.borders@,
                ) by {
                    assert(!border_removable(
                        RemoveScope::All,
                        empty_ids@,
                        monitor_idx as int,
                        *env,
                        pre[k],
                    ));
                    assert(has_border_id(self.borders@, pre[k].id@));
                    assert(in_borders(pre[k], pre));
                    lemma_subset_preserves_border(pre, self.borders@, pre[k]);
                }
            }
            return ;
        }
        match &ws.monocle_container {
            Some(monocle) => {
                let mfh = match monocle.focused_window() {
                    Some(w) => w.hwnd,
                    None => 0,
                };
                proof {
                    assert(mfh == container_target(*monocle));
                }
                let mkind = if monitor_idx != focused_monitor_idx {
                    WindowKind::Unfocused
                } else {
                    WindowKind::Monocle
                };
                let ghost bs_orig = self.borders@;
                let ghost ops_orig = ops@;
                let r = self.border_pass_step(
                    &monocle.id,
                    mfh,
                    mkind,
                    monitor_idx,
                    true,
                    true,
                    layer_changed,
                    env,
                    cursor,
                    ops,
                );
                match r {
                    StepOutcome::Done => {
                        let last = self.borders.len() - 1;
                        let bh = self.borders[last].hwnd;
                        let ghost bs_mid = self.borders@;
                        let ghost ops_mid = ops@;
                        self.remove_borders(
                            monitor_idx,
                            RemoveScope::ExceptHwnd(bh),
                            &empty_ids,
                            env,
                            ops,
                        );
                        proof {
                            // untouched borders of other monitors survive
                            // the monocle step and the sweep with their
                            // values intact
                            assert forall|k: int|
                                0 <= k < bs_orig.len() && (!ws_claims_id(
                                    *ws,
                                    (#[trigger] bs_orig[k]).id@,
                                ) && !(bs_orig[k].monitor_idx matches Some(x) && x
                                    == monitor_idx)) implies in_borders(
                                bs_orig[k],
                                self.borders@,
                            ) by {
                                let b = bs_orig[k];
                                assert(in_borders(b, bs_orig));
                                assert(b.id@ != monocle.id@);
                                assert(has_border_id(bs_mid, b.id@));
                                assert forall|j: int| 0 <= j < bs_mid.len() implies (in_borders(
                                    #[trigger] bs_mid[j],
                                    bs_orig,
                                ) || bs_mid[j].id@ == monocle.id@) by {
                                    if j < bs_mid.len() - 1 {
                                    }
                                }
                                lemma_step_preserves_border(bs_orig, bs_mid, monocle.id@, b);
                                assert(!border_removable(
                                    RemoveScope::ExceptHwnd(bh),
                                    empty_ids@,
                                    monitor_idx as int,
                                    *env,
                                    b,
                                ));
                                assert(has_border_id(self.borders@, b.id@));
                                lemma_subset_preserves_border(bs_mid, self.borders@, b);
                            }
                            assert forall|j: int| 0 <= j < self.borders@.len() implies (
                            in_borders(#[trigger] self.borders@[j], bs_orig)
                                || self.borders@[j].monitor_idx == Some(monitor_idx)) by {
                                assert(in_borders(self.borders@[j], bs_mid));
                                let k = choose|k: int|
                                    0 <= k < bs_mid.len() && #[trigger] bs_mid[k]
                                        == self.borders@[j];
                                if k == bs_mid.len() - 1 {
                                    assert(bs_mid[k].monitor_idx == Some(monitor_idx));
                                } else {
                                    assert(in_borders(bs_mid[k], bs_orig));
                                }
                            }
                            lemma_prefix_trans(ops_orig, ops_mid, ops@);
                            let mcid = monocle.id@;
                            if ({
                                let existing = has_border_id(bs_orig, mcid);
                                let mono_hwnd = if existing {
                                    bs_orig[border_idx_of(bs_orig, mcid)].hwnd
                                } else {
                                    env.fresh_border_hwnds@[*old(cursor) as int]
                                };
                                &&& rect_lookup(env.window_rects@, container_target(*monocle))
                                    is Some
                                &&& (forall|k: int|
                                    0 <= k < bs_orig.len() ==> ((#[trigger] bs_orig[k]).monitor_idx
                                        matches Some(mi) && mi == monitor_idx ==> env.spec_visible(
                                        bs_orig[k].hwnd,
                                    )))
                                &&& (forall|k: int|
                                    0 <= k < bs_orig.len() ==> ((#[trigger] bs_orig[k]).id@ != mcid
                                        ==> bs_orig[k].hwnd != mono_hwnd))
                            }) {
                                let existing = has_border_id(bs_orig, mcid);
                                let mono_hwnd = if existing {
                                    bs_orig[border_idx_of(bs_orig, mcid)].hwnd
                                } else {
                                    env.fresh_border_hwnds@[*old(cursor) as int]
                                };
                                assert(bs_mid[last as int].hwnd == mono_hwnd);
                                assert(bh == mono_hwnd);
                                // the monocle border survives the sweep
                                assert(!border_removable(
                                    RemoveScope::ExceptHwnd(bh),
                                    empty_ids@,
                                    monitor_idx as int,
                                    *env,
                                    bs_mid[last as int],
                                ));
                                assert(has_border_id(self.borders@, mcid));
                                // every remaining border of this monitor is the monocle's
                                assert forall|j: int|
                                    0 <= j < self.borders@.len() && ((#[trigger] self.borders@[j]).monitor_idx
                                        matches Some(mi) && mi == monitor_idx) implies
                                    self.borders@[j].id@ == mcid && self.borders@[j].tracking_hwnd
                                        == container_target(*monocle) && self.borders@[j].window_kind
                                        == spec_monocle_kind(
                                        monitor_idx as int,
                                        focused_monitor_idx as int,
                                    ) by {
                                    assert(in_borders(self.borders@[j], bs_mid));
                                    let k = choose|k: int|
                                        0 <= k < bs_mid.len() && #[trigger] bs_mid[k]
                                            == self.borders@[j];
                                    if k == last as int {
                                    } else {
                                        assert(in_borders(bs_mid[k], bs_orig));
                                        let k0 = choose|k0: int|
                                            0 <= k0 < bs_orig.len() && #[trigger] bs_orig[k0]
                                                == bs_mid[k];
                                        assert(bs_orig[k0].id@ != mcid);
                                        assert(bs_orig[k0].hwnd != mono_hwnd);
                                        assert(env.spec_visible(bs_mid[k].hwnd));
                                        assert(border_removable(
                                            RemoveScope::ExceptHwnd(bh),
                                            empty_ids@,
                                            monitor_idx as int,
                                            *env,
                                            bs_mid[k],
                                        ));
                                        assert(!has_border_id(self.borders@, bs_mid[k].id@));
                                        assert(false);
                                    }
                                }
                            }
                        }
                    },
                    _ => {
                        proof {
                            if !(r is CreateFailed) && !(r is RectFailed) {
                                assert(false);
                            }
                            assert forall|k: int|
                                0 <= k < bs_orig.len() && (!ws_claims_id(
                                    *ws,
                                    (#[trigger] bs_orig[k]).id@,
                                ) && !(bs_orig[k].monitor_idx matches Some(x) && x
                                    == monitor_idx)) implies in_borders(
                                bs_orig[k],
                                self.borders@,
                            ) by {
                                let b = bs_orig[k];
                                assert(in_borders(b, bs_orig));
                                if r is RectFailed {
                                    assert(b.id@ != monocle.id@);
                                    assert(has_border_id(self.borders@, b.id@));
                                    lemma_subset_preserves_border(bs_orig, self.borders@, b);
                                }
                            }
                        }
                    },
                }
                return ;
            },
            None => {},
        }
        let is_maximized = env.foreground_monitor_id == m_id && env.foreground_zoomed;
        if is_maximized {
            self.remove_borders(monitor_idx, RemoveScope::All, &empty_ids, env, ops);
            proof {
                let pre = old(self).borders@;
                assert forall|k: int|
                    0 <= k < pre.len() && (!ws_claims_id(*ws, (#[trigger] pre[k]).id@) && !(
                    pre[k].monitor_idx matches Some(x) && x == monitor_idx)) implies in_borders(
                    pre[k],
                    self.borders@,
                ) by {
                    assert(!border_removable(
                        RemoveScope::All,
                        empty_ids@,
                        monitor_idx as int,
                        *env,
                        pre[k],
                    ));
                    assert(has_border_id(self.borders@, pre[k].id@));
                    assert(in_borders(pre[k], pre));
                    lemma_subset_preserves_border(pre, self.borders@, pre[k]);
                }
            }
            return ;
        }
        // Collect the focused workspace's container and floating window ids
        let mut ids: Vec<String> = Vec::new();
        let mut ci: usize = 0;
        while ci < ws.containers.len()
            invariant
                0 <= ci <= ws.containers@.len(),
                ids@.len() == ci,
                forall|k: int| 0 <= k < ci ==> (#[trigger] ids@[k])@ == ws.containers@[k].id@,
            decreases ws.containers@.len() - ci,
        {
            ids.push(ws.containers[ci].id.clone());
            ci = ci + 1;
        }
        let mut fi: usize = 0;
        while fi < ws.floating_windows.len()
            invariant
                0 <= fi <= ws.floating_windows@.len(),
                ids@.len() == ws.containers@.len() + fi,
                forall|k: int|
                    0 <= k < ws.containers@.len() ==> (#[trigger] ids@[k])@
                        == ws.containers@[k].id@,
                forall|k: int|
                    0 <= k < fi ==> (#[trigger] ids@[ws.containers@.len() + k])@ == dec_isize(
                        ws.floating_windows@[k].hwnd,
                    ),
            decreases ws.floating_windows@.len() - fi,
        {
            ids.push(hwnd_key(ws.floating_windows[fi].hwnd));
            fi = fi + 1;
        }
        proof {
            assert forall|x: Seq<char>| id_in_strings(ids@, x) implies ws_has_id(*ws, x) by {
                let k = choose|k: int| 0 <= k < ids@.len() && (#[trigger] ids@[k])@ == x;
                if k < ws.containers@.len() {
                    assert(ws.containers@[k].id@ == x);
                } else {
                    let k2 = k - ws.containers@.len();
                    assert(ids@[ws.containers@.len() + k2]@ == dec_isize(
                        ws.floating_windows@[k2].hwnd,
                    ));
                    assert(dec_isize(ws.floating_windows@[k2].hwnd) == x);
                }
            }
            assert forall|x: Seq<char>| ws_has_id(*ws, x) implies id_in_strings(ids@, x) by {
                if exists|k: int|
                    0 <= k < ws.containers@.len() && (#[trigger] ws.containers@[k]).id@ == x {
                    let k = choose|k: int|
                        0 <= k < ws.containers@.len() && (#[trigger] ws.containers@[k]).id@ == x;
                    assert(ids@[k]@ == x);
                } else {
                    let k = choose|k: int|
                        0 <= k < ws.floating_windows@.len() && dec_isize(
                            (#[trigger] ws.floating_windows@[k]).hwnd,
                        ) == x;
                    assert(ids@[ws.containers@.len() + k]@ == x);
                }
            }
        }
        // Remove any borders not associated with the focused workspace
        let ghost bs_orig = self.borders@;
        let ghost ops_orig = ops@;
        let ghost clean = ws_ids_distinct(*ws) && *old(cursor) + ws.containers@.len()
            + ws.floating_windows@.len() <= env.fresh_border_hwnds@.len();
        self.remove_borders(monitor_idx, RemoveScope::NotInIds, &ids, env, ops);
        let ghost bs_gc = self.borders@;
        let ghost ops_gc = ops@;
        proof {
            assert forall|k: int|
                0 <= k < bs_orig.len() && (!ws_claims_id(*ws, (#[trigger] bs_orig[k]).id@) && !(
                bs_orig[k].monitor_idx matches Some(x) && x == monitor_idx)) implies in_borders(
                bs_orig[k],
                self.borders@,
            ) by {
                assert(!border_removable(
                    RemoveScope::NotInIds,
                    ids@,
                    monitor_idx as int,
                    *env,
                    bs_orig[k],
                ));
                assert(has_border_id(self.borders@, bs_orig[k].id@));
                assert(in_borders(bs_orig[k], bs_orig));
                lemma_subset_preserves_border(bs_orig, self.borders@, bs_orig[k]);
            }
        }
        let mut idx: usize = 0;
        while idx < ws.containers.len()
            invariant
                self.wf(),
                0 <= idx <= ws.containers@.len(),
                *old(cursor) <= *cursor <= env.fresh_border_hwnds@.len(),
                *cursor <= *old(cursor) + idx,
                ops_gc.len() <= ops@.len(),
                ops@.subrange(0, ops_gc.len() as int) == ops_gc,
                old(ops)@.len() <= ops@.len(),
                ops@.subrange(0, old(ops)@.len() as int) == old(ops)@,
                forall|x: Seq<char>|
                    has_border_id(self.borders@, x) ==> has_border_id(bs_gc, x) || ws_has_id(
                        *ws,
                        x,
                    ),
                forall|k: int|
                    0 <= k < bs_orig.len() && (!ws_claims_id(*ws, (#[trigger] bs_orig[k]).id@)
                        && !(bs_orig[k].monitor_idx matches Some(x) && x == monitor_idx))
                        ==> in_borders(bs_orig[k], self.borders@),
                forall|j: int|
                    0 <= j < self.borders@.len() ==> (in_borders(
                        #[trigger] self.borders@[j],
                        bs_orig,
                    ) || self.borders@[j].monitor_idx == Some(monitor_idx)),
                clean ==> (forall|ci: int|
                    #![trigger ws.containers@[ci]]
                    0 <= ci < idx && rect_lookup(
                        env.window_rects@,
                        container_target(ws.containers@[ci]),
                    ) is Some ==> container_claim(
                        self.borders@,
                        *ws,
                        ci,
                        monitor_idx,
                        focused_monitor_idx,
                        foreground_window,
                    )),
                self.enabled == old(self).enabled,
                self.tracking_hwnd == old(self).tracking_hwnd,
                self.wm_info == old(self).wm_info,
                self.border_width == old(self).border_width,
                self.border_offset == old(self).border_offset,
                self.border_style == old(self).border_style,
                self.border_implementation == old(self).border_implementation,
                self.kind_colours == old(self).kind_colours,
            decreases ws.containers@.len() - idx,
        {
            let c = &ws.containers[idx];
            let fh = match c.focused_window() {
                Some(w) => w.hwnd,
                None => 0,
            };
            let kind = classify_container_kind(
                idx,
                ws.focused_container_idx,
                monitor_idx,
                focused_monitor_idx,
                fh,
                foreground_window,
                c.windows.len(),
                c.locked,
            );
            let ghost ops_pre = ops@;
            let ghost bs_pre = self.borders@;
            let r = self.border_pass_step(
                &c.id,
                fh,
                kind,
                monitor_idx,
                true,
                false,
                layer_changed,
                env,
                cursor,
                ops,
            );
            proof {
                lemma_prefix_trans(ops_gc, ops_pre, ops@);
                lemma_prefix_trans(old(ops)@, ops_pre, ops@);
                assert(ws_has_id(*ws, c.id@));
                assert forall|x: Seq<char>|
                    has_border_id(self.borders@, x) implies has_border_id(bs_gc, x) || ws_has_id(
                    *ws,
                    x,
                ) by {
                    if x == c.id@ {
                        assert(ws.containers@[idx as int].id@ == x);
                    } else {
                        if r is Done || r is RectFailed {
                            assert(has_border_id(bs_pre, x));
                        } else {
                            assert(has_border_id(bs_pre, x));
                        }
                    }
                }
                if r is Done || r is RectFailed {
                    assert forall|j: int| 0 <= j < self.borders@.len() implies (in_borders(
                        #[trigger] self.borders@[j],
                        bs_pre,
                    ) || self.borders@[j].id@ == c.id@) by {
                        if r is Done && j < self.borders@.len() - 1 {
                        }
                    }
                    assert forall|k: int|
                        0 <= k < bs_orig.len() && (!ws_claims_id(
                            *ws,
                            (#[trigger] bs_orig[k]).id@,
                        ) && !(bs_orig[k].monitor_idx matches Some(x) && x
                            == monitor_idx)) implies in_borders(bs_orig[k], self.borders@) by {
                        let b = bs_orig[k];
                        assert(in_borders(b, bs_pre));
                        assert(b.id@ != c.id@);
                        assert(has_border_id(self.borders@, b.id@));
                        lemma_step_preserves_border(bs_pre, self.borders@, c.id@, b);
                    }
                    assert forall|j: int| 0 <= j < self.borders@.len() implies (in_borders(
                        #[trigger] self.borders@[j],
                        bs_orig,
                    ) || self.borders@[j].monitor_idx == Some(monitor_idx)) by {
                        if r is Done && j == self.borders@.len() - 1 {
                            assert(self.borders@[j].monitor_idx == Some(monitor_idx));
                        } else {
                            assert(in_borders(self.borders@[j], bs_pre));
                            let k = choose|k: int|
                                0 <= k < bs_pre.len() && #[trigger] bs_pre[k]
                                    == self.borders@[j];
                        }
                    }
                    if clean {
                        assert forall|ci: int|
                            #![trigger ws.containers@[ci]]
                            0 <= ci < idx + 1 && rect_lookup(
                                env.window_rects@,
                                container_target(ws.containers@[ci]),
                            ) is Some implies container_claim(
                            self.borders@,
                            *ws,
                            ci,
                            monitor_idx,
                            focused_monitor_idx,
                            foreground_window,
                        ) by {
                            if ci == idx as int {
                                assert(fh == container_target(ws.containers@[ci]));
                                assert(r is Done);
                                let j = self.borders@.len() - 1;
                                assert(self.borders@[j].id@ == c.id@);
                                assert(self.borders@[j].window_kind == spec_container_kind(
                                    ci,
                                    ws.focused_container_idx as int,
                                    monitor_idx as int,
                                    focused_monitor_idx as int,
                                    container_target(ws.containers@[ci]),
                                    foreground_window,
                                    ws.containers@[ci].windows@.len() as int,
                                    ws.containers@[ci].locked,
                                ));
                            } else {
                                let c0 = ws.containers@[ci];
                                assert(container_claim(
                                    bs_pre,
                                    *ws,
                                    ci,
                                    monitor_idx,
                                    focused_monitor_idx,
                                    foreground_window,
                                ));
                                let j0 = choose|j0: int|
                                    0 <= j0 < bs_pre.len() && (#[trigger] bs_pre[j0]).id@
                                        == c0.id@ && bs_pre[j0].tracking_hwnd == container_target(
                                        c0,
                                    ) && bs_pre[j0].monitor_idx == Some(monitor_idx)
                                        && bs_pre[j0].window_kind == spec_container_kind(
                                        ci,
                                        ws.focused_container_idx as int,
                                        monitor_idx as int,
                                        focused_monitor_idx as int,
                                        container_target(c0),
                                        foreground_window,
                                        c0.windows@.len() as int,
                                        c0.locked,
                                    );
                                let b = bs_pre[j0];
                                assert(in_borders(b, bs_pre));
                                assert(c0.id@ != c.id@);
                                assert(has_border_id(self.borders@, b.id@));
                                lemma_step_preserves_border(bs_pre, self.borders@, c.id@, b);
                            }
                        }
                    }
                }
            }
            match r {
                StepOutcome::CreateFailed => {
                    proof {
                        if clean {
                            assert(false);
                        }
                    }
                    return ;
                },
                _ => {},
            }
            idx = idx + 1;
        }
        let mut fdx: usize = 0;
        while fdx < ws.floating_windows.len()
            invariant
                self.wf(),
                0 <= fdx <= ws.floating_windows@.len(),
                *old(cursor) <= *cursor <= env.fresh_border_hwnds@.len(),
                *cursor <= *old(cursor) + ws.containers@.len() + fdx,
                ops_gc.len() <= ops@.len(),
                ops@.subrange(0, ops_gc.len() as int) == ops_gc,
                old(ops)@.len() <= ops@.len(),
                ops@.subrange(0, old(ops)@.len() as int) == old(ops)@,
                forall|x: Seq<char>|
                    has_border_id(self.borders@, x) ==> has_border_id(bs_gc, x) || ws_has_id(
                        *ws,
                        x,
                    ),
                forall|k: int|
                    0 <= k < bs_orig.len() && (!ws_claims_id(*ws, (#[trigger] bs_orig[k]).id@)
                        && !(bs_orig[k].monitor_idx matches Some(x) && x == monitor_idx))
                        ==> in_borders(bs_orig[k], self.borders@),
                forall|j: int|
                    0 <= j < self.borders@.len() ==> (in_borders(
                        #[trigger] self.borders@[j],
                        bs_orig,
                    ) || self.borders@[j].monitor_idx == Some(monitor_idx)),
                clean ==> (forall|ci: int|
                    #![trigger ws.containers@[ci]]
                    0 <= ci < ws.containers@.len() && rect_lookup(
                        env.window_rects@,
                        container_target(ws.containers@[ci]),
                    ) is Some ==> container_claim(
                        self.borders@,
                        *ws,
                        ci,
                        monitor_idx,
                        focused_monitor_idx,
                        foreground_window,
                    )),
                self.enabled == old(self).enabled,
                self.tracking_hwnd == old(self).tracking_hwnd,
                self.wm_info == old(self).wm_info,
                self.border_width == old(self).border_width,
                self.border_offset == old(self).border_offset,
                self.border_style == old(self).border_style,
                self.border_implementation == old(self).border_implementation,
                self.kind_colours == old(self).kind_colours,
            decreases ws.floating_windows@.len() - fdx,
        {
            let w = ws.floating_windows[fdx];
            let fid = hwnd_key(w.hwnd);
            let kind = if foreground_window == w.hwnd {
                WindowKind::Floating
            } else {
                WindowKind::Unfocused
            };
            let ghost ops_pre = ops@;
            let ghost bs_pre = self.borders@;
            let r = self.border_pass_step(
                &fid,
                w.hwnd,
                kind,
                monitor_idx,
                false,
                false,
                layer_changed,
                env,
                cursor,
                ops,
            );
            proof {
                lemma_prefix_trans(ops_gc, ops_pre, ops@);
                lemma_prefix_trans(old(ops)@, ops_pre, ops@);
                assert(fid@ == dec_isize(ws.floating_windows@[fdx as int].hwnd));
                assert(ws_has_id(*ws, fid@));
                assert forall|x: Seq<char>|
                    has_border_id(self.borders@, x) implies has_border_id(bs_gc, x) || ws_has_id(
                    *ws,
                    x,
                ) by {
                    if x == fid@ {
                        assert(dec_isize(ws.floating_windows@[fdx as int].hwnd) == x);
                    } else {
                        assert(has_border_id(bs_pre, x));
                    }
                }
                if r is Done || r is RectFailed {
                    assert forall|j: int| 0 <= j < self.borders@.len() implies (in_borders(
                        #[trigger] self.borders@[j],
                        bs_pre,
                    ) || self.borders@[j].id@ == fid@) by {
                        if r is Done && j < self.borders@.len() - 1 {
                        }
                    }
                    assert forall|k: int|
                        0 <= k < bs_orig.len() && (!ws_claims_id(
                            *ws,
                            (#[trigger] bs_orig[k]).id@,
                        ) && !(bs_orig[k].monitor_idx matches Some(x) && x
                            == monitor_idx)) implies in_borders(bs_orig[k], self.borders@) by {
                        let b = bs_orig[k];
                        assert(in_borders(b, bs_pre));
                        assert(b.id@ != fid@);
                        assert(has_border_id(self.borders@, b.id@));
                        lemma_step_preserves_border(bs_pre, self.borders@, fid@, b);
                    }
                    assert forall|j: int| 0 <= j < self.borders@.len() implies (in_borders(
                        #[trigger] self.borders@[j],
                        bs_orig,
                    ) || self.borders@[j].monitor_idx == Some(monitor_idx)) by {
                        if r is Done && j == self.borders@.len() - 1 {
                            assert(self.borders@[j].monitor_idx == Some(monitor_idx));
                        } else {
                            assert(in_borders(self.borders@[j], bs_pre));
                            let k = choose|k: int|
                                0 <= k < bs_pre.len() && #[trigger] bs_pre[k]
                                    == self.borders@[j];
                        }
                    }
                    if clean {
                        assert forall|ci: int|
                            #![trigger ws.containers@[ci]]
                            0 <= ci < ws.containers@.len() && rect_lookup(
                                env.window_rects@,
                                container_target(ws.containers@[ci]),
                            ) is Some implies container_claim(
                            self.borders@,
                            *ws,
                            ci,
                            monitor_idx,
                            focused_monitor_idx,
                            foreground_window,
                        ) by {
                            let c0 = ws.containers@[ci];
                            assert(container_claim(
                                bs_pre,
                                *ws,
                                ci,
                                monitor_idx,
                                focused_monitor_idx,
                                foreground_window,
                            ));
                            let j0 = choose|j0: int|
                                0 <= j0 < bs_pre.len() && (#[trigger] bs_pre[j0]).id@ == c0.id@
                                    && bs_pre[j0].tracking_hwnd == container_target(c0)
                                    && bs_pre[j0].monitor_idx == Some(monitor_idx)
                                    && bs_pre[j0].window_kind == spec_container_kind(
                                    ci,
                                    ws.focused_container_idx as int,
                                    monitor_idx as int,
                                    focused_monitor_idx as int,
                                    container_target(c0),
                                    foreground_window,
                                    c0.windows@.len() as int,
                                    c0.locked,
                                );
                            let b = bs_pre[j0];
                            assert(in_borders(b, bs_pre));
                            assert(c0.id@ != fid@);
                            assert(has_border_id(self.borders@, b.id@));
                            lemma_step_preserves_border(bs_pre, self.borders@, fid@, b);
                        }
                    }
                }
            }
            match r {
                StepOutcome::CreateFailed => {
                    proof {
                        if clean {
                            assert(false);
                        }
                    }
                    return ;
                },
                _ => {},
            }
            fdx = fdx + 1;
        }
        proof {
            assert forall|k: int|
                0 <= k < bs_orig.len() && (((#[trigger] bs_orig[k]).monitor_idx matches Some(mi)
                    && mi == monitor_idx) && env.spec_visible(bs_orig[k].hwnd) && !ws_has_id(
                    *ws,
                    bs_orig[k].id@,
                )) implies !has_border_id(self.borders@, bs_orig[k].id@) by {
                assert(border_removable(
                    RemoveScope::NotInIds,
                    ids@,
                    monitor_idx as int,
                    *env,
                    bs_orig[k],
                ));
                if has_border_id(bs_gc, bs_orig[k].id@) {
                    let k2 = choose|k2: int|
                        0 <= k2 < bs_orig.len() && (#[trigger] bs_orig[k2]).id@ == bs_orig[k].id@
                            && !border_removable(
                            RemoveScope::NotInIds,
                            ids@,
                            monitor_idx as int,
                            *env,
                            bs_orig[k2],
                        );
                    if k2 != k {
                        if k2 < k {
                            assert(bs_orig[k2].id@ != bs_orig[k].id@);
                        } else {
                            assert(bs_orig[k].id@ != bs_orig[k2].id@);
                        }
                    }
                    assert(false);
                }
            }
        }
    }
}


/// The accent operations the native-accent pass owes the first `n`
/// containers of a workspace: each container's focused window gets the
/// colour of its focus classification (which, in this mode, does not
/// consult the foreground window).
pub open spec fn spec_accent_container_ops(
    ws: Workspace,
    mi: int,
    fmi: int,
    colours: WindowKindColours,
    n: int,
) -> Seq<NativeOp>
    decreases n,
{
    if n <= 0 {
        Seq::empty()
    } else {
        spec_accent_container_ops(ws, mi, fmi, colours, n - 1) + seq![
            NativeOp::SetAccent {
                hwnd: container_target(ws.containers@[n - 1]),
                colour: colours.spec_from_kind(
                    if n - 1 != ws.focused_container_idx || mi != fmi {
                        WindowKind::Unfocused
                    } else if ws.containers@[n - 1].windows@.len() > 1 {
                        WindowKind::Stack
                    } else {
                        WindowKind::Single
                    },
                ),
            },
        ]
    }
}

/// The accent operations owed to the first `n` floating windows: floating
/// colour for the foreground window, unfocused for the rest.
pub open spec fn spec_accent_float_ops(
    ws: Workspace,
    fg: isize,
    colours: WindowKindColours,
    n: int,
) -> Seq<NativeOp>
    decreases n,
{
    if n <= 0 {
        Seq::empty()
    } else {
        spec_accent_float_ops(ws, fg, colours, n - 1) + seq![
            NativeOp::SetAccent {
                hwnd: ws.floating_windows@[n - 1].hwnd,
                colour: colours.spec_from_kind(
                    if fg == ws.floating_windows@[n - 1].hwnd {
                        WindowKind::Floating
                    } else {
                        WindowKind::Unfocused
                    },
                ),
            },
        ]
    }
}

/// The accent operations owed to one focused workspace: a monocle container
/// is handled exclusively, else every container and floating window.
pub open spec fn spec_accent_ws_ops(
    ws: Workspace,
    mi: int,
    fmi: int,
    fg: isize,
    colours: WindowKindColours,
) -> Seq<NativeOp> {
    match ws.monocle_container {
        Some(mc) => seq![
            NativeOp::SetAccent {
                hwnd: container_target(mc),
                colour: colours.spec_from_kind(spec_monocle_kind(mi, fmi)),
            },
        ],
        None => spec_accent_container_ops(ws, mi, fmi, colours, ws.containers@.len() as int)
            + spec_accent_float_ops(ws, fg, colours, ws.floating_windows@.len() as int),
    }
}

/// The accent operations a native-accent pass over the first `n` monitors
/// performs, in order.
pub open spec fn spec_accent_ops(
    monitors: Seq<Monitor>,
    fmi: int,
    fg: isize,
    colours: WindowKindColours,
    n: int,
) -> Seq<NativeOp>
    decreases n,
{
    if n <= 0 {
        Seq::empty()
    } else {
        spec_accent_ops(monitors, fmi, fg, colours, n - 1) + (if monitor_has_ws(monitors[n - 1]) {
            spec_accent_ws_ops(monitor_ws(monitors[n - 1]), n - 1, fmi, fg, colours)
        } else {
            Seq::empty()
        })
    }
}

/// Whether the monitor's focused-workspace index is in bounds.
pub open spec fn monitor_has_ws(m: Monitor) -> bool {
    m.focused_workspace_idx < m.workspaces@.len()
}

/// The monitor's focused workspace.
pub open spec fn monitor_ws(m: Monitor) -> Workspace {
    m.workspaces@[m.focused_workspace_idx as int]
}

/// Snapshot hygiene across monitors: every focused workspace is hygienic,
/// and no border id is claimed by two monitors' focused workspaces.
pub open spec fn snapshot_ids_distinct(monitors: Seq<Monitor>) -> bool {
    &&& (forall|mi: int|
        0 <= mi < monitors.len() && monitor_has_ws(#[trigger] monitors[mi]) ==> ws_ids_distinct(
            monitor_ws(monitors[mi]),
        ))
    &&& (forall|mi: int, mj: int, x: Seq<char>|
        #![trigger ws_claims_id(monitor_ws(monitors[mi]), x), ws_claims_id(monitor_ws(monitors[mj]), x)]
        0 <= mi < monitors.len() && 0 <= mj < monitors.len() && mi != mj && monitor_has_ws(
            monitors[mi],
        ) && monitor_has_ws(monitors[mj]) ==> !(ws_claims_id(monitor_ws(monitors[mi]), x)
            && ws_claims_id(monitor_ws(monitors[mj]), x)))
}

/// Whether any focused workspace of the snapshot claims the border id.
pub open spec fn snapshot_claims_id(monitors: Seq<Monitor>, x: Seq<char>) -> bool {
    exists|mi: int|
        0 <= mi < monitors.len() && monitor_has_ws(#[trigger] monitors[mi]) && ws_claims_id(
            monitor_ws(monitors[mi]),
            x,
        )
}

/// An upper bound on the overlay windows one pass over the first `n`
/// monitors can create: every entity of every focused workspace.
pub open spec fn spec_entity_count(monitors: Seq<Monitor>, n: int) -> int
    decreases n,
{
    if n <= 0 {
        0
    } else {
        spec_entity_count(monitors, n - 1) + (if monitor_has_ws(monitors[n - 1]) {
            let ws = monitor_ws(monitors[n - 1]);
            ws.containers@.len() + ws.floating_windows@.len() + (
            if ws.monocle_container is Some {
                1int
            } else {
                0int
            })
        } else {
            0int
        })
    }
}

proof fn lemma_entity_count_mono(monitors: Seq<Monitor>, a: int, b: int)
    requires
        0 <= a <= b,
    ensures
        spec_entity_count(monitors, a) <= spec_entity_count(monitors, b),
    decreases b,
{
    if a < b {
        lemma_entity_count_mono(monitors, a, b - 1);
    }
}

impl BorderManager {
    /// One reconciliation pass: updates the border set against the snapshot
    /// `wm_info`, with `tracking_hwnd` as the focus hint and `env` as the
    /// native sample, and returns the native operations to execute, in
    /// order.
    ///
    /// The change gate carries the idempotence law: under the overlay
    /// implementation, without the forced flag, when no condition of
    /// `spec_gate` holds — in particular whenever the snapshot was already
    /// absorbed unchanged — no operation is returned and nothing changes.
    /// When a pass does run while borders are disabled, or the manager is
    /// paused, it destroys every border and clears both maps. When it runs
    /// in earnest over a hygienic snapshot with enough fresh handles, every
    /// readable container of every focused tiled workspace ends the pass
    /// with a border of its `spec_container_kind` classification, and every
    /// visible border of such a workspace's monitor whose id no workspace
    /// claims is gone. Under the native-accent implementation the returned
    /// operations are exactly `spec_accent_ops` of the snapshot.
    #[verifier::loop_isolation(false)]
    pub fn handle_border_update(
        &mut self,
        wm_info: WindowManagerInfo,
        tracking_hwnd: Option<isize>,
        forced: bool,
        env: &NativeEnv,
    ) -> (ops: Vec<NativeOp>)
        requires
            old(self).wf(),
        ensures
            final(self).wf(),
            (old(self).border_implementation is Komorebi && !forced && !old(self).spec_gate(
                wm_info,
                tracking_hwnd,
                env.foreground_window,
            )) ==> (ops@ == Seq::<NativeOp>::empty() && *final(self) == *old(self)),
            (old(self).border_implementation is Komorebi && (forced || old(self).spec_gate(
                wm_info,
                tracking_hwnd,
                env.foreground_window,
            )) && (!old(self).enabled || wm_info.is_paused)) ==> ({
                &&& final(self).borders@.len() == 0
                &&& final(self).windows_borders@.len() == 0
                &&& ops@.len() == old(self).borders@.len()
                &&& forall|k: int|
                    0 <= k < old(self).borders@.len() ==> ops@[k] == (NativeOp::DestroyBorder {
                        border_hwnd: (#[trigger] old(self).borders@[k]).hwnd,
                    })
            }),
            (old(self).border_implementation is Komorebi && (forced || old(self).spec_gate(
                wm_info,
                tracking_hwnd,
                env.foreground_window,
            )) && old(self).enabled && !wm_info.is_paused) ==> (final(self).wm_info == wm_info
                && final(self).tracking_hwnd == tracking_hwnd),
            (old(self).border_implementation is Komorebi && (forced || old(self).spec_gate(
                wm_info,
                tracking_hwnd,
                env.foreground_window,
            )) && old(self).enabled && !wm_info.is_paused && snapshot_ids_distinct(
                wm_info.monitors@,
            ) && spec_entity_count(wm_info.monitors@, wm_info.monitors@.len() as int)
                <= env.fresh_border_hwnds@.len()) ==> (forall|mi: int|
                0 <= mi < wm_info.monitors@.len() && monitor_has_ws(
                    #[trigger] wm_info.monitors@[mi],
                ) ==> ({
                    let ws = monitor_ws(wm_info.monitors@[mi]);
                    (ws.tile && ws.monocle_container is None && !(env.foreground_monitor_id
                        == wm_info.monitors@[mi].id && env.foreground_zoomed)) ==> (forall|ci: int|
                        #![trigger ws.containers@[ci]]
                        0 <= ci < ws.containers@.len() && rect_lookup(
                            env.window_rects@,
                            container_target(ws.containers@[ci]),
                        ) is Some ==> container_claim(
                            final(self).borders@,
                            ws,
                            ci,
                            mi as usize,
                            wm_info.focused_monitor_idx,
                            env.foreground_window,
                        ))
                })),
            (old(self).border_implementation is Komorebi && (forced || old(self).spec_gate(
                wm_info,
                tracking_hwnd,
                env.foreground_window,
            )) && old(self).enabled && !wm_info.is_paused && snapshot_ids_distinct(
                wm_info.monitors@,
            ) && spec_entity_count(wm_info.monitors@, wm_info.monitors@.len() as int)
                <= env.fresh_border_hwnds@.len()) ==> (forall|mi: int|
                0 <= mi < wm_info.monitors@.len() && monitor_has_ws(
                    #[trigger] wm_info.monitors@[mi],
                ) ==> ({
                    let ws = monitor_ws(wm_info.monitors@[mi]);
                    (ws.tile && ws.monocle_container is None && !(env.foreground_monitor_id
                        == wm_info.monitors@[mi].id && env.foreground_zoomed)) ==> (forall|k: int|
                        0 <= k < old(self).borders@.len() ==> ({
                            let b = #[trigger] old(self).borders@[k];
                            (b.monitor_idx matches Some(x) && x == mi && env.spec_visible(b.hwnd)
                                && !snapshot_claims_id(wm_info.monitors@, b.id@))
                                ==> !has_border_id(final(self).borders@, b.id@)
                        }))
                })),
            (old(self).border_implementation is Windows) ==> (final(self).wm_info == wm_info
                && final(self).tracking_hwnd == tracking_hwnd
                && final(self).borders@ == old(self).borders@
                && final(self).windows_borders@ == old(self).windows_borders@),
            (old(self).border_implementation is Windows) ==> ops@ == spec_accent_ops(
                wm_info.monitors@,
                wm_info.focused_monitor_idx as int,
                env.foreground_window,
                old(self).kind_colours,
                wm_info.monitors@.len() as int,
            ),
    {
        let mut ops: Vec<NativeOp> = Vec::new();
        let fg = env.foreground_window;
        let layer_changed = !(self.wm_info.workspace_layer == wm_info.workspace_layer);
        match self.border_implementation {
            BorderImplementation::Windows => {
                // Native-accent mode: set an accent colour on every visible
                // focused element; no overlay windows exist.
                let ghost monitors = wm_info.monitors@;
                let ghost fmi = wm_info.focused_monitor_idx as int;
                let ghost colours = self.kind_colours;
                let mut mi: usize = 0;
                while mi < wm_info.monitors.len()
                    invariant
                        self.borders@ == old(self).borders@,
                        self.windows_borders@ == old(self).windows_borders@,
                        *self == *old(self),
                        0 <= mi <= monitors.len(),
                        ops@ == spec_accent_ops(monitors, fmi, fg, colours, mi as int),
                    decreases wm_info.monitors@.len() - mi,
                {
                    let m = &wm_info.monitors[mi];
                    let ghost ops_mon = ops@;
                    match m.focused_workspace() {
                        Some(ws) => {
                            proof {
                                assert(*ws == monitor_ws(monitors[mi as int]));
                            }
                            match &ws.monocle_container {
                                Some(monocle) => {
                                    let kind = if mi != wm_info.focused_monitor_idx {
                                        WindowKind::Unfocused
                                    } else {
                                        WindowKind::Monocle
                                    };
                                    let h = match monocle.focused_window() {
                                        Some(w) => w.hwnd,
                                        None => 0,
                                    };
                                    ops.push(
                                        NativeOp::SetAccent {
                                            hwnd: h,
                                            colour: self.kind_colours.from_kind(kind),
                                        },
                                    );
                                    proof {
                                        assert(h == container_target(*monocle));
                                        assert(kind == spec_monocle_kind(mi as int, fmi));
                                        assert(ops@ =~= ops_mon + spec_accent_ws_ops(
                                            *ws,
                                            mi as int,
                                            fmi,
                                            fg,
                                            colours,
                                        ));
                                    }
                                },
                                None => {
                                    let mut idx: usize = 0;
                                    while idx < ws.containers.len()
                                        invariant
                                            *self == *old(self),
                                            0 <= idx <= ws.containers@.len(),
                                            ops@ == ops_mon + spec_accent_container_ops(
                                                *ws,
                                                mi as int,
                                                fmi,
                                                colours,
                                                idx as int,
                                            ),
                                        decreases ws.containers@.len() - idx,
                                    {
                                        let c = &ws.containers[idx];
                                        let kind = if idx != ws.focused_container_idx || mi
                                            != wm_info.focused_monitor_idx {
                                            WindowKind::Unfocused
                                        } else if c.windows.len() > 1 {
                                            WindowKind::Stack
                                        } else {
                                            WindowKind::Single
                                        };
                                        let h = match c.focused_window() {
                                            Some(w) => w.hwnd,
                                            None => 0,
                                        };
                                        ops.push(
                                            NativeOp::SetAccent {
                                                hwnd: h,
                                                colour: self.kind_colours.from_kind(kind),
                                            },
                                        );
                                        proof {
                                            assert(h == container_target(
                                                ws.containers@[idx as int],
                                            ));
                                            assert(ops@ =~= ops_mon + spec_accent_container_ops(
                                                *ws,
                                                mi as int,
                                                fmi,
                                                colours,
                                                idx as int + 1,
                                            ));
                                        }
                                        idx = idx + 1;
                                    }
                                    let mut fdx: usize = 0;
                                    while fdx < ws.floating_windows.len()
                                        invariant
                                            *self == *old(self),
                                            0 <= fdx <= ws.floating_windows@.len(),
                                            ops@ == ops_mon + spec_accent_container_ops(
                                                *ws,
                                                mi as int,
                                                fmi,
                                                colours,
                                                ws.containers@.len() as int,
                                            ) + spec_accent_float_ops(
                                                *ws,
                                                fg,
                                                colours,
                                                fdx as int,
                                            ),
                                        decreases ws.floating_windows@.len() - fdx,
                                    {
                                        let w = ws.floating_windows[fdx];
                                        let kind = if fg == w.hwnd {
                                            WindowKind::Floating
                                        } else {
                                            WindowKind::Unfocused
                                        };
                                        ops.push(
                                            NativeOp::SetAccent {
                                                hwnd: w.hwnd,
                                                colour: self.kind_colours.from_kind(kind),
                                            },
                                        );
                                        proof {
                                            assert(ops@ =~= ops_mon + spec_accent_container_ops(
                                                *ws,
                                                mi as int,
                                                fmi,
                                                colours,
                                                ws.containers@.len() as int,
                                            ) + spec_accent_float_ops(
                                                *ws,
                                                fg,
                                                colours,
                                                fdx as int + 1,
                                            ));
                                        }
                                        fdx = fdx + 1;
                                    }
                                    proof {
                                        assert(ops@ =~= ops_mon + spec_accent_ws_ops(
                                            *ws,
                                            mi as int,
                                            fmi,
                                            fg,
                                            colours,
                                        ));
                                    }
                                },
                            }
                            proof {
                                assert(ops@ =~= spec_accent_ops(
                                    monitors,
                                    fmi,
                                    fg,
                                    colours,
                                    mi as int + 1,
                                ));
                            }
                        },
                        None => {
                            proof {
                                assert(!monitor_has_ws(monitors[mi as int]));
                                assert(ops@ =~= spec_accent_ops(
                                    monitors,
                                    fmi,
                                    fg,
                                    colours,
                                    mi as int + 1,
                                ));
                            }
                        },
                    }
                    mi = mi + 1;
                }
            },
            BorderImplementation::Komorebi => {
                let should = forced || self.should_process(&wm_info, tracking_hwnd, fg);
                if !should {
                    return ops;
                }
                // Borders disabled, or the manager paused: destroy every
                // known overlay and clear the reverse index.
                if !self.enabled || wm_info.is_paused {
                    self.sweep_borders(&mut ops);
                    self.wm_info.is_paused = wm_info.is_paused;
                    return ops;
                }
                let mut cursor: usize = 0;
                let ghost monitors = wm_info.monitors@;
                let ghost bs_orig0 = self.borders@;
                let ghost clean_all = snapshot_ids_distinct(monitors) && spec_entity_count(
                    monitors,
                    monitors.len() as int,
                ) <= env.fresh_border_hwnds@.len();
                let mut mi: usize = 0;
                while mi < wm_info.monitors.len()
                    invariant
                        self.wf(),
                        0 <= mi <= monitors.len(),
                        cursor <= env.fresh_border_hwnds@.len(),
                        cursor <= spec_entity_count(monitors, mi as int),
                        self.enabled == old(self).enabled,
                        self.border_implementation == old(self).border_implementation,
                        clean_all ==> (forall|mi0: int|
                            0 <= mi0 < mi && monitor_has_ws(#[trigger] monitors[mi0]) ==> ({
                                let ws0 = monitor_ws(monitors[mi0]);
                                (ws0.tile && ws0.monocle_container is None && !(
                                env.foreground_monitor_id == monitors[mi0].id
                                    && env.foreground_zoomed)) ==> (forall|ci: int|
                                    #![trigger ws0.containers@[ci]]
                                    0 <= ci < ws0.containers@.len() && rect_lookup(
                                        env.window_rects@,
                                        container_target(ws0.containers@[ci]),
                                    ) is Some ==> container_claim(
                                        self.borders@,
                                        ws0,
                                        ci,
                                        mi0 as usize,
                                        wm_info.focused_monitor_idx,
                                        env.foreground_window,
                                    ))
                            })),
                        clean_all ==> (forall|k: int|
                            0 <= k < bs_orig0.len() ==> ({
                                let b = #[trigger] bs_orig0[k];
                                (!snapshot_claims_id(monitors, b.id@) && (b.monitor_idx
                                    matches Some(x) && mi <= x)) ==> in_borders(
                                    b,
                                    self.borders@,
                                )
                            })),
                        clean_all ==> (forall|k: int|
                            0 <= k < bs_orig0.len() ==> ({
                                let b = #[trigger] bs_orig0[k];
                                (!snapshot_claims_id(monitors, b.id@) && (b.monitor_idx
                                    matches Some(x) && x < mi && x < monitors.len()
                                    && monitor_has_ws(monitors[x as int]) && ({
                                    let ws0 = monitor_ws(monitors[x as int]);
                                    ws0.tile && ws0.monocle_container is None && !(
                                    env.foreground_monitor_id == monitors[x as int].id
                                        && env.foreground_zoomed)
                                }) && env.spec_visible(b.hwnd))) ==> !has_border_id(
                                    self.borders@,
                                    b.id@,
                                )
                            })),
                    decreases wm_info.monitors@.len() - mi,
                {
                    let m = &wm_info.monitors[mi];
                    let m_id = m.id;
                    match m.focused_workspace() {
                        Some(ws) => {
                            proof {
                                assert(*ws == monitor_ws(monitors[mi as int]));
                                assert(monitor_has_ws(monitors[mi as int]));
                                if clean_all {
                                    lemma_entity_count_mono(
                                        monitors,
                                        mi as int + 1,
                                        monitors.len() as int,
                                    );
                                }
                            }
                            let ghost bs_pre = self.borders@;
                            let ghost cursor_pre = cursor as int;
                            self.reconcile_monitor(
                                mi,
                                m_id,
                                ws,
                                wm_info.focused_monitor_idx,
                                fg,
                                layer_changed,
                                env,
                                &mut cursor,
                                &mut ops,
                            );
                            proof {
                                assert(cursor <= spec_entity_count(monitors, mi as int + 1));
                                if clean_all {
                                    let ws_cur = monitor_ws(monitors[mi as int]);
                                    // the budget covers this workspace, so
                                    // the per-monitor classification clause
                                    // applies
                                    assert(cursor_pre + ws_cur.containers@.len()
                                        + ws_cur.floating_windows@.len()
                                        <= env.fresh_border_hwnds@.len());
                                    assert(ws_ids_distinct(ws_cur));
                                    // earlier monitors' claims survive: their
                                    // borders are foreign to this workspace
                                    assert forall|mi0: int|
                                        0 <= mi0 < mi && monitor_has_ws(
                                            #[trigger] monitors[mi0],
                                        ) implies ({
                                        let ws0 = monitor_ws(monitors[mi0]);
                                        (ws0.tile && ws0.monocle_container is None && !(
                                        env.foreground_monitor_id == monitors[mi0].id
                                            && env.foreground_zoomed)) ==> (forall|ci: int|
                                            #![trigger ws0.containers@[ci]]
                                            0 <= ci < ws0.containers@.len() && rect_lookup(
                                                env.window_rects@,
                                                container_target(ws0.containers@[ci]),
                                            ) is Some ==> container_claim(
                                                self.borders@,
                                                ws0,
                                                ci,
                                                mi0 as usize,
                                                wm_info.focused_monitor_idx,
                                                env.foreground_window,
                                            ))
                                    }) by {
                                        let ws0 = monitor_ws(monitors[mi0]);
                                        if ws0.tile && ws0.monocle_container is None && !(
                                        env.foreground_monitor_id == monitors[mi0].id
                                            && env.foreground_zoomed) {
                                            assert forall|ci: int|
                                                #![trigger ws0.containers@[ci]]
                                                0 <= ci < ws0.containers@.len() && rect_lookup(
                                                    env.window_rects@,
                                                    container_target(ws0.containers@[ci]),
                                                ) is Some implies container_claim(
                                                self.borders@,
                                                ws0,
                                                ci,
                                                mi0 as usize,
                                                wm_info.focused_monitor_idx,
                                                env.foreground_window,
                                            ) by {
                                                let c0 = ws0.containers@[ci];
                                                assert(container_claim(
                                                    bs_pre,
                                                    ws0,
                                                    ci,
                                                    mi0 as usize,
                                                    wm_info.focused_monitor_idx,
                                                    env.foreground_window,
                                                ));
                                                let j0 = choose|j0: int|
                                                    0 <= j0 < bs_pre.len() && (
                                                    #[trigger] bs_pre[j0]).id@ == c0.id@
                                                        && bs_pre[j0].tracking_hwnd
                                                        == container_target(c0)
                                                        && bs_pre[j0].monitor_idx == Some(
                                                        mi0 as usize,
                                                    ) && bs_pre[j0].window_kind
                                                        == spec_container_kind(
                                                        ci,
                                                        ws0.focused_container_idx as int,
                                                        mi0 as int,
                                                        wm_info.focused_monitor_idx as int,
                                                        container_target(c0),
                                                        env.foreground_window,
                                                        c0.windows@.len() as int,
                                                        c0.locked,
                                                    );
                                                let b = bs_pre[j0];
                                                assert(ws_claims_id(ws0, b.id@));
                                                assert(!ws_claims_id(ws_cur, b.id@));
                                                assert(in_borders(b, self.borders@));
                                            }
                                        }
                                    }
                                    // untouched foreign borders survive to
                                    // their own monitor's pass
                                    assert forall|k: int|
                                        0 <= k < bs_orig0.len() && ({
                                            let b = #[trigger] bs_orig0[k];
                                            !snapshot_claims_id(monitors, b.id@)
                                                && (b.monitor_idx matches Some(x) && mi + 1 <= x)
                                        }) implies in_borders(bs_orig0[k], self.borders@) by {
                                        let b = bs_orig0[k];
                                        assert(!ws_claims_id(ws_cur, b.id@));
                                        assert(in_borders(b, bs_pre));
                                    }
                                    // sweeps stay swept, and this monitor's
                                    // own sweep lands
                                    assert forall|k: int|
                                        0 <= k < bs_orig0.len() && ({
                                            let b = #[trigger] bs_orig0[k];
                                            !snapshot_claims_id(monitors, b.id@)
                                                && (b.monitor_idx matches Some(x) && x < mi + 1
                                                && x < monitors.len() && monitor_has_ws(
                                                monitors[x as int],
                                            ) && ({
                                                let ws0 = monitor_ws(monitors[x as int]);
                                                ws0.tile && ws0.monocle_container is None && !(
                                                env.foreground_monitor_id
                                                    == monitors[x as int].id
                                                    && env.foreground_zoomed)
                                            }) && env.spec_visible(b.hwnd))
                                        }) implies !has_border_id(
                                        self.borders@,
                                        bs_orig0[k].id@,
                                    ) by {
                                        let b = bs_orig0[k];
                                        if b.monitor_idx matches Some(x) && x < mi {
                                            assert(!has_border_id(bs_pre, b.id@));
                                            if has_border_id(self.borders@, b.id@) {
                                                assert(ws_claims_id(ws_cur, b.id@));
                                                assert(snapshot_claims_id(monitors, b.id@));
                                            }
                                        } else {
                                            assert(b.monitor_idx matches Some(x) && x == mi);
                                            assert(in_borders(b, bs_pre));
                                            let kp = choose|kp: int|
                                                0 <= kp < bs_pre.len() && #[trigger] bs_pre[kp]
                                                    == b;
                                            assert(!ws_has_id(*ws, b.id@));
                                            assert(!has_border_id(self.borders@, b.id@));
                                        }
                                    }
                                }
                            }
                        },
                        None => {
                            proof {
                                assert(spec_entity_count(monitors, mi as int) <= spec_entity_count(
                                    monitors,
                                    mi as int + 1,
                                ));
                            }
                        },
                    }
                    mi = mi + 1;
                }
                proof {
                    if clean_all {
                        assert(mi == monitors.len());
                    }
                }
            },
        }
        self.wm_info = wm_info;
        self.tracking_hwnd = tracking_hwnd;
        ops
    }

    /// Consumes one control request: an update runs a reconciliation pass,
    /// the rest act on the border of one tracked window.
    pub fn update(
        &mut self,
        message: BorderMessage,
        wm_info: WindowManagerInfo,
        env: &NativeEnv,
    ) -> (ops: Vec<NativeOp>)
        requires
            old(self).wf(),
        ensures
            final(self).wf(),
            (message matches BorderMessage::Update(hint)
                ==> (old(self).border_implementation is Komorebi && !old(self).spec_gate(
                wm_info,
                hint,
                env.foreground_window,
            ) ==> ops@ == Seq::<NativeOp>::empty() && *final(self) == *old(self))),
            (message matches BorderMessage::Update(hint)
                ==> (old(self).border_implementation is Komorebi && old(self).spec_gate(
                wm_info,
                hint,
                env.foreground_window,
            ) && (!old(self).enabled || wm_info.is_paused) ==> final(self).borders@.len() == 0
                && final(self).windows_borders@.len() == 0)),
            (message matches BorderMessage::ForceUpdate(hint)
                ==> (old(self).border_implementation is Komorebi && (!old(self).enabled
                || wm_info.is_paused) ==> final(self).borders@.len() == 0
                && final(self).windows_borders@.len() == 0)),
            (message matches BorderMessage::Show(h) ==> *final(self) == *old(self) && (ix_has_key(
                old(self).windows_borders@,
                h,
            ) ==> ops@.len() == 1 && exists|j: int|
                0 <= j < old(self).borders@.len() && ix_has(
                    old(self).windows_borders@,
                    h,
                    (#[trigger] old(self).borders@[j]).id@,
                ) && ops@[0] == (NativeOp::RestoreWindow { hwnd: old(self).borders@[j].hwnd }))
                && (!ix_has_key(old(self).windows_borders@, h) ==> ops@.len() == 0)),
            (message matches BorderMessage::Hide(h) ==> *final(self) == *old(self) && (ix_has_key(
                old(self).windows_borders@,
                h,
            ) ==> ops@.len() == 1 && exists|j: int|
                0 <= j < old(self).borders@.len() && ix_has(
                    old(self).windows_borders@,
                    h,
                    (#[trigger] old(self).borders@[j]).id@,
                ) && ops@[0] == (NativeOp::HideWindow { hwnd: old(self).borders@[j].hwnd })) && (
            !ix_has_key(old(self).windows_borders@, h) ==> ops@.len() == 0)),
            (message matches BorderMessage::Raise(h) ==> *final(self) == *old(self) && (ix_has_key(
                old(self).windows_borders@,
                h,
            ) ==> ops@.len() == 1 && exists|j: int|
                0 <= j < old(self).borders@.len() && ix_has(
                    old(self).windows_borders@,
                    h,
                    (#[trigger] old(self).borders@[j]).id@,
                ) && ops@[0] == (NativeOp::RaiseWindow { hwnd: old(self).borders@[j].hwnd })) && (
            !ix_has_key(old(self).windows_borders@, h) ==> ops@.len() == 0)),
            (message matches BorderMessage::Lower(h) ==> *final(self) == *old(self) && (ix_has_key(
                old(self).windows_borders@,
                h,
            ) ==> ops@.len() == 1 && exists|j: int|
                0 <= j < old(self).borders@.len() && ix_has(
                    old(self).windows_borders@,
                    h,
                    (#[trigger] old(self).borders@[j]).id@,
                ) && ops@[0] == (NativeOp::LowerWindow { hwnd: old(self).borders@[j].hwnd })) && (
            !ix_has_key(old(self).windows_borders@, h) ==> ops@.len() == 0)),
            (message matches BorderMessage::PassEvent(h, ev) ==> *final(self) == *old(self) && (
            ix_has_key(old(self).windows_borders@, h) ==> ops@.len() == 1 && exists|j: int|
                0 <= j < old(self).borders@.len() && ix_has(
                    old(self).windows_borders@,
                    h,
                    (#[trigger] old(self).borders@[j]).id@,
                ) && ops@[0] == (NativeOp::NotifyBorder {
                    border_hwnd: old(self).borders@[j].hwnd,
                    event: ev,
                    tracking_hwnd: h,
                })) && (!ix_has_key(old(self).windows_borders@, h) ==> ops@.len() == 0)),
            (message matches BorderMessage::Delete(h) ==> ({
                &&& (!ix_has_key(old(self).windows_borders@, h) ==> *final(self) == *old(self)
                    && ops@.len() == 0)
                &&& (ix_has_key(old(self).windows_borders@, h) ==> ({
                    &&& !ix_has_key(final(self).windows_borders@, h)
                    &&& (forall|x: Seq<char>|
                        has_border_id(final(self).borders@, x) <==> (has_border_id(
                            old(self).borders@,
                            x,
                        ) && !ix_has(old(self).windows_borders@, h, x)))
                    &&& ops@.len() == 1
                    &&& exists|k: int|
                        0 <= k < old(self).borders@.len() && ix_has(
                            old(self).windows_borders@,
                            h,
                            (#[trigger] old(self).borders@[k]).id@,
                        ) && ops@[0] == (NativeOp::DestroyBorder {
                            border_hwnd: old(self).borders@[k].hwnd,
                        })
                }))
            })),
            (message is DestroyAll ==> final(self).borders@.len() == 0
                && final(self).windows_borders@.len() == 0),
    {
        match message {
            BorderMessage::Update(tracking_hwnd) => {
                self.handle_border_update(wm_info, tracking_hwnd, false, env)
            },
            BorderMessage::ForceUpdate(tracking_hwnd) => {
                self.handle_border_update(wm_info, tracking_hwnd, true, env)
            },
            BorderMessage::PassEvent(tracking_hwnd, event) => {
                let mut ops: Vec<NativeOp> = Vec::new();
                let border_info = self.window_border(tracking_hwnd);
                match border_info {
                    Some(info) => {
                        ops.push(
                            NativeOp::NotifyBorder {
                                border_hwnd: info.border_hwnd,
                                event,
                                tracking_hwnd,
                            },
                        );
                    },
                    None => {},
                }
                ops
            },
            BorderMessage::Delete(tracking_hwnd) => {
                let mut ops: Vec<NativeOp> = Vec::new();
                let e = self.ix_find(tracking_hwnd);
                match e {
                    Some(i) => {
                        let id = self.windows_borders[i].1.clone();
                        proof {
                            assert(ix_has(self.windows_borders@, tracking_hwnd, id@));
                            assert(entry_consistent(
                                self.borders@,
                                self.windows_borders@[i as int].0,
                                self.windows_borders@[i as int].1@,
                            ));
                        }
                        let ghost bs0 = self.borders@;
                        let ghost ix0 = self.windows_borders@;
                        self.remove_border(&id, &mut ops);
                        proof {
                            if ix_has_key(self.windows_borders@, tracking_hwnd) {
                                let e2 = choose|e2: int|
                                    0 <= e2 < self.windows_borders@.len() && (
                                    #[trigger] self.windows_borders@[e2]).0 == tracking_hwnd;
                                let v2 = self.windows_borders@[e2].1@;
                                assert(ix_has(self.windows_borders@, tracking_hwnd, v2));
                                assert(ix_has(ix0, tracking_hwnd, v2));
                                // the reverse index held one entry for this
                                // window, and it was removed with the border
                                let e3 = choose|e3: int|
                                    0 <= e3 < ix0.len() && ix0[e3].0 == tracking_hwnd && (
                                    #[trigger] ix0[e3].1)@ == v2;
                                if e3 != i as int {
                                    if e3 < i as int {
                                        assert(ix0[e3].0 != ix0[i as int].0);
                                    } else {
                                        assert(ix0[i as int].0 != ix0[e3].0);
                                    }
                                }
                                assert(v2 == id@);
                                let k = choose|k: int|
                                    0 <= k < bs0.len() && (#[trigger] bs0[k]).id@ == id@
                                        && bs0[k].tracking_hwnd == tracking_hwnd;
                                assert(has_border_id(bs0, id@));
                                assert(!has_border_id(self.borders@, id@));
                                let jx = choose|jx: int|
                                    0 <= jx < self.borders@.len() && (
                                    #[trigger] self.borders@[jx]).id@ == v2
                                        && self.borders@[jx].tracking_hwnd == tracking_hwnd;
                                assert(false);
                            }
                            // With unique keys, the only pair the index held
                            // for this window is (tracking_hwnd, id), so the
                            // id-based removal effect is the key-based one.
                            assert forall|x: Seq<char>|
                                has_border_id(self.borders@, x) <==> (has_border_id(bs0, x)
                                    && !ix_has(ix0, tracking_hwnd, x)) by {
                                if ix_has(ix0, tracking_hwnd, x) {
                                    let e4 = choose|e4: int|
                                        0 <= e4 < ix0.len() && ix0[e4].0 == tracking_hwnd && (
                                        #[trigger] ix0[e4].1)@ == x;
                                    if e4 != i as int {
                                        if e4 < i as int {
                                            assert(ix0[e4].0 != ix0[i as int].0);
                                        } else {
                                            assert(ix0[i as int].0 != ix0[e4].0);
                                        }
                                    }
                                    assert(x == id@);
                                }
                            }
                            assert(has_border_id(bs0, id@));
                            let k0 = choose|k0: int|
                                0 <= k0 < bs0.len() && (#[trigger] bs0[k0]).id@ == id@;
                            assert(ix_has(ix0, tracking_hwnd, bs0[k0].id@));
                        }
                    },
                    None => {},
                }
                ops
            },
            BorderMessage::Show(tracking_hwnd) => {
                let mut ops: Vec<NativeOp> = Vec::new();
                let border_info = self.window_border(tracking_hwnd);
                match border_info {
                    Some(info) => {
                        ops.push(NativeOp::RestoreWindow { hwnd: info.border_hwnd });
                    },
                    None => {},
                }
                ops
            },
            BorderMessage::Hide(tracking_hwnd) => {
                let mut ops: Vec<NativeOp> = Vec::new();
                let border_info = self.window_border(tracking_hwnd);
                match border_info {
                    Some(info) => {
                        ops.push(NativeOp::HideWindow { hwnd: info.border_hwnd });
                    },
                    None => {},
                }
                ops
            },
            BorderMessage::Raise(tracking_hwnd) => {
                let mut ops: Vec<NativeOp> = Vec::new();
                let border_info = self.window_border(tracking_hwnd);
                match border_info {
                    Some(info) => {
                        ops.push(NativeOp::RaiseWindow { hwnd: info.border_hwnd });
                    },
                    None => {},
                }
                ops
            },
            BorderMessage::Lower(tracking_hwnd) => {
                let mut ops: Vec<NativeOp> = Vec::new();
                let border_info = self.window_border(tracking_hwnd);
                match border_info {
                    Some(info) => {
                        ops.push(NativeOp::LowerWindow { hwnd: info.border_hwnd });
                    },
                    None => {},
                }
                ops
            },
            BorderMessage::DestroyAll => {
                let mut ops: Vec<NativeOp> = Vec::new();
                self.destroy_all_borders(&mut ops);
                ops
            },
        }
    }
}

/// Idempotence: once a pass has absorbed a snapshot, an identical snapshot
/// with no forced flag leaves every condition of `spec_gate` false, so a
/// second pass performs no native work: by the first clause of
/// `handle_border_update`, it returns no operations and leaves the engine
/// untouched.
pub proof fn lemma_reconcile_idempotent(
    bm: BorderManager,
    info: WindowManagerInfo,
    hint: Option<isize>,
    fg: isize,
)
    requires
        monitors_eq(info.monitors@, bm.wm_info.monitors@),
        info.pending_move_op == bm.wm_info.pending_move_op,
        info.is_paused == bm.wm_info.is_paused,
        bm.borders@.len() > 0,
        !bm.tracked_kind_is(hint_or_zero(hint), WindowKind::Unfocused),
        !bm.spec_switch_floating(info, hint_or_zero(hint), fg),
        bm.tracking_hwnd is None || bm.tracking_hwnd == Some(hint_or_zero(hint)),
    ensures
        !bm.spec_gate(info, hint, fg),
{
}

/// At-most-one binding: in a well-formed engine — and every pass keeps the
/// engine well-formed — the reverse index binds a window to at most one
/// border, and the bound border exists and tracks exactly that window.
pub proof fn lemma_at_most_one_binding(bm: BorderManager, w: isize)
    requires
        bm.wf(),
    ensures
        forall|i: int, j: int|
            #![trigger bm.windows_borders@[i], bm.windows_borders@[j]]
            0 <= i < bm.windows_borders@.len() && 0 <= j < bm.windows_borders@.len()
                && bm.windows_borders@[i].0 == w && bm.windows_borders@[j].0 == w ==> i == j,
        forall|i: int|
            0 <= i < bm.windows_borders@.len() && (#[trigger] bm.windows_borders@[i]).0 == w
                ==> entry_consistent(bm.borders@, w, bm.windows_borders@[i].1@),
{
    assert forall|i: int, j: int|
        #![trigger bm.windows_borders@[i], bm.windows_borders@[j]]
        0 <= i < bm.windows_borders@.len() && 0 <= j < bm.windows_borders@.len()
            && bm.windows_borders@[i].0 == w && bm.windows_borders@[j].0 == w implies i == j by {
        if i < j {
            assert(bm.windows_borders@[i].0 != bm.windows_borders@[j].0);
        }
        if j < i {
            assert(bm.windows_borders@[j].0 != bm.windows_borders@[i].0);
        }
    }
}


/// Removes the border around window with `tracking_hwnd` if it exists.
pub fn delete_border(rt: &mut crate::runtime::Runtime, tracking_hwnd: isize) -> (accepted: bool)
    ensures
        crate::runtime::control_submitted(
            *old(rt),
            *final(rt),
            accepted,
            crate::runtime::Control::Border(BorderMessage::Delete(tracking_hwnd)),
        ),
{
    crate::runtime::send_message(
        rt,
        crate::runtime::Message::Control(
            crate::runtime::Control::Border(BorderMessage::Delete(tracking_hwnd)),
        ),
    )
}

/// Destroys all known and unknown borders.
pub fn destroy_all_borders(rt: &mut crate::runtime::Runtime) -> (accepted: bool)
    ensures
        crate::runtime::control_submitted(
            *old(rt),
            *final(rt),
            accepted,
            crate::runtime::Control::Border(BorderMessage::DestroyAll),
        ),
{
    crate::runtime::send_message(
        rt,
        crate::runtime::Message::Control(crate::runtime::Control::Border(
            BorderMessage::DestroyAll,
        )),
    )
}

/// Shows the border around window with `tracking_hwnd` if it exists.
pub fn show_border(rt: &mut crate::runtime::Runtime, tracking_hwnd: isize) -> (accepted: bool)
    ensures
        crate::runtime::control_submitted(
            *old(rt),
            *final(rt),
            accepted,
            crate::runtime::Control::Border(BorderMessage::Show(tracking_hwnd)),
        ),
{
    crate::runtime::send_message(
        rt,
        crate::runtime::Message::Control(
            crate::runtime::Control::Border(BorderMessage::Show(tracking_hwnd)),
        ),
    )
}

/// Hides the border around window with `tracking_hwnd` if it exists.
pub fn hide_border(rt: &mut crate::runtime::Runtime, tracking_hwnd: isize) -> (accepted: bool)
    ensures
        crate::runtime::control_submitted(
            *old(rt),
            *final(rt),
            accepted,
            crate::runtime::Control::Border(BorderMessage::Hide(tracking_hwnd)),
        ),
{
    crate::runtime::send_message(
        rt,
        crate::runtime::Message::Control(
            crate::runtime::Control::Border(BorderMessage::Hide(tracking_hwnd)),
        ),
    )
}

/// Raises the border around window with `tracking_hwnd` if it exists.
pub fn raise_border(rt: &mut crate::runtime::Runtime, tracking_hwnd: isize) -> (accepted: bool)
    ensures
        crate::runtime::control_submitted(
            *old(rt),
            *final(rt),
            accepted,
            crate::runtime::Control::Border(BorderMessage::Raise(tracking_hwnd)),
        ),
{
    crate::runtime::send_message(
        rt,
        crate::runtime::Message::Control(
            crate::runtime::Control::Border(BorderMessage::Raise(tracking_hwnd)),
        ),
    )
}

/// Lowers the border around window with `tracking_hwnd` if it exists.
pub fn lower_border(rt: &mut crate::runtime::Runtime, tracking_hwnd: isize) -> (accepted: bool)
    ensures
        crate::runtime::control_submitted(
            *old(rt),
            *final(rt),
            accepted,
            crate::runtime::Control::Border(BorderMessage::Lower(tracking_hwnd)),
        ),
{
    crate::runtime::send_message(
        rt,
        crate::runtime::Message::Control(
            crate::runtime::Control::Border(BorderMessage::Lower(tracking_hwnd)),
        ),
    )
}

/// Sends a border update to the runtime, with the optional `hwnd` as the
/// tracking handle that might have triggered it.
pub fn send_notification(rt: &mut crate::runtime::Runtime, hwnd: Option<isize>) -> (accepted:
    bool)
    ensures
        crate::runtime::control_submitted(
            *old(rt),
            *final(rt),
            accepted,
            crate::runtime::Control::Border(BorderMessage::Update(hwnd)),
        ),
{
    crate::runtime::send_message(
        rt,
        crate::runtime::Message::Control(
            crate::runtime::Control::Border(BorderMessage::Update(hwnd)),
        ),
    )
}

/// Sends a border update that bypasses the change gate.
pub fn send_force_update(rt: &mut crate::runtime::Runtime, hwnd: Option<isize>) -> (accepted:
    bool)
    ensures
        crate::runtime::control_submitted(
            *old(rt),
            *final(rt),
            accepted,
            crate::runtime::Control::Border(BorderMessage::ForceUpdate(hwnd)),
        ),
{
    crate::runtime::send_message(
        rt,
        crate::runtime::Message::Control(
            crate::runtime::Control::Border(BorderMessage::ForceUpdate(hwnd)),
        ),
    )
}

} // verus!
