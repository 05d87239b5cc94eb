//! Decides which containers get a stackbar (the tab strip above a stack of
//! windows), where the bar and its tabs sit, and what a click on a tab does.

use crate::core_types::BorderStyle;
use crate::core_types::Rect;
use crate::core_types::StackbarLabel;
use crate::core_types::StackbarMode;
use crate::monitor::container_eq;
use crate::monitor::Container;
use crate::monitor::Monitor;
use crate::monitor::Window;
use crate::ops::rect_bounded;
use crate::ops::rect_lookup;
use crate::ops::NativeEnv;
use crate::ops::NativeOp;
use vstd::prelude::*;

verus! {

/// One stackbar's native window.
#[derive(Debug, Clone, Copy, PartialEq, Eq, Structural)]
pub struct Stackbar {
    pub hwnd: isize,
}

/// The global data every stackbar shares.
#[derive(Debug)]
pub struct StackbarGlobals {
    pub tab_width: i32,
    pub tab_height: i32,
    pub label: StackbarLabel,
    pub mode: StackbarMode,
    pub focused_text_colour: u32,
    pub unfocused_text_colour: u32,
    pub tab_background_colour: u32,
    pub font_family: Option<String>,
    pub font_size: i32,
    /// The container padding used when a workspace sets none, and the gap
    /// between tabs.
    pub default_container_padding: i32,
}

impl Default for StackbarGlobals {
    fn default() -> (r: Self)
        ensures
            r.tab_width == 200,
            r.tab_height == 40,
            r.label is Process,
            r.mode is Never,
            r.focused_text_colour == 16777215,
            r.unfocused_text_colour == 11776947,
            r.tab_background_colour == 3355443,
            r.font_family is None,
            r.font_size == 0,
            r.default_container_padding == 10,
    {
        StackbarGlobals {
            tab_width: 200,
            tab_height: 40,
            label: StackbarLabel::Process,
            mode: StackbarMode::Never,
            focused_text_colour: 16777215,  // white
            unfocused_text_colour: 11776947,  // gray text
            tab_background_colour: 3355443,  // gray
            font_family: None,
            font_size: 0,  // 0 will produce the system default
            default_container_padding: 10,
        }
    }
}

/// A control request consumed by the stackbar manager.
#[derive(Debug)]
pub enum StackbarMessage {
    Update,
    ButtonDown(ButtonDownInfo),
    Enable,
    Disable,
}

/// A mouse-down on a stackbar window, in the bar's own coordinates.
#[derive(Debug, Clone, Copy, PartialEq, Eq, Structural)]
pub struct ButtonDownInfo {
    pub hwnd: isize,
    pub x: i32,
    pub y: i32,
}

impl ButtonDownInfo {
    pub fn new(hwnd: isize, x: i32, y: i32) -> (r: ButtonDownInfo)
        ensures
            r.hwnd == hwnd && r.x == x && r.y == y,
    {
        ButtonDownInfo { hwnd, x, y }
    }
}

/// The info from the `WindowManager` that the stackbar manager needs.
#[derive(Debug)]
pub struct WindowManagerInfo {
    pub is_paused: bool,
    pub monitors: Vec<Monitor>,
    pub border_width: i32,
    pub border_offset: i32,
    pub border_style: BorderStyle,
}

/// Whether a container with `window_count` windows gets a stackbar under
/// the given mode: always, never, or exactly when it stacks more than one
/// window.
pub open spec fn spec_should_have_stackbar(mode: StackbarMode, window_count: int) -> bool {
    match mode {
        StackbarMode::Always => true,
        StackbarMode::OnStack => window_count > 1,
        StackbarMode::Never => false,
    }
}

pub fn should_have_stackbar(mode: &StackbarMode, window_count: usize) -> (r: bool)
    ensures
        r == spec_should_have_stackbar(*mode, window_count as int),
{
    match mode {
        StackbarMode::Always => true,
        StackbarMode::OnStack => window_count > 1,
        StackbarMode::Never => false,
    }
}

/// The rectangle of tab `i` in a stackbar's own coordinates: tabs sit side
/// by side, `gap` apart, starting one gap in.
pub open spec fn spec_tab_rect(gap: int, width: int, height: int, i: int) -> Rect {
    Rect {
        top: 0,
        left: (gap + i * (width + gap)) as i32,
        right: (gap + i * (width + gap) + width) as i32,
        bottom: height as i32,
    }
}

/// Dimension bounds under which tab layout arithmetic cannot overflow.
pub open spec fn spec_dims_ok(gap: int, width: int, height: int) -> bool {
    0 <= gap <= 0x10000 && 0 < width <= 0x10000 && 0 < height <= 0x10000
}

/// Computes the rectangle of tab `i`.
pub fn tab_rect(gap: i32, width: i32, height: i32, i: usize) -> (r: Rect)
    requires
        spec_dims_ok(gap as int, width as int, height as int),
        i <= 0x1000,
    ensures
        r == spec_tab_rect(gap as int, width as int, height as int, i as int),
{
    proof {
        assert(0 <= (i as int) * ((width + gap) as int) <= 0x1000 * 0x20000) by (nonlinear_arith)
            requires
                0 <= i as int <= 0x1000,
                0 < (width + gap) as int <= 0x20000,
        ;
    }
    let left: i32 = gap + (i as i32) * (width + gap);
    Rect { top: 0, left, right: left + width, bottom: height }
}

/// Every redraw operation in `ops` lays its tabs out by the tab formula:
/// tab `t` at `spec_tab_rect(gap, width, height, t)`.
pub open spec fn draw_ops_tabs_ok(ops: Seq<NativeOp>, gap: int, width: int, height: int) -> bool {
    forall|k: int|
        0 <= k < ops.len() ==> ((#[trigger] ops[k]) matches NativeOp::DrawStackbar {
            tab_rects,
            ..
        } ==> (forall|t: int|
            0 <= t < tab_rects@.len() ==> #[trigger] tab_rects@[t] == spec_tab_rect(
                gap,
                width,
                height,
                t,
            )))
}

proof fn lemma_tabs_ok_push(
    ops: Seq<NativeOp>,
    op: NativeOp,
    gap: int,
    width: int,
    height: int,
)
    requires
        draw_ops_tabs_ok(ops, gap, width, height),
        op matches NativeOp::DrawStackbar { tab_rects, .. } ==> (forall|t: int|
            0 <= t < tab_rects@.len() ==> #[trigger] tab_rects@[t] == spec_tab_rect(
                gap,
                width,
                height,
                t,
            )),
    ensures
        draw_ops_tabs_ok(ops.push(op), gap, width, height),
{
    let post = ops.push(op);
    assert forall|k: int|
        0 <= k < post.len() implies ((#[trigger] post[k]) matches NativeOp::DrawStackbar {
        tab_rects,
        ..
    } ==> (forall|t: int|
        0 <= t < tab_rects@.len() ==> #[trigger] tab_rects@[t] == spec_tab_rect(
            gap,
            width,
            height,
            t,
        ))) by {
        if k < post.len() - 1 {
            assert(post[k] == ops[k]);
        }
    }
}

proof fn lemma_tabs_ok_extend(
    pre: Seq<NativeOp>,
    post: Seq<NativeOp>,
    gap: int,
    width: int,
    height: int,
)
    requires
        draw_ops_tabs_ok(pre, gap, width, height),
        pre.len() <= post.len(),
        post.subrange(0, pre.len() as int) == pre,
        forall|k: int| pre.len() <= k < post.len() ==> !((#[trigger] post[k]) is DrawStackbar),
    ensures
        draw_ops_tabs_ok(post, gap, width, height),
{
    assert forall|k: int|
        0 <= k < post.len() implies ((#[trigger] post[k]) matches NativeOp::DrawStackbar {
        tab_rects,
        ..
    } ==> (forall|t: int|
        0 <= t < tab_rects@.len() ==> #[trigger] tab_rects@[t] == spec_tab_rect(
            gap,
            width,
            height,
            t,
        ))) by {
        if k < pre.len() {
            assert(post.subrange(0, pre.len() as int)[k] == post[k]);
            assert(pre[k] == post[k]);
        }
    }
}

/// Whether a click at `(x, y)` lands on tab `i`.
pub open spec fn spec_tab_hit(gap: int, width: int, height: int, i: int, x: int, y: int) -> bool {
    let r = spec_tab_rect(gap, width, height, i);
    r.left <= x <= r.right && r.top <= y <= r.bottom
}

/// The operations a stackbar click produces for the window of tab `i`: a
/// hit window is restored and focused — repositioned onto the focused tile
/// first when it was not the focused window — and a missed window hides.
pub open spec fn spec_click_ops_at(
    hwnds: Seq<isize>,
    fwi: int,
    gap: int,
    width: int,
    height: int,
    x: int,
    y: int,
    fr: Rect,
    i: int,
) -> Seq<NativeOp> {
    if spec_tab_hit(gap, width, height, i, x, y) {
        (if i != fwi {
            seq![NativeOp::SetWindowPosition { hwnd: hwnds[i], rect: fr }]
        } else {
            Seq::<NativeOp>::empty()
        }) + seq![
            NativeOp::RestoreWindow { hwnd: hwnds[i] },
            NativeOp::FocusWindow { hwnd: hwnds[i] },
        ]
    } else {
        seq![NativeOp::HideWindow { hwnd: hwnds[i] }]
    }
}

/// The operations a stackbar click produces for the first `n` tabs.
pub open spec fn spec_click_ops(
    hwnds: Seq<isize>,
    fwi: int,
    gap: int,
    width: int,
    height: int,
    x: int,
    y: int,
    fr: Rect,
    n: int,
) -> Seq<NativeOp>
    decreases n,
{
    if n <= 0 {
        Seq::empty()
    } else {
        spec_click_ops(hwnds, fwi, gap, width, height, x, y, fr, n - 1) + spec_click_ops_at(
            hwnds,
            fwi,
            gap,
            width,
            height,
            x,
            y,
            fr,
            n - 1,
        )
    }
}

/// Responsible for handling all stackbar related logic and control.
#[derive(Debug)]
pub struct StackbarManager {
    /// The live stackbars, keyed by container id.
    pub stackbars: Vec<(String, Stackbar)>,
    /// The container each stackbar window fronts, for click handling.
    pub stackbars_containers: Vec<(isize, Container)>,
    /// The monitor each stackbar belongs to, by container id.
    pub stackbars_monitors: Vec<(String, usize)>,
    pub globals: StackbarGlobals,
    pub temporarely_disabled: bool,
}

impl StackbarManager {
    pub fn new() -> (r: StackbarManager)
        ensures
            r.stackbars@.len() == 0,
            r.stackbars_containers@.len() == 0,
            r.stackbars_monitors@.len() == 0,
            r.temporarely_disabled == false,
    {
        StackbarManager {
            stackbars: Vec::new(),
            stackbars_containers: Vec::new(),
            stackbars_monitors: Vec::new(),
            globals: StackbarGlobals::default(),
            temporarely_disabled: false,
        }
    }

    fn find_stackbar(&self, id: &String) -> (r: Option<usize>)
        ensures
            r matches Some(i) ==> 0 <= i < self.stackbars@.len() && self.stackbars@[i as int].0@
                == id@,
    {
        let mut i: usize = 0;
        while i < self.stackbars.len()
            invariant
                0 <= i <= self.stackbars@.len(),
            decreases self.stackbars@.len() - i,
        {
            if self.stackbars[i].0 == *id {
                return Some(i);
            }
            i = i + 1;
        }
        None
    }

    fn monitor_of(&self, id: &String) -> (r: usize) {
        let mut i: usize = 0;
        while i < self.stackbars_monitors.len()
            invariant
                0 <= i <= self.stackbars_monitors@.len(),
            decreases self.stackbars_monitors@.len() - i,
        {
            if self.stackbars_monitors[i].0 == *id {
                return self.stackbars_monitors[i].1;
            }
            i = i + 1;
        }
        0
    }

    fn remove_monitor_entry(&mut self, id: &String)
        ensures
            final(self).globals == old(self).globals,
            final(self).temporarely_disabled == old(self).temporarely_disabled,
            final(self).stackbars == old(self).stackbars,
            final(self).stackbars_containers == old(self).stackbars_containers,
    {
        let mut i: usize = 0;
        while i < self.stackbars_monitors.len()
            invariant
                0 <= i <= self.stackbars_monitors@.len(),
                self.globals == old(self).globals,
                self.temporarely_disabled == old(self).temporarely_disabled,
                self.stackbars == old(self).stackbars,
                self.stackbars_containers == old(self).stackbars_containers,
            decreases self.stackbars_monitors@.len() - i,
        {
            if self.stackbars_monitors[i].0 == *id {
                self.stackbars_monitors.remove(i);
                return ;
            }
            i = i + 1;
        }
    }

    fn set_monitor_entry(&mut self, id: &String, monitor_idx: usize)
        ensures
            final(self).globals == old(self).globals,
            final(self).temporarely_disabled == old(self).temporarely_disabled,
            final(self).stackbars == old(self).stackbars,
            final(self).stackbars_containers == old(self).stackbars_containers,
    {
        self.remove_monitor_entry(id);
        self.stackbars_monitors.push((id.clone(), monitor_idx));
    }

    fn set_container_entry(&mut self, hwnd: isize, container: Container)
        ensures
            final(self).globals == old(self).globals,
            final(self).temporarely_disabled == old(self).temporarely_disabled,
            final(self).stackbars == old(self).stackbars,
            final(self).stackbars_monitors == old(self).stackbars_monitors,
    {
        let mut i: usize = 0;
        while i < self.stackbars_containers.len()
            invariant
                0 <= i <= self.stackbars_containers@.len(),
                self.globals == old(self).globals,
                self.temporarely_disabled == old(self).temporarely_disabled,
                self.stackbars == old(self).stackbars,
                self.stackbars_monitors == old(self).stackbars_monitors,
            decreases self.stackbars_containers@.len() - i,
        {
            if self.stackbars_containers[i].0 == hwnd {
                self.stackbars_containers.remove(i);
                break ;
            }
            i = i + 1;
        }
        self.stackbars_containers.push((hwnd, container));
    }

    fn container_of(&self, hwnd: isize) -> (r: Option<&Container>)
        ensures
            r matches Some(c) ==> exists|i: int|
                0 <= i < self.stackbars_containers@.len() && (
                #[trigger] self.stackbars_containers@[i]).0 == hwnd && container_eq(
                    self.stackbars_containers@[i].1,
                    *c,
                ),
    {
        let mut i: usize = 0;
        while i < self.stackbars_containers.len()
            invariant
                0 <= i <= self.stackbars_containers@.len(),
            decreases self.stackbars_containers@.len() - i,
        {
            if self.stackbars_containers[i].0 == hwnd {
                return Some(&self.stackbars_containers[i].1);
            }
            i = i + 1;
        }
        None
    }

    /// Destroys, and forgets, every stackbar of one monitor, except those
    /// whose container id is in `keep_ids` when a keep list is given.
    fn destroy_monitor_stackbars(
        &mut self,
        monitor_idx: usize,
        keep_ids: Option<&Vec<String>>,
        ops: &mut Vec<NativeOp>,
    )
        ensures
            final(self).globals == old(self).globals,
            final(self).temporarely_disabled == old(self).temporarely_disabled,
            final(self).stackbars@.len() <= old(self).stackbars@.len(),
            old(ops)@.len() <= final(ops)@.len(),
            final(ops)@.subrange(0, old(ops)@.len() as int) == old(ops)@,
            forall|k: int|
                old(ops)@.len() <= k < final(ops)@.len() ==> (#[trigger] final(ops)@[k]) is CloseWindow,
        decreases old(self).stackbars@.len(),
    {
        let ghost ops0 = ops@;
        let mut i: usize = 0;
        loop
            invariant
                self.globals == old(self).globals,
                self.temporarely_disabled == old(self).temporarely_disabled,
                self.stackbars@.len() <= old(self).stackbars@.len(),
                i <= self.stackbars@.len(),
                ops0.len() <= ops@.len(),
                ops@.subrange(0, ops0.len() as int) == ops0,
                forall|k: int| ops0.len() <= k < ops@.len() ==> (#[trigger] ops@[k]) is CloseWindow,
            decreases self.stackbars@.len() - i,
        {
            if i >= self.stackbars.len() {
                break ;
            }
            let on_monitor = {
                let id_ref = &self.stackbars[i].0;
                self.monitor_of(id_ref) == monitor_idx
            };
            let keep = match keep_ids {
                Some(ids) => {
                    let id_ref = &self.stackbars[i].0;
                    let mut found = false;
                    let mut k: usize = 0;
                    while k < ids.len()
                        invariant
                            0 <= k <= ids@.len(),
                        decreases ids@.len() - k,
                    {
                        if ids[k] == *id_ref {
                            found = true;
                        }
                        k = k + 1;
                    }
                    found
                },
                None => false,
            };
            if on_monitor && !keep {
                let (id, bar) = self.stackbars.remove(i);
                ops.push(NativeOp::CloseWindow { hwnd: bar.hwnd });
                proof {
                    assert(ops@.subrange(0, ops0.len() as int) =~= ops0);
                }
                self.remove_monitor_entry(&id);
            } else {
                i = i + 1;
            }
        }
    }

    /// Consumes one control request.
    pub fn update(
        &mut self,
        message: StackbarMessage,
        wm_info: WindowManagerInfo,
        env: &NativeEnv,
    ) -> (ops: Vec<NativeOp>)
        requires
            spec_dims_ok(
                old(self).globals.default_container_padding as int,
                old(self).globals.tab_width as int,
                old(self).globals.tab_height as int,
            ),
            stackbar_inputs_ok(*env, wm_info),
        ensures
            (message is Update && (old(self).temporarely_disabled
                || old(self).globals.mode is Never)) ==> final(self).stackbars@.len() == 0
                && ops@.len() == old(self).stackbars@.len() && (forall|k: int|
                0 <= k < ops@.len() ==> ops@[k] == (NativeOp::CloseWindow {
                    hwnd: (#[trigger] old(self).stackbars@[k]).1.hwnd,
                })),
    {
        match message {
            StackbarMessage::Update => self.update_stackbars(wm_info, env),
            StackbarMessage::ButtonDown(info) => self.button_down(info, env),
            StackbarMessage::Enable => {
                self.temporarely_disabled = false;
                self.update_stackbars(wm_info, env)
            },
            StackbarMessage::Disable => {
                self.temporarely_disabled = true;
                self.update_stackbars(wm_info, env)
            },
        }
    }

    /// One stackbar reconciliation pass: destroys the bars of workspaces
    /// that lost tiling, gained a monocle container or a maximized window,
    /// collects the bars of containers that left the focused workspace, and
    /// creates, positions and redraws a bar for every container that should
    /// have one.
    #[verifier::loop_isolation(false)]
    pub fn update_stackbars(&mut self, wm_info: WindowManagerInfo, env: &NativeEnv) -> (ops: Vec<
        NativeOp,
    >)
        requires
            spec_dims_ok(
                old(self).globals.default_container_padding as int,
                old(self).globals.tab_width as int,
                old(self).globals.tab_height as int,
            ),
            stackbar_inputs_ok(*env, wm_info),
        ensures
            (old(self).temporarely_disabled || old(self).globals.mode is Never)
                ==> final(self).stackbars@.len() == 0
                && ops@.len() == old(self).stackbars@.len() && (forall|k: int|
                0 <= k < ops@.len() ==> ops@[k] == (NativeOp::CloseWindow {
                    hwnd: (#[trigger] old(self).stackbars@[k]).1.hwnd,
                })),
            draw_ops_tabs_ok(
                ops@,
                old(self).globals.default_container_padding as int,
                old(self).globals.tab_width as int,
                old(self).globals.tab_height as int,
            ),
    {
        let mut ops: Vec<NativeOp> = Vec::new();
        // If stackbars are disabled, destroy them all.
        let disabled = self.temporarely_disabled || match self.globals.mode {
            StackbarMode::Never => true,
            _ => false,
        };
        if disabled {
            let ghost bars0 = self.stackbars@;
            let mut i: usize = 0;
            while i < self.stackbars.len()
                invariant
                    self.stackbars@ == bars0,
                    0 <= i <= bars0.len(),
                    ops@.len() == i,
                    forall|k: int|
                        0 <= k < i ==> ops@[k] == (NativeOp::CloseWindow {
                            hwnd: (#[trigger] bars0[k]).1.hwnd,
                        }),
                decreases bars0.len() - i,
            {
                ops.push(NativeOp::CloseWindow { hwnd: self.stackbars[i].1.hwnd });
                i = i + 1;
            }
            self.stackbars = Vec::new();
            self.stackbars_monitors = Vec::new();
            proof {
                assert forall|k: int|
                    0 <= k < ops@.len() implies !((#[trigger] ops@[k]) is DrawStackbar) by {
                    assert(ops@[k] == (NativeOp::CloseWindow { hwnd: bars0[k].1.hwnd }));
                }
                assert(ops@.subrange(0, 0) =~= Seq::<NativeOp>::empty());
                lemma_tabs_ok_extend(
                    Seq::<NativeOp>::empty(),
                    ops@,
                    self.globals.default_container_padding as int,
                    self.globals.tab_width as int,
                    self.globals.tab_height as int,
                );
            }
            return ops;
        }
        let border_width = wm_info.border_width;
        let border_offset = wm_info.border_offset;
        let mut cursor: usize = 0;
        let mut monitor_idx: usize = 0;
        while monitor_idx < wm_info.monitors.len()
            invariant
                self.globals == old(self).globals,
                cursor <= env.fresh_stackbar_hwnds@.len(),
                draw_ops_tabs_ok(
                    ops@,
                    old(self).globals.default_container_padding as int,
                    old(self).globals.tab_width as int,
                    old(self).globals.tab_height as int,
                ),
            decreases wm_info.monitors@.len() - monitor_idx,
        {
            let m = &wm_info.monitors[monitor_idx];
            match m.focused_workspace() {
                Some(ws) => {
                    // Workspaces with tiling disabled have no stackbars.
                    if !ws.tile {
                        let ghost ops_pre = ops@;
                        self.destroy_monitor_stackbars(monitor_idx, None, &mut ops);
                        proof {
                            assert forall|k: int|
                                0 <= k < ops@.len() implies ((#[trigger] ops@[k])
                                matches NativeOp::DrawStackbar { tab_rects, .. } ==> (forall|
                                    t: int,
                                |
                                    0 <= t < tab_rects@.len() ==> #[trigger] tab_rects@[t]
                                        == spec_tab_rect(
                                        old(self).globals.default_container_padding as int,
                                        old(self).globals.tab_width as int,
                                        old(self).globals.tab_height as int,
                                        t,
                                    ))) by {
                                if k < ops_pre.len() {
                                    assert(ops@.subrange(0, ops_pre.len() as int)[k] == ops@[k]);
                                    assert(ops_pre[k] == ops@[k]);
                                } else {
                                    assert(ops@[k] is CloseWindow);
                                }
                            }
                        }
                        return ops;
                    }
                    // A monocle container, or a maximized window, covers the
                    // whole workspace.
                    let is_maximized = env.foreground_zoomed;
                    let has_monocle = match &ws.monocle_container {
                        Some(_) => true,
                        None => false,
                    };
                    if has_monocle || is_maximized {
                        let ghost ops_pre = ops@;
                        self.destroy_monitor_stackbars(monitor_idx, None, &mut ops);
                        proof {
                            assert forall|k: int|
                                0 <= k < ops@.len() implies ((#[trigger] ops@[k])
                                matches NativeOp::DrawStackbar { tab_rects, .. } ==> (forall|
                                    t: int,
                                |
                                    0 <= t < tab_rects@.len() ==> #[trigger] tab_rects@[t]
                                        == spec_tab_rect(
                                        old(self).globals.default_container_padding as int,
                                        old(self).globals.tab_width as int,
                                        old(self).globals.tab_height as int,
                                        t,
                                    ))) by {
                                if k < ops_pre.len() {
                                    assert(ops@.subrange(0, ops_pre.len() as int)[k] == ops@[k]);
                                    assert(ops_pre[k] == ops@[k]);
                                } else {
                                    assert(ops@[k] is CloseWindow);
                                }
                            }
                        }
                        return ops;
                    }
                    // Destroy the bars of containers that left this
                    // workspace.
                    let mut container_ids: Vec<String> = Vec::new();
                    let mut ci: usize = 0;
                    while ci < ws.containers.len()
                        invariant
                            0 <= ci <= ws.containers@.len(),
                        decreases ws.containers@.len() - ci,
                    {
                        container_ids.push(ws.containers[ci].id.clone());
                        ci = ci + 1;
                    }
                    let ghost ops_pre = ops@;
                    self.destroy_monitor_stackbars(monitor_idx, Some(&container_ids), &mut ops);
                        proof {
                            assert forall|k: int|
                                0 <= k < ops@.len() implies ((#[trigger] ops@[k])
                                matches NativeOp::DrawStackbar { tab_rects, .. } ==> (forall|
                                    t: int,
                                |
                                    0 <= t < tab_rects@.len() ==> #[trigger] tab_rects@[t]
                                        == spec_tab_rect(
                                        old(self).globals.default_container_padding as int,
                                        old(self).globals.tab_width as int,
                                        old(self).globals.tab_height as int,
                                        t,
                                    ))) by {
                                if k < ops_pre.len() {
                                    assert(ops@.subrange(0, ops_pre.len() as int)[k] == ops@[k]);
                                    assert(ops_pre[k] == ops@[k]);
                                } else {
                                    assert(ops@[k] is CloseWindow);
                                }
                            }
                        }
                    let container_padding = match ws.container_padding {
                        Some(p) => p,
                        None => self.globals.default_container_padding,
                    };
                    let mut idx: usize = 0;
                    while idx < ws.containers.len()
                        invariant
                            self.globals == old(self).globals,
                            cursor <= env.fresh_stackbar_hwnds@.len(),
                            draw_ops_tabs_ok(
                                ops@,
                                old(self).globals.default_container_padding as int,
                                old(self).globals.tab_width as int,
                                old(self).globals.tab_height as int,
                            ),
                        decreases ws.containers@.len() - idx,
                    {
                        let container = &ws.containers[idx];
                        let should_add = should_have_stackbar(
                            &self.globals.mode,
                            container.windows.len(),
                        );
                        if !should_add {
                            // This container lost its stackbar.
                            let r = self.find_stackbar(&container.id);
                            match r {
                                Some(i) => {
                                    let (id, bar) = self.stackbars.remove(i);
                                    proof {
                                        lemma_tabs_ok_push(
                                            ops@,
                                            NativeOp::CloseWindow { hwnd: bar.hwnd },
                                            old(self).globals.default_container_padding as int,
                                            old(self).globals.tab_width as int,
                                            old(self).globals.tab_height as int,
                                        );
                                    }
                                    ops.push(NativeOp::CloseWindow { hwnd: bar.hwnd });
                                    self.remove_monitor_entry(&id);
                                },
                                None => {},
                            }
                            idx = idx + 1;
                            continue ;
                        }
                        // Get the stackbar for this container or create one.
                        let bar_hwnd: isize;
                        let r = self.find_stackbar(&container.id);
                        match r {
                            Some(i) => {
                                bar_hwnd = self.stackbars[i].1.hwnd;
                            },
                            None => {
                                if cursor < env.fresh_stackbar_hwnds.len() {
                                    let h = env.fresh_stackbar_hwnds[cursor];
                                    cursor = cursor + 1;
                                    proof {
                                        lemma_tabs_ok_push(
                                            ops@,
                                            NativeOp::CreateStackbar {
                                                id: container.id,
                                                hwnd: h,
                                            },
                                            old(self).globals.default_container_padding as int,
                                            old(self).globals.tab_width as int,
                                            old(self).globals.tab_height as int,
                                        );
                                    }
                                    ops.push(
                                        NativeOp::CreateStackbar {
                                            id: container.id.clone(),
                                            hwnd: h,
                                        },
                                    );
                                    self.stackbars.push(
                                        (container.id.clone(), Stackbar { hwnd: h }),
                                    );
                                    bar_hwnd = h;
                                } else {
                                    return ops;
                                }
                            },
                        }
                        self.set_monitor_entry(&container.id, monitor_idx);
                        let focused_hwnd = match container.focused_window() {
                            Some(w) => w.hwnd,
                            None => 0,
                        };
                        let rect = match env.window_rect(focused_hwnd) {
                            Some(rc) => rc,
                            None => {
                                return ops;
                            },
                        };
                        proof {
                            crate::ops::lemma_rect_lookup_bounded(
                                env.window_rects@,
                                focused_hwnd,
                                0x10000000,
                            );
                            assert(rect_bounded(rect, 0x10000000));
                        }
                        self.set_container_entry(bar_hwnd, container.clone());
                        // The bar sits above the container, offset by the
                        // border and the container padding.
                        let workspace_specific_offset = border_width + border_offset
                            + container_padding;
                        let bar_rect = Rect {
                            left: rect.left - workspace_specific_offset,
                            top: rect.top - workspace_specific_offset - self.globals.tab_height,
                            right: rect.right,
                            bottom: rect.bottom,
                        };
                        proof {
                            lemma_tabs_ok_push(
                                ops@,
                                NativeOp::PositionStackbar { hwnd: bar_hwnd, rect: bar_rect },
                                old(self).globals.default_container_padding as int,
                                old(self).globals.tab_width as int,
                                old(self).globals.tab_height as int,
                            );
                        }
                        ops.push(NativeOp::PositionStackbar { hwnd: bar_hwnd, rect: bar_rect });
                        // Tabs side by side, one per window in the stack.
                        let gap = self.globals.default_container_padding;
                        let mut tab_rects: Vec<Rect> = Vec::new();
                        let mut t: usize = 0;
                        while t < container.windows.len()
                            invariant
                                0 <= t <= container.windows@.len(),
                                container.windows@.len() <= 0x1000,
                                spec_dims_ok(
                                    gap as int,
                                    self.globals.tab_width as int,
                                    self.globals.tab_height as int,
                                ),
                                tab_rects@.len() == t,
                                forall|k: int|
                                    0 <= k < t ==> tab_rects@[k] == spec_tab_rect(
                                        gap as int,
                                        self.globals.tab_width as int,
                                        self.globals.tab_height as int,
                                        k,
                                    ),
                            decreases container.windows@.len() - t,
                        {
                            tab_rects.push(
                                tab_rect(gap, self.globals.tab_width, self.globals.tab_height, t),
                            );
                            t = t + 1;
                        }
                        proof {
                            lemma_tabs_ok_push(
                                ops@,
                                NativeOp::DrawStackbar {
                                    hwnd: bar_hwnd,
                                    tab_rects,
                                    focused_tab: container.focused_window_idx,
                                },
                                old(self).globals.default_container_padding as int,
                                old(self).globals.tab_width as int,
                                old(self).globals.tab_height as int,
                            );
                        }
                        ops.push(
                            NativeOp::DrawStackbar {
                                hwnd: bar_hwnd,
                                tab_rects,
                                focused_tab: container.focused_window_idx,
                            },
                        );
                        idx = idx + 1;
                    }
                },
                None => {},
            }
            monitor_idx = monitor_idx + 1;
        }
        ops
    }

    /// A click at `(x, y)` on a stackbar: the window whose tab was hit is
    /// repositioned onto the focused tile if it was not the focused window,
    /// restored and focused; every other window of the stack is hidden.
    #[verifier::loop_isolation(false)]
    pub fn button_down(&mut self, info: ButtonDownInfo, env: &NativeEnv) -> (ops: Vec<NativeOp>)
        requires
            spec_dims_ok(
                old(self).globals.default_container_padding as int,
                old(self).globals.tab_width as int,
                old(self).globals.tab_height as int,
            ),
        ensures
            *final(self) == *old(self),
            ops@.len() > 0 ==> exists|e: int|
                0 <= e < old(self).stackbars_containers@.len() && (#[trigger] old(
                    self,
                ).stackbars_containers@[e]).0 == info.hwnd && ({
                    let c = old(self).stackbars_containers@[e].1;
                    let hwnds = c.windows@.map_values(|w: Window| w.hwnd);
                    let fwi = c.focused_window_idx as int;
                    let fh = if 0 <= fwi < hwnds.len() {
                        hwnds[fwi]
                    } else {
                        0
                    };
                    let fr = match rect_lookup(env.window_rects@, fh) {
                        Some(rc) => rc,
                        None => Rect { left: 0, top: 0, right: 0, bottom: 0 },
                    };
                    ops@ == spec_click_ops(
                        hwnds,
                        fwi,
                        old(self).globals.default_container_padding as int,
                        old(self).globals.tab_width as int,
                        old(self).globals.tab_height as int,
                        info.x as int,
                        info.y as int,
                        fr,
                        hwnds.len() as int,
                    )
                }),
            forall|k: int|
                0 <= k < ops@.len() ==> ((#[trigger] ops@[k]) is SetWindowPosition
                    || ops@[k] is RestoreWindow || ops@[k] is FocusWindow
                    || ops@[k] is HideWindow),
    {
        let mut ops: Vec<NativeOp> = Vec::new();
        let width = self.globals.tab_width;
        let height = self.globals.tab_height;
        let gap = self.globals.default_container_padding;
        let container = match self.container_of(info.hwnd) {
            Some(c) => c,
            None => {
                return ops;
            },
        };
        if container.windows.len() > 0x1000 {
            return ops;
        }
        let focused_window_idx = container.focused_window_idx;
        let focused_hwnd = match container.focused_window() {
            Some(w) => w.hwnd,
            None => 0,
        };
        let focused_window_rect = match env.window_rect(focused_hwnd) {
            Some(rc) => rc,
            None => Rect { left: 0, top: 0, right: 0, bottom: 0 },
        };
        let ghost hwnds = container.windows@.map_values(|w: Window| w.hwnd);
        let ghost gap0 = gap as int;
        let ghost w0 = width as int;
        let ghost h0 = height as int;
        let mut index: usize = 0;
        while index < container.windows.len()
            invariant
                0 <= index <= container.windows@.len(),
                container.windows@.len() <= 0x1000,
                ops@ == spec_click_ops(
                    hwnds,
                    focused_window_idx as int,
                    gap0,
                    w0,
                    h0,
                    info.x as int,
                    info.y as int,
                    focused_window_rect,
                    index as int,
                ),
                forall|k: int|
                    0 <= k < ops@.len() ==> ((#[trigger] ops@[k]) is SetWindowPosition
                        || ops@[k] is RestoreWindow || ops@[k] is FocusWindow
                        || ops@[k] is HideWindow),
            decreases container.windows@.len() - index,
        {
            let w = container.windows[index];
            let tr = tab_rect(gap, width, height, index);
            if info.x >= tr.left && info.x <= tr.right && info.y >= tr.top && info.y
                <= tr.bottom {
                // If we focus a window that is not the currently focused tab,
                // move it onto the focused tile first so it does not repaint
                // over other tiles on its way there.
                if index != focused_window_idx {
                    ops.push(NativeOp::SetWindowPosition { hwnd: w.hwnd, rect: focused_window_rect });
                }
                ops.push(NativeOp::RestoreWindow { hwnd: w.hwnd });
                ops.push(NativeOp::FocusWindow { hwnd: w.hwnd });
            } else {
                // Hide the stack's other windows.
                ops.push(NativeOp::HideWindow { hwnd: w.hwnd });
            }
            proof {
                assert(ops@ =~= spec_click_ops(
                    hwnds,
                    focused_window_idx as int,
                    gap0,
                    w0,
                    h0,
                    info.x as int,
                    info.y as int,
                    focused_window_rect,
                    index as int + 1,
                ));
            }
            index = index + 1;
        }
        proof {
            if ops@.len() > 0 {
                let e = choose|e: int|
                    0 <= e < self.stackbars_containers@.len() && (
                    #[trigger] self.stackbars_containers@[e]).0 == info.hwnd && container_eq(
                        self.stackbars_containers@[e].1,
                        *container,
                    );
                let c2 = self.stackbars_containers@[e].1;
                assert(c2.windows@ == container.windows@);
                let c2map = c2.windows@.map_values(|w: Window| w.hwnd);
                assert forall|t: int| 0 <= t < c2.windows@.len() implies #[trigger] c2map[t]
                    == hwnds[t] by {
                    assert(c2map[t] == c2.windows@[t].hwnd);
                    assert(hwnds[t] == container.windows@[t].hwnd);
                }
                assert(c2map =~= hwnds);
                assert(c2.focused_window_idx == container.focused_window_idx);
                let fwi = c2.focused_window_idx as int;
                let fh = if 0 <= fwi < hwnds.len() {
                    hwnds[fwi]
                } else {
                    0
                };
                if 0 <= fwi < hwnds.len() {
                    assert(hwnds[fwi] == container.windows@[fwi].hwnd);
                }
                assert(fh == focused_hwnd);
            }
        }
        ops
    }
}

/// Machine bounds on the native sample and snapshot under which stackbar
/// geometry arithmetic cannot overflow.
pub open spec fn stackbar_inputs_ok(env: NativeEnv, wm_info: WindowManagerInfo) -> bool {
    &&& forall|k: int|
        0 <= k < env.window_rects@.len() ==> rect_bounded((#[trigger] env.window_rects@[k]).1, 0x10000000)
    &&& -0x10000 <= wm_info.border_width <= 0x10000
    &&& -0x10000 <= wm_info.border_offset <= 0x10000
    &&& forall|mi: int|
        0 <= mi < wm_info.monitors@.len() ==> {
            let m = #[trigger] wm_info.monitors@[mi];
            forall|wi: int|
                0 <= wi < m.workspaces@.len() ==> {
                    let ws = #[trigger] m.workspaces@[wi];
                    &&& (ws.container_padding matches Some(p) ==> -0x10000 <= p <= 0x10000)
                    &&& forall|ci: int|
                        0 <= ci < ws.containers@.len() ==> (#[trigger] ws.containers@[ci]).windows@.len()
                            <= 0x1000
                }
        }
}


/// Requests a stackbar refresh.
pub fn send_update(rt: &mut crate::runtime::Runtime) -> (accepted: bool)
    ensures
        crate::runtime::control_submitted(
            *old(rt),
            *final(rt),
            accepted,
            crate::runtime::Control::Stackbar(StackbarMessage::Update),
        ),
{
    crate::runtime::send_message(
        rt,
        crate::runtime::Message::Control(crate::runtime::Control::Stackbar(
            StackbarMessage::Update,
        )),
    )
}

/// Forwards a stackbar click to the runtime.
pub fn button_down(rt: &mut crate::runtime::Runtime, info: ButtonDownInfo) -> (accepted: bool)
    ensures
        crate::runtime::control_submitted(
            *old(rt),
            *final(rt),
            accepted,
            crate::runtime::Control::Stackbar(StackbarMessage::ButtonDown(info)),
        ),
{
    crate::runtime::send_message(
        rt,
        crate::runtime::Message::Control(
            crate::runtime::Control::Stackbar(StackbarMessage::ButtonDown(info)),
        ),
    )
}

/// Temporarily disables stackbars.
pub fn disable(rt: &mut crate::runtime::Runtime) -> (accepted: bool)
    ensures
        crate::runtime::control_submitted(
            *old(rt),
            *final(rt),
            accepted,
            crate::runtime::Control::Stackbar(StackbarMessage::Disable),
        ),
{
    crate::runtime::send_message(
        rt,
        crate::runtime::Message::Control(crate::runtime::Control::Stackbar(
            StackbarMessage::Disable,
        )),
    )
}

/// Re-enables stackbars.
pub fn enable(rt: &mut crate::runtime::Runtime) -> (accepted: bool)
    ensures
        crate::runtime::control_submitted(
            *old(rt),
            *final(rt),
            accepted,
            crate::runtime::Control::Stackbar(StackbarMessage::Enable),
        ),
{
    crate::runtime::send_message(
        rt,
        crate::runtime::Message::Control(crate::runtime::Control::Stackbar(
            StackbarMessage::Enable,
        )),
    )
}

} // verus!
