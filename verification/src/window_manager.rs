//! The window manager state that the dispatcher mutates, and the dispatch
//! logic itself: filtering stale messages, routing control requests to the
//! owning subsystem, and deciding when a command stops the runtime.

use crate::border_manager;
use crate::border_manager::BorderManager;
use crate::monitor::clone_monitors;
use crate::monitor::monitors_eq;
use crate::monitor::Monitor;
use crate::monitor_reconciliator::MonitorReconciliator;
use crate::ops::NativeEnv;
use crate::ops::NativeOp;
use crate::runtime::Control;
use crate::runtime::Message;
use crate::runtime::SocketMessage;
use crate::runtime::WindowManagerEvent;
use crate::runtime::WindowWithBorderAction;
use crate::stackbar_manager;
use crate::stackbar_manager::StackbarManager;
use crate::theme_manager::ResolvedTheme;
use crate::transparency_manager;
use crate::transparency_manager::TransparencyManager;
use vstd::prelude::*;

verus! {

/// One workspace-assignment rule restored from a cached monitor.
#[derive(Debug)]
pub struct WorkspaceRule {
    pub monitor_index: usize,
    pub workspace_index: usize,
    pub matching_rule: String,
    pub initial_only: bool,
}

/// The authoritative window-manager state that dispatching mutates.
#[derive(Debug)]
pub struct WindowManager {
    pub is_paused: bool,
    pub monitors: Vec<Monitor>,
    pub focused_monitor_idx: usize,
    /// A window drag in flight, as (monitor, workspace, window).
    pub pending_move_op: Option<(usize, usize, isize)>,
    /// Every window the manager knows, with its (monitor, workspace) home.
    pub known_hwnds: Vec<(isize, (usize, usize))>,
    pub mouse_follows_focus: bool,
    pub border_manager: BorderManager,
    pub stackbar_manager: StackbarManager,
    pub transparency_manager: TransparencyManager,
    pub monitor_reconciliator: MonitorReconciliator,
    pub theme: Option<ResolvedTheme>,
    /// Workspace-assignment rules restored from cached monitors.
    pub workspace_matching_rules: Vec<WorkspaceRule>,
}

/// Whether the manager knows the window `h`.
pub open spec fn known_contains(kh: Seq<(isize, (usize, usize))>, h: isize) -> bool {
    exists|i: int| 0 <= i < kh.len() && (#[trigger] kh[i]).0 == h
}

/// The focus indices of every level are in bounds.
pub open spec fn wm_focus_ok(wm: WindowManager) -> bool {
    &&& wm.focused_monitor_idx < wm.monitors@.len()
    &&& forall|i: int|
        0 <= i < wm.monitors@.len() ==> (#[trigger] wm.monitors@[i]).focused_workspace_idx
            < wm.monitors@[i].workspaces@.len()
}

impl WindowManager {
    /// A fresh manager with no monitors and all subsystems at their
    /// defaults.
    pub fn new() -> (r: WindowManager)
        ensures
            r.is_paused == false,
            r.monitors@.len() == 0,
            r.focused_monitor_idx == 0,
            r.pending_move_op is None,
            r.known_hwnds@.len() == 0,
            r.border_manager.wf(),
            r.border_manager.borders@.len() == 0,
            r.border_manager.windows_borders@.len() == 0,
            r.monitor_reconciliator.active,
            r.monitor_reconciliator.monitor_cache.wf(),
            r.monitor_reconciliator.monitor_cache.contents().len() == 0,
            r.theme is None,
            r.workspace_matching_rules@.len() == 0,
    {
        WindowManager {
            is_paused: false,
            monitors: Vec::new(),
            focused_monitor_idx: 0,
            pending_move_op: None,
            known_hwnds: Vec::new(),
            mouse_follows_focus: true,
            border_manager: BorderManager::new(),
            stackbar_manager: StackbarManager::new(),
            transparency_manager: TransparencyManager::default(),
            monitor_reconciliator: MonitorReconciliator::new(),
            theme: None,
            workspace_matching_rules: Vec::new(),
        }
    }

    /// Whether every focus index is in bounds, so a snapshot can be taken.
    fn focus_ok(&self) -> (r: bool)
        ensures
            r == wm_focus_ok(*self),
    {
        if self.focused_monitor_idx >= self.monitors.len() {
            return false;
        }
        let mut i: usize = 0;
        while i < self.monitors.len()
            invariant
                0 <= i <= self.monitors@.len(),
                self.focused_monitor_idx < self.monitors@.len(),
                forall|j: int|
                    0 <= j < i ==> (#[trigger] self.monitors@[j]).focused_workspace_idx
                        < self.monitors@[j].workspaces@.len(),
            decreases self.monitors@.len() - i,
        {
            if self.monitors[i].focused_workspace_idx >= self.monitors[i].workspaces.len() {
                return false;
            }
            i = i + 1;
        }
        true
    }

    fn known_hwnds_contains(&self, h: isize) -> (r: bool)
        ensures
            r == known_contains(self.known_hwnds@, h),
    {
        let mut i: usize = 0;
        while i < self.known_hwnds.len()
            invariant
                0 <= i <= self.known_hwnds@.len(),
                forall|j: int| 0 <= j < i ==> (#[trigger] self.known_hwnds@[j]).0 != h,
            decreases self.known_hwnds@.len() - i,
        {
            if self.known_hwnds[i].0 == h {
                return true;
            }
            i = i + 1;
        }
        false
    }

    /// Returns the info from the `WindowManager` that is needed by the
    /// border engine: an immutable snapshot for one reconciliation pass.
    pub fn to_border_info(&self) -> (r: border_manager::WindowManagerInfo)
        requires
            wm_focus_ok(*self),
        ensures
            r.is_paused == self.is_paused,
            r.focused_monitor_idx == self.focused_monitor_idx,
            monitors_eq(r.monitors@, self.monitors@),
            r.pending_move_op == self.pending_move_op,
            ({
                let ws = self.monitors@[self.focused_monitor_idx as int].workspaces@[self.monitors@[self.focused_monitor_idx as int].focused_workspace_idx as int];
                r.floating_window_hwnds@ == ws.floating_windows@.map_values(|w: crate::monitor::Window| w.hwnd)
                    && r.workspace_layer == ws.layer
            }),
    {
        let m = &self.monitors[self.focused_monitor_idx];
        let ws = &m.workspaces[m.focused_workspace_idx];
        let mut floating: Vec<isize> = Vec::new();
        let mut i: usize = 0;
        while i < ws.floating_windows.len()
            invariant
                0 <= i <= ws.floating_windows@.len(),
                floating@.len() == i,
                forall|j: int| 0 <= j < i ==> floating@[j] == (#[trigger] ws.floating_windows@[j]).hwnd,
            decreases ws.floating_windows@.len() - i,
        {
            floating.push(ws.floating_windows[i].hwnd);
            i = i + 1;
        }
        proof {
            assert(floating@ =~= ws.floating_windows@.map_values(
                |w: crate::monitor::Window| w.hwnd,
            ));
        }
        border_manager::WindowManagerInfo {
            is_paused: self.is_paused,
            focused_monitor_idx: self.focused_monitor_idx,
            monitors: clone_monitors(&self.monitors),
            pending_move_op: self.pending_move_op,
            floating_window_hwnds: floating,
            workspace_layer: ws.layer,
        }
    }

    /// Returns the info from the `WindowManager` that is needed by the
    /// stackbar manager.
    pub fn to_stackbar_info(&self) -> (r: stackbar_manager::WindowManagerInfo)
        ensures
            r.is_paused == self.is_paused,
            monitors_eq(r.monitors@, self.monitors@),
            r.border_width == self.border_manager.border_width,
            r.border_offset == self.border_manager.border_offset,
            r.border_style == self.border_manager.border_style,
    {
        stackbar_manager::WindowManagerInfo {
            is_paused: self.is_paused,
            monitors: clone_monitors(&self.monitors),
            border_width: self.border_manager.border_width,
            border_offset: self.border_manager.border_offset,
            border_style: self.border_manager.border_style,
        }
    }

    /// Returns the info from the `WindowManager` that is needed by the
    /// transparency manager.
    pub fn to_transparency_info(&self) -> (r: transparency_manager::WindowManagerInfo)
        ensures
            monitors_eq(r.monitors@, self.monitors@),
            r.focused_monitor_idx == self.focused_monitor_idx,
    {
        transparency_manager::WindowManagerInfo {
            monitors: clone_monitors(&self.monitors),
            focused_monitor_idx: self.focused_monitor_idx,
        }
    }
}

/// Whether the dispatcher keeps a message: window events pass only for
/// known windows — except show/uncloak/manage events, which pass for
/// windows the driver's rules accept as manageable — commands always pass,
/// and border updates hinted at an unknown window are dropped.
pub open spec fn spec_keep_message(
    kh: Seq<(isize, (usize, usize))>,
    manageable: Seq<isize>,
    m: Message,
) -> bool {
    match m {
        Message::Event(event) => match event {
            WindowManagerEvent::Show(_, w) => manageable.contains(w.hwnd),
            WindowManagerEvent::Uncloak(_, w) => manageable.contains(w.hwnd),
            WindowManagerEvent::Manage(w) => manageable.contains(w.hwnd),
            _ => known_contains(kh, event.spec_window().hwnd),
        },
        Message::Command(_, _) => true,
        Message::TcpCommand(_, _) => true,
        Message::Control(control) => match control {
            Control::Border(border_message) => match border_message {
                border_manager::BorderMessage::Update(hint) => match hint {
                    Some(h) => known_contains(kh, h),
                    None => true,
                },
                border_manager::BorderMessage::PassEvent(h, _) => known_contains(kh, h),
                _ => true,
            },
            _ => true,
        },
    }
}

/// The messages of `msgs` that the dispatcher keeps, in order.
pub open spec fn spec_filter_messages(
    kh: Seq<(isize, (usize, usize))>,
    manageable: Seq<isize>,
    msgs: Seq<Message>,
) -> Seq<Message>
    decreases msgs.len(),
{
    if msgs.len() == 0 {
        Seq::empty()
    } else {
        spec_filter_messages(kh, manageable, msgs.drop_last()) + (if spec_keep_message(
            kh,
            manageable,
            msgs.last(),
        ) {
            seq![msgs.last()]
        } else {
            Seq::<Message>::empty()
        })
    }
}

impl WindowManager {
    fn keep_message(&self, m: &Message, manageable: &Vec<isize>) -> (r: bool)
        ensures
            r == spec_keep_message(self.known_hwnds@, manageable@, *m),
    {
        match m {
            Message::Event(event) => match event {
                WindowManagerEvent::Show(_, w) => contains_hwnd(manageable, w.hwnd),
                WindowManagerEvent::Uncloak(_, w) => contains_hwnd(manageable, w.hwnd),
                WindowManagerEvent::Manage(w) => contains_hwnd(manageable, w.hwnd),
                _ => self.known_hwnds_contains(event.window().hwnd),
            },
            Message::Command(_, _) => true,
            Message::TcpCommand(_, _) => true,
            Message::Control(control) => match control {
                Control::Border(border_message) => match border_message {
                    border_manager::BorderMessage::Update(hint) => match hint {
                        Some(h) => self.known_hwnds_contains(*h),
                        None => true,
                    },
                    border_manager::BorderMessage::PassEvent(h, _) => self.known_hwnds_contains(
                        *h,
                    ),
                    _ => true,
                },
                _ => true,
            },
        }
    }

    /// Filters a drained batch: only window events from known windows
    /// survive — except events that may introduce a new manageable window —
    /// and border updates hinted at unknown windows are dropped.
    pub fn filter_messages(&self, messages: Vec<Message>, manageable: &Vec<isize>) -> (r: Vec<
        Message,
    >)
        ensures
            r@ == spec_filter_messages(self.known_hwnds@, manageable@, messages@),
    {
        let mut out: Vec<Message> = Vec::new();
        let mut messages = messages;
        let ghost all = messages@;
        let total = messages.len();
        let mut i: usize = 0;
        while messages.len() > 0
            invariant
                total == all.len(),
                i + messages@.len() == all.len(),
                messages@ =~= all.skip(i as int),
                out@ == spec_filter_messages(self.known_hwnds@, manageable@, all.take(i as int)),
            decreases messages@.len(),
        {
            let m = messages.remove(0);
            proof {
                assert(all.take(i as int + 1).drop_last() =~= all.take(i as int));
                assert(all.take(i as int + 1).last() == all[i as int]);
                assert(m == all[i as int]);
            }
            let keep = self.keep_message(&m, manageable);
            if keep {
                out.push(m);
            }
            proof {
                assert(messages@ =~= all.skip(i as int + 1));
            }
            i = i + 1;
        }
        proof {
            assert(all.take(i as int) =~= all);
        }
        out
    }

    /// Decides one external command's fate at the dispatcher: commands are
    /// ignored while the manager is paused — except the pause toggle, the
    /// state queries and the stop commands — and the stop commands mark the
    /// runtime for shutdown.
    pub fn handle_command(&self, message: SocketMessage, stop_runtime: &mut bool) -> (process:
        bool)
        ensures
            process == !(self.is_paused && !(message is TogglePause || message is State
                || message is GlobalState || message is Stop)),
            *final(stop_runtime) == (*old(stop_runtime) || message is Stop
                || message is StopIgnoreRestore),
    {
        let exempt = match message {
            SocketMessage::TogglePause => true,
            SocketMessage::State => true,
            SocketMessage::GlobalState => true,
            SocketMessage::Stop => true,
            _ => false,
        };
        let process = !(self.is_paused && !exempt);
        match message {
            SocketMessage::Stop => {
                *stop_runtime = true;
            },
            SocketMessage::StopIgnoreRestore => {
                *stop_runtime = true;
            },
            _ => {},
        }
        process
    }

    /// Routes one internal control request to the subsystem that owns it
    /// and returns the native operations to execute. Monitor notifications
    /// are not handled here: they need fresh display data, which the driver
    /// gathers before calling `handle_monitor_notification`.
    /// Routes one internal control request to the subsystem that owns it
    /// and returns the native operations to execute. A border or
    /// window-with-border control is dropped when the focus indices are out
    /// of bounds (no snapshot can be taken); a stackbar control is dropped
    /// when its geometry inputs exceed the machine bounds. Monitor
    /// notifications are not handled here: they need fresh display data,
    /// which the driver gathers before calling
    /// `handle_monitor_notification`.
    pub fn dispatch_control(&mut self, control: Control, env: &NativeEnv) -> (ops: Vec<NativeOp>)
        requires
            old(self).border_manager.wf(),
        ensures
            final(self).border_manager.wf(),
            control is Monitor ==> *final(self) == *old(self) && ops@.len() == 0,
            (control is Border || control is WindowWithBorder) && !wm_focus_ok(*old(self))
                ==> *final(self) == *old(self) && ops@.len() == 0,
            control is Border ==> final(self).monitors@ == old(self).monitors@ && final(self).known_hwnds@ == old(self).known_hwnds@ && final(self).is_paused == old(self).is_paused,
            (control matches Control::Border(m) ==> (wm_focus_ok(*old(self)) ==> ({
                let bm0 = old(self).border_manager;
                &&& (m matches border_manager::BorderMessage::Show(h) ==> final(self).border_manager == bm0 && (border_manager::ix_has_key(bm0.windows_borders@, h)
                    ==> ops@.len() == 1 && ops@[0] is RestoreWindow) && (
                !border_manager::ix_has_key(bm0.windows_borders@, h) ==> ops@.len() == 0))
                &&& (m matches border_manager::BorderMessage::Hide(h) ==> final(self).border_manager == bm0 && (border_manager::ix_has_key(bm0.windows_borders@, h)
                    ==> ops@.len() == 1 && ops@[0] is HideWindow) && (
                !border_manager::ix_has_key(bm0.windows_borders@, h) ==> ops@.len() == 0))
                &&& (m matches border_manager::BorderMessage::Raise(h) ==> final(self).border_manager == bm0 && (border_manager::ix_has_key(bm0.windows_borders@, h)
                    ==> ops@.len() == 1 && ops@[0] is RaiseWindow) && (
                !border_manager::ix_has_key(bm0.windows_borders@, h) ==> ops@.len() == 0))
                &&& (m matches border_manager::BorderMessage::Lower(h) ==> final(self).border_manager == bm0 && (border_manager::ix_has_key(bm0.windows_borders@, h)
                    ==> ops@.len() == 1 && ops@[0] is LowerWindow) && (
                !border_manager::ix_has_key(bm0.windows_borders@, h) ==> ops@.len() == 0))
                &&& (m matches border_manager::BorderMessage::PassEvent(h, _ev) ==> final(self).border_manager == bm0 && (border_manager::ix_has_key(bm0.windows_borders@, h)
                    ==> ops@.len() == 1 && ops@[0] is NotifyBorder) && (
                !border_manager::ix_has_key(bm0.windows_borders@, h) ==> ops@.len() == 0))
                &&& (m matches border_manager::BorderMessage::Delete(h) ==> (
                border_manager::ix_has_key(bm0.windows_borders@, h) ==> !border_manager::ix_has_key(
                    final(self).border_manager.windows_borders@,
                    h,
                ) && ops@.len() == 1 && ops@[0] is DestroyBorder))
                &&& (m is DestroyAll ==> final(self).border_manager.borders@.len() == 0 && final(self).border_manager.windows_borders@.len() == 0)
                &&& (m matches border_manager::BorderMessage::ForceUpdate(h) ==> ((!bm0.enabled
                    || old(self).is_paused) && bm0.border_implementation is Komorebi ==> final(self).border_manager.borders@.len() == 0 && final(self).border_manager.windows_borders@.len() == 0))
            }))),
            (control matches Control::WindowWithBorder(a) ==> (wm_focus_ok(*old(self)) ==> ({
                &&& ops@.len() >= 1
                &&& (a matches crate::runtime::WindowWithBorderAction::Show(h) ==> ops@[0]
                    == (NativeOp::RestoreWindow { hwnd: h }))
                &&& (a matches crate::runtime::WindowWithBorderAction::Hide(h) ==> ops@[0]
                    == (NativeOp::HideWindow { hwnd: h }))
                &&& (a matches crate::runtime::WindowWithBorderAction::Raise(h) ==> ops@[0]
                    == (NativeOp::RaiseWindow { hwnd: h }))
                &&& (a matches crate::runtime::WindowWithBorderAction::Lower(h) ==> ops@[0]
                    == (NativeOp::LowerWindow { hwnd: h }))
            }))),
            (control matches Control::Transparency(_) ==> ({
                &&& final(self).border_manager == old(self).border_manager
                &&& final(self).monitors@ == old(self).monitors@
                &&& (!old(self).transparency_manager.enabled ==> ops@.len() == old(self).transparency_manager.known_transparent_hwnds@.len())
                &&& (forall|k: int|
                    0 <= k < ops@.len() ==> ((#[trigger] ops@[k]) is SetOpaque
                        || ops@[k] is SetTransparent))
                &&& (forall|k: int|
                    0 <= k < ops@.len() ==> ((#[trigger] ops@[k])
                        matches NativeOp::SetTransparent { hwnd, .. } ==> !env.spec_blacklisted(
                        hwnd,
                    )))
            })),
            (control matches Control::Stackbar(m) ==> ({
                &&& final(self).border_manager == old(self).border_manager
                &&& final(self).monitors@ == old(self).monitors@
                &&& (m is Update && (old(self).stackbar_manager.temporarely_disabled || old(self).stackbar_manager.globals.mode is Never) ==> ((final(self).stackbar_manager.stackbars@.len() == 0 && ops@.len() == old(self).stackbar_manager.stackbars@.len()) || (*final(self) == *old(self) && ops@.len()
                    == 0)))
            })),
    {
        match control {
            Control::Border(message) => {
                if !self.focus_ok() {
                    // No snapshot can be taken of an empty or ill-focused
                    // manager; the request is dropped and retried on the
                    // next update.
                    return Vec::new();
                }
                let info = self.to_border_info();
                self.border_manager.update(message, info, env)
            },
            Control::Monitor(_) => {
                // handled by the driver through handle_monitor_notification
                Vec::new()
            },
            Control::Stackbar(message) => {
                let g = &self.stackbar_manager.globals;
                let dims_ok = 0 <= g.default_container_padding
                    && g.default_container_padding <= 0x10000 && 0 < g.tab_width && g.tab_width
                    <= 0x10000 && 0 < g.tab_height && g.tab_height <= 0x10000;
                let info = self.to_stackbar_info();
                if dims_ok && stackbar_inputs_ok_exec(env, &info) {
                    self.stackbar_manager.update(message, info, env)
                } else {
                    // Geometry beyond the machine bounds: the refresh is
                    // dropped and self-heals on the next update.
                    Vec::new()
                }
            },
            Control::Transparency(message) => {
                let info = self.to_transparency_info();
                self.transparency_manager.update(message, info, env)
            },
            Control::WindowWithBorder(action) => {
                if !self.focus_ok() {
                    return Vec::new();
                }
                match action {
                    WindowWithBorderAction::Show(hwnd) => {
                        let mut ops: Vec<NativeOp> = Vec::new();
                        ops.push(NativeOp::RestoreWindow { hwnd });
                        let info = self.to_border_info();
                        let mut border_ops = self.border_manager.update(
                            border_manager::BorderMessage::Show(hwnd),
                            info,
                            env,
                        );
                        ops.append(&mut border_ops);
                        ops
                    },
                    WindowWithBorderAction::Hide(hwnd) => {
                        let mut ops: Vec<NativeOp> = Vec::new();
                        ops.push(NativeOp::HideWindow { hwnd });
                        let info = self.to_border_info();
                        let mut border_ops = self.border_manager.update(
                            border_manager::BorderMessage::Hide(hwnd),
                            info,
                            env,
                        );
                        ops.append(&mut border_ops);
                        ops
                    },
                    WindowWithBorderAction::Raise(hwnd) => {
                        let mut ops: Vec<NativeOp> = Vec::new();
                        ops.push(NativeOp::RaiseWindow { hwnd });
                        let info = self.to_border_info();
                        let mut border_ops = self.border_manager.update(
                            border_manager::BorderMessage::Raise(hwnd),
                            info,
                            env,
                        );
                        ops.append(&mut border_ops);
                        ops
                    },
                    WindowWithBorderAction::Lower(hwnd) => {
                        let mut ops: Vec<NativeOp> = Vec::new();
                        ops.push(NativeOp::LowerWindow { hwnd });
                        let info = self.to_border_info();
                        let mut border_ops = self.border_manager.update(
                            border_manager::BorderMessage::Lower(hwnd),
                            info,
                            env,
                        );
                        ops.append(&mut border_ops);
                        ops
                    },
                }
            },
        }
    }
}

fn contains_hwnd(v: &Vec<isize>, h: isize) -> (r: bool)
    ensures
        r == v@.contains(h),
{
    let mut i: usize = 0;
    while i < v.len()
        invariant
            0 <= i <= v@.len(),
            forall|j: int| 0 <= j < i ==> v@[j] != h,
        decreases v@.len() - i,
    {
        if v[i] == h {
            return true;
        }
        i = i + 1;
    }
    false
}

/// The executable form of the stackbar manager's overflow bounds.
#[verifier::loop_isolation(false)]
fn stackbar_inputs_ok_exec(env: &NativeEnv, wm_info: &stackbar_manager::WindowManagerInfo) -> (r:
    bool)
    ensures
        r == stackbar_manager::stackbar_inputs_ok(*env, *wm_info),
{
    let mut k: usize = 0;
    while k < env.window_rects.len()
        invariant
            0 <= k <= env.window_rects@.len(),
            forall|j: int|
                0 <= j < k ==> crate::ops::rect_bounded(
                    (#[trigger] env.window_rects@[j]).1,
                    0x10000000,
                ),
        decreases env.window_rects@.len() - k,
    {
        let r = env.window_rects[k].1;
        if !(-0x10000000 <= r.left && r.left <= 0x10000000 && -0x10000000 <= r.top && r.top
            <= 0x10000000 && -0x10000000 <= r.right && r.right <= 0x10000000 && -0x10000000
            <= r.bottom && r.bottom <= 0x10000000) {
            proof {
                assert(!crate::ops::rect_bounded(
                    (#[trigger] env.window_rects@[k as int]).1,
                    0x10000000,
                ));
            }
            return false;
        }
        k = k + 1;
    }
    if !(-0x10000 <= wm_info.border_width && wm_info.border_width <= 0x10000 && -0x10000
        <= wm_info.border_offset && wm_info.border_offset <= 0x10000) {
        return false;
    }
    let mut mi: usize = 0;
    while mi < wm_info.monitors.len()
        invariant
            0 <= mi <= wm_info.monitors@.len(),
            forall|j: int|
                0 <= j < mi ==> {
                    let m = #[trigger] wm_info.monitors@[j];
                    forall|wi: int|
                        0 <= wi < m.workspaces@.len() ==> {
                            let ws = #[trigger] m.workspaces@[wi];
                            &&& (ws.container_padding matches Some(p) ==> -0x10000 <= p <= 0x10000)
                            &&& forall|ci: int|
                                0 <= ci < ws.containers@.len() ==> (
                                #[trigger] ws.containers@[ci]).windows@.len() <= 0x1000
                        }
                },
        decreases wm_info.monitors@.len() - mi,
    {
        let m = &wm_info.monitors[mi];
        let mut wi: usize = 0;
        while wi < m.workspaces.len()
            invariant
                0 <= wi <= m.workspaces@.len(),
                forall|j: int|
                    0 <= j < wi ==> {
                        let ws = #[trigger] m.workspaces@[j];
                        &&& (ws.container_padding matches Some(p) ==> -0x10000 <= p <= 0x10000)
                        &&& forall|ci: int|
                            0 <= ci < ws.containers@.len() ==> (
                            #[trigger] ws.containers@[ci]).windows@.len() <= 0x1000
                    },
            decreases m.workspaces@.len() - wi,
        {
            let ws = &m.workspaces[wi];
            match ws.container_padding {
                Some(p) => {
                    if !(-0x10000 <= p && p <= 0x10000) {
                        proof {
                            let m0 = wm_info.monitors@[mi as int];
                            let ws0 = m0.workspaces@[wi as int];
                            assert(ws0.container_padding matches Some(p0) && !(-0x10000 <= p0
                                <= 0x10000));
                        }
                        return false;
                    }
                },
                None => {},
            }
            let mut ci: usize = 0;
            while ci < ws.containers.len()
                invariant
                    0 <= ci <= ws.containers@.len(),
                    ws.container_padding matches Some(p) ==> -0x10000 <= p <= 0x10000,
                    forall|j: int|
                        0 <= j < ci ==> (#[trigger] ws.containers@[j]).windows@.len() <= 0x1000,
                decreases ws.containers@.len() - ci,
            {
                if ws.containers[ci].windows.len() > 0x1000 {
                    proof {
                        let m0 = wm_info.monitors@[mi as int];
                        let ws0 = m0.workspaces@[wi as int];
                        assert(ws0.containers@[ci as int].windows@.len() > 0x1000);
                    }
                    return false;
                }
                ci = ci + 1;
            }
            wi = wi + 1;
        }
        mi = mi + 1;
    }
    true
}

} // verus!
