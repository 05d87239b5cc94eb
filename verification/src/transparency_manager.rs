//! Decides which managed windows are made transparent and which opaque:
//! unfocused containers' focused windows turn transparent (unless the
//! blacklist protects them), everything in focus stays opaque.

use crate::monitor::Monitor;
use crate::ops::NativeEnv;
use crate::ops::NativeOp;
use vstd::prelude::*;

verus! {

/// Responsible for handling all transparency related logic and control.
#[derive(Debug)]
pub struct TransparencyManager {
    pub enabled: bool,
    pub alpha: u8,
    /// The windows this manager has made transparent.
    pub known_transparent_hwnds: Vec<isize>,
}

impl Default for TransparencyManager {
    /// Transparency starts disabled, at the default alpha.
    fn default() -> (r: Self)
        ensures
            r.enabled == false,
            r.alpha == 200,
            r.known_transparent_hwnds@.len() == 0,
    {
        TransparencyManager { enabled: false, alpha: 200, known_transparent_hwnds: Vec::new() }
    }
}

/// A control request consumed by the transparency manager.
#[derive(Debug, Clone, Copy, PartialEq, Eq, Structural)]
pub enum TransparencyMessage {
    Update,
}

/// The info from the `WindowManager` that the transparency manager needs.
#[derive(Debug)]
pub struct WindowManagerInfo {
    pub monitors: Vec<Monitor>,
    pub focused_monitor_idx: usize,
}

impl TransparencyManager {
    /// Consumes one control request.
    pub fn update(&mut self, message: TransparencyMessage, wm_info: WindowManagerInfo, env: &NativeEnv) -> (ops: Vec<
        NativeOp,
    >)
        ensures
            !old(self).enabled ==> final(self).known_transparent_hwnds@ == old(
                self,
            ).known_transparent_hwnds@ && ops@.len() == old(self).known_transparent_hwnds@.len()
                && (forall|k: int|
                0 <= k < ops@.len() ==> ops@[k] == (NativeOp::SetOpaque {
                    hwnd: (#[trigger] old(self).known_transparent_hwnds@[k]),
                    alpha: old(self).alpha,
                })),
            forall|k: int|
                0 <= k < ops@.len() ==> ((#[trigger] ops@[k]) is SetOpaque
                    || ops@[k] is SetTransparent),
            forall|k: int|
                0 <= k < ops@.len() ==> ((#[trigger] ops@[k]) matches NativeOp::SetTransparent {
                    hwnd, .. } ==> !env.spec_blacklisted(hwnd)),
            final(self).enabled == old(self).enabled,
            final(self).alpha == old(self).alpha,
    {
        match message {
            TransparencyMessage::Update => self.update_transparent_hwnds(wm_info, env),
        }
    }

    /// Recomputes transparency across every monitor's workspaces. Disabled,
    /// it restores every known transparent window to opacity; enabled, it
    /// walks the focused workspace of each monitor, keeps focused content
    /// opaque, and makes unfocused containers' focused windows transparent
    /// unless the blacklist protects them.
    #[verifier::loop_isolation(false)]
    fn update_transparent_hwnds(&mut self, wm_info: WindowManagerInfo, env: &NativeEnv) -> (ops:
        Vec<NativeOp>)
        ensures
            !old(self).enabled ==> final(self).known_transparent_hwnds@ == old(
                self,
            ).known_transparent_hwnds@ && ops@.len() == old(self).known_transparent_hwnds@.len()
                && (forall|k: int|
                0 <= k < ops@.len() ==> ops@[k] == (NativeOp::SetOpaque {
                    hwnd: (#[trigger] old(self).known_transparent_hwnds@[k]),
                    alpha: old(self).alpha,
                })),
            forall|k: int|
                0 <= k < ops@.len() ==> ((#[trigger] ops@[k]) is SetOpaque
                    || ops@[k] is SetTransparent),
            forall|k: int|
                0 <= k < ops@.len() ==> ((#[trigger] ops@[k]) matches NativeOp::SetTransparent {
                    hwnd, .. } ==> !env.spec_blacklisted(hwnd)),
            final(self).enabled == old(self).enabled,
            final(self).alpha == old(self).alpha,
    {
        let mut ops: Vec<NativeOp> = Vec::new();
        let alpha = self.alpha;
        if !self.enabled {
            let mut i: usize = 0;
            while i < self.known_transparent_hwnds.len()
                invariant
                    0 <= i <= self.known_transparent_hwnds@.len(),
                    *self == *old(self),
                    ops@.len() == i,
                    forall|k: int|
                        0 <= k < i ==> ops@[k] == (NativeOp::SetOpaque {
                            hwnd: (#[trigger] self.known_transparent_hwnds@[k]),
                            alpha: alpha,
                        }),
                decreases self.known_transparent_hwnds@.len() - i,
            {
                ops.push(NativeOp::SetOpaque { hwnd: self.known_transparent_hwnds[i], alpha });
                i = i + 1;
            }
            proof {
                assert forall|k: int| 0 <= k < ops@.len() implies ((#[trigger] ops@[k]) is SetOpaque
                    || ops@[k] is SetTransparent) by {
                    assert(ops@[k] == (NativeOp::SetOpaque {
                        hwnd: self.known_transparent_hwnds@[k],
                        alpha: alpha,
                    }));
                }
                assert forall|k: int|
                    0 <= k < ops@.len() implies ((#[trigger] ops@[k])
                    matches NativeOp::SetTransparent { hwnd, .. } ==> !env.spec_blacklisted(
                    hwnd,
                )) by {
                    assert(ops@[k] == (NativeOp::SetOpaque {
                        hwnd: self.known_transparent_hwnds@[k],
                        alpha: alpha,
                    }));
                }
            }
            return ops;
        }
        self.known_transparent_hwnds = Vec::new();
        let mut monitor_idx: usize = 0;
        while monitor_idx < wm_info.monitors.len()
            invariant
                self.enabled == old(self).enabled,
                self.alpha == old(self).alpha,
                forall|k: int|
                    0 <= k < ops@.len() ==> ((#[trigger] ops@[k]) is SetOpaque
                        || ops@[k] is SetTransparent),
                forall|k: int|
                    0 <= k < ops@.len() ==> ((#[trigger] ops@[k])
                        matches NativeOp::SetTransparent { hwnd, .. } ==> !env.spec_blacklisted(
                        hwnd,
                    )),
            decreases wm_info.monitors@.len() - monitor_idx,
        {
            let m = &wm_info.monitors[monitor_idx];
            let focused_workspace_idx = m.focused_workspace_idx;
            let mut workspace_idx: usize = 0;
            let mut skip_rest_of_monitor = false;
            while workspace_idx < m.workspaces.len()
                invariant
                    self.enabled == old(self).enabled,
                    self.alpha == old(self).alpha,
                    forall|k: int|
                        0 <= k < ops@.len() ==> ((#[trigger] ops@[k]) is SetOpaque
                            || ops@[k] is SetTransparent),
                    forall|k: int|
                        0 <= k < ops@.len() ==> ((#[trigger] ops@[k])
                            matches NativeOp::SetTransparent { hwnd, .. } ==> !env.spec_blacklisted(
                            hwnd,
                        )),
                decreases m.workspaces@.len() - workspace_idx,
            {
                if skip_rest_of_monitor {
                    break ;
                }
                let ws = &m.workspaces[workspace_idx];
                // Only the focused, tiled workspace of each monitor has
                // transparent windows; everything else is restored.
                if !ws.tile || workspace_idx != focused_workspace_idx {
                    let mut ci: usize = 0;
                    while ci < ws.containers.len()
                        invariant
                            self.enabled == old(self).enabled,
                            self.alpha == old(self).alpha,
                            forall|k: int|
                                0 <= k < ops@.len() ==> ((#[trigger] ops@[k]) is SetOpaque
                                    || ops@[k] is SetTransparent),
                            forall|k: int|
                                0 <= k < ops@.len() ==> ((#[trigger] ops@[k])
                                    matches NativeOp::SetTransparent { hwnd, .. }
                                    ==> !env.spec_blacklisted(hwnd)),
                        decreases ws.containers@.len() - ci,
                    {
                        match ws.containers[ci].focused_window() {
                            Some(w) => {
                                ops.push(NativeOp::SetOpaque { hwnd: w.hwnd, alpha });
                            },
                            None => {},
                        }
                        ci = ci + 1;
                    }
                    match &ws.monocle_container {
                        Some(mc) => {
                            match mc.focused_window() {
                                Some(w) => {
                                    ops.push(NativeOp::SetOpaque { hwnd: w.hwnd, alpha });
                                },
                                None => {},
                            }
                        },
                        None => {},
                    }
                    match ws.maximized_window {
                        Some(w) => {
                            ops.push(NativeOp::SetOpaque { hwnd: w.hwnd, alpha });
                        },
                        None => {},
                    }
                    let mut fi: usize = 0;
                    while fi < ws.floating_windows.len()
                        invariant
                            self.enabled == old(self).enabled,
                            self.alpha == old(self).alpha,
                            forall|k: int|
                                0 <= k < ops@.len() ==> ((#[trigger] ops@[k]) is SetOpaque
                                    || ops@[k] is SetTransparent),
                            forall|k: int|
                                0 <= k < ops@.len() ==> ((#[trigger] ops@[k])
                                    matches NativeOp::SetTransparent { hwnd, .. }
                                    ==> !env.spec_blacklisted(hwnd)),
                        decreases ws.floating_windows@.len() - fi,
                    {
                        ops.push(
                            NativeOp::SetOpaque { hwnd: ws.floating_windows[fi].hwnd, alpha },
                        );
                        fi = fi + 1;
                    }
                    workspace_idx = workspace_idx + 1;
                    continue ;
                }
                // A monocle container is never transparent.
                match &ws.monocle_container {
                    Some(mc) => {
                        match mc.focused_window() {
                            Some(w) => {
                                if monitor_idx == wm_info.focused_monitor_idx {
                                    ops.push(NativeOp::SetOpaque { hwnd: w.hwnd, alpha });
                                } else if !env.is_blacklisted(w.hwnd) {
                                    ops.push(NativeOp::SetTransparent { hwnd: w.hwnd, alpha });
                                }
                            },
                            None => {},
                        }
                        skip_rest_of_monitor = true;
                        workspace_idx = workspace_idx + 1;
                        continue ;
                    },
                    None => {},
                }
                // A maximized foreground window stays opaque and covers the
                // monitor.
                if env.foreground_zoomed {
                    ops.push(NativeOp::SetOpaque { hwnd: env.foreground_window, alpha });
                    skip_rest_of_monitor = true;
                    workspace_idx = workspace_idx + 1;
                    continue ;
                }
                let mut ci: usize = 0;
                while ci < ws.containers.len()
                    invariant
                        self.enabled == old(self).enabled,
                        self.alpha == old(self).alpha,
                        forall|k: int|
                            0 <= k < ops@.len() ==> ((#[trigger] ops@[k]) is SetOpaque
                                || ops@[k] is SetTransparent),
                        forall|k: int|
                            0 <= k < ops@.len() ==> ((#[trigger] ops@[k])
                                matches NativeOp::SetTransparent { hwnd, .. }
                                ==> !env.spec_blacklisted(hwnd)),
                    decreases ws.containers@.len() - ci,
                {
                    let c = &ws.containers[ci];
                    let focused_window_idx = c.focused_window_idx;
                    // Unfocused containers turn transparent; the focused
                    // container on the focused monitor stays opaque.
                    if ci != ws.focused_container_idx || monitor_idx
                        != wm_info.focused_monitor_idx {
                        let mut wi: usize = 0;
                        while wi < c.windows.len()
                            invariant
                                self.enabled == old(self).enabled,
                                self.alpha == old(self).alpha,
                                forall|k: int|
                                    0 <= k < ops@.len() ==> ((#[trigger] ops@[k]) is SetOpaque
                                        || ops@[k] is SetTransparent),
                                forall|k: int|
                                    0 <= k < ops@.len() ==> ((#[trigger] ops@[k])
                                        matches NativeOp::SetTransparent { hwnd, .. }
                                        ==> !env.spec_blacklisted(hwnd)),
                            decreases c.windows@.len() - wi,
                        {
                            let w = c.windows[wi];
                            if wi == focused_window_idx {
                                if !env.is_blacklisted(w.hwnd) {
                                    ops.push(NativeOp::SetTransparent { hwnd: w.hwnd, alpha });
                                    self.known_transparent_hwnds.push(w.hwnd);
                                }
                            } else {
                                // windows behind an unfocused stackbar tab
                                // are already treated as transparent
                                self.known_transparent_hwnds.push(w.hwnd);
                            }
                            wi = wi + 1;
                        }
                    } else {
                        let mut wi: usize = 0;
                        while wi < c.windows.len()
                            invariant
                                self.enabled == old(self).enabled,
                                self.alpha == old(self).alpha,
                                forall|k: int|
                                    0 <= k < ops@.len() ==> ((#[trigger] ops@[k]) is SetOpaque
                                        || ops@[k] is SetTransparent),
                                forall|k: int|
                                    0 <= k < ops@.len() ==> ((#[trigger] ops@[k])
                                        matches NativeOp::SetTransparent { hwnd, .. }
                                        ==> !env.spec_blacklisted(hwnd)),
                            decreases c.windows@.len() - wi,
                        {
                            let w = c.windows[wi];
                            if wi != focused_window_idx {
                                self.known_transparent_hwnds.push(w.hwnd);
                            } else {
                                ops.push(NativeOp::SetOpaque { hwnd: w.hwnd, alpha });
                            }
                            wi = wi + 1;
                        }
                    }
                    ci = ci + 1;
                }
                workspace_idx = workspace_idx + 1;
            }
            monitor_idx = monitor_idx + 1;
        }
        ops
    }
}


/// Requests a transparency refresh.
pub fn send_update(rt: &mut crate::runtime::Runtime) -> (accepted: bool)
    ensures
        crate::runtime::control_submitted(
            *old(rt),
            *final(rt),
            accepted,
            crate::runtime::Control::Transparency(TransparencyMessage::Update),
        ),
{
    crate::runtime::send_message(
        rt,
        crate::runtime::Message::Control(crate::runtime::Control::Transparency(
            TransparencyMessage::Update,
        )),
    )
}

} // verus!
