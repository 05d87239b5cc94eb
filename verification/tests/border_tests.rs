use komorebi::border_manager::BorderManager;
use komorebi::border_manager::BorderMessage;
use komorebi::border_manager::WindowManagerInfo;
use komorebi::core_types::Rect;
use komorebi::core_types::WorkspaceLayer;
use komorebi::monitor::Container;
use komorebi::monitor::Monitor;
use komorebi::monitor::Window;
use komorebi::monitor::Workspace;
use komorebi::ops::NativeEnv;
use komorebi::ops::NativeOp;
use komorebi::core_types::BorderImplementation;
use komorebi::core_types::ZOrder;
use komorebi::WindowKind;

fn rect(left: i32, top: i32, right: i32, bottom: i32) -> Rect {
    Rect { left, top, right, bottom }
}

fn container(id: &str, hwnds: &[isize]) -> Container {
    Container {
        id: id.to_string(),
        windows: hwnds.iter().map(|h| Window { hwnd: *h }).collect(),
        focused_window_idx: 0,
        locked: false,
    }
}

fn workspace(containers: Vec<Container>) -> Workspace {
    Workspace {
        tile: true,
        containers,
        focused_container_idx: 0,
        monocle_container: None,
        maximized_window: None,
        floating_windows: Vec::new(),
        layer: WorkspaceLayer::Tiling,
        container_padding: None,
        config: None,
    }
}

fn monitor_with(id: isize, ws: Workspace) -> Monitor {
    Monitor {
        id,
        name: format!("DISPLAY{}", id),
        device: "DEV".to_string(),
        device_id: format!("DEV-{}", id),
        serial_number_id: None,
        size: rect(0, 0, 1920, 1080),
        work_area_size: rect(0, 0, 1920, 1040),
        work_area_offset: None,
        container_padding: None,
        workspace_padding: None,
        wallpaper: None,
        last_focused_workspace: None,
        workspaces: vec![ws],
        focused_workspace_idx: 0,
    }
}

fn info(monitors: Vec<Monitor>, focused_monitor_idx: usize) -> WindowManagerInfo {
    WindowManagerInfo {
        is_paused: false,
        focused_monitor_idx,
        monitors,
        pending_move_op: None,
        floating_window_hwnds: Vec::new(),
        workspace_layer: WorkspaceLayer::Tiling,
    }
}

fn env(
    foreground: isize,
    rects: Vec<(isize, Rect)>,
    fresh: Vec<isize>,
    visible: Vec<isize>,
) -> NativeEnv {
    NativeEnv {
        foreground_window: foreground,
        foreground_monitor_id: 0,
        foreground_zoomed: false,
        visible_hwnds: visible,
        window_rects: rects,
        fresh_border_hwnds: fresh,
        fresh_stackbar_hwnds: Vec::new(),
        blacklisted_hwnds: Vec::new(),
    }
}

fn invalidate_count(ops: &[NativeOp], border_hwnd: isize) -> usize {
    ops.iter()
        .filter(|op| matches!(op, NativeOp::InvalidateBorder { border_hwnd: b } if *b == border_hwnd))
        .count()
}

#[test]
fn reconcile_is_idempotent_for_unchanged_snapshot() {
    let mut bm = BorderManager::new();
    bm.enabled = true;
    let e = env(
        110,
        vec![(110, rect(0, 0, 800, 600))],
        vec![1001],
        vec![1001, 110],
    );
    let first = bm.update(
        BorderMessage::Update(None),
        info(vec![monitor_with(0, workspace(vec![container("C1", &[110])]))], 0),
        &e,
    );
    assert!(!first.is_empty());
    // Same snapshot again, no forced flag: zero native side effects.
    let second = bm.update(
        BorderMessage::Update(None),
        info(vec![monitor_with(0, workspace(vec![container("C1", &[110])]))], 0),
        &e,
    );
    assert!(second.is_empty());
}

#[test]
fn focus_classification_stack_single_unfocused() {
    // Focused container on the focused monitor whose focused window is the
    // foreground window: Stack when it holds more than one window.
    assert_eq!(
        komorebi::border_manager::classify_container_kind(0, 0, 0, 0, 110, 110, 2, false),
        WindowKind::Stack
    );
    // The same with a single window: Single.
    assert_eq!(
        komorebi::border_manager::classify_container_kind(0, 0, 0, 0, 110, 110, 1, false),
        WindowKind::Single
    );
    // Not the focused container: Unfocused.
    assert_eq!(
        komorebi::border_manager::classify_container_kind(1, 0, 0, 0, 110, 110, 2, false),
        WindowKind::Unfocused
    );
    // Not the focused monitor: Unfocused.
    assert_eq!(
        komorebi::border_manager::classify_container_kind(0, 0, 1, 0, 110, 110, 1, false),
        WindowKind::Unfocused
    );
    // Focused window is not the foreground window: Unfocused.
    assert_eq!(
        komorebi::border_manager::classify_container_kind(0, 0, 0, 0, 110, 111, 1, false),
        WindowKind::Unfocused
    );
    // A locked container that loses focus keeps its own unfocused kind.
    assert_eq!(
        komorebi::border_manager::classify_container_kind(1, 0, 0, 0, 110, 110, 1, true),
        WindowKind::UnfocusedLocked
    );
}

#[test]
fn disable_sweep_empties_maps_and_destroys_overlays() {
    let mut bm = BorderManager::new();
    bm.enabled = true;
    let e = env(
        110,
        vec![(110, rect(0, 0, 800, 600)), (120, rect(0, 0, 640, 480))],
        vec![1001, 1002],
        vec![1001, 1002, 110, 120],
    );
    let snapshot = info(
        vec![monitor_with(
            0,
            workspace(vec![container("C1", &[110]), container("C2", &[120])]),
        )],
        0,
    );
    let _ = bm.update(BorderMessage::Update(None), snapshot, &e);
    assert_eq!(bm.borders.len(), 2);
    // Globally disable borders: one pass destroys every overlay and clears
    // the reverse index.
    bm.enabled = false;
    let snapshot2 = info(
        vec![monitor_with(
            0,
            workspace(vec![container("C1", &[110]), container("C2", &[120])]),
        )],
        0,
    );
    // A disabled-borders pass needs an open gate; the hint of the window
    // wearing an unfocused border opens it.
    let ops = bm.update(BorderMessage::Update(Some(120)), snapshot2, &e);
    assert_eq!(bm.borders.len(), 0);
    assert_eq!(bm.windows_borders.len(), 0);
    let destroys = ops
        .iter()
        .filter(|op| matches!(op, NativeOp::DestroyBorder { .. }))
        .count();
    assert_eq!(destroys, 2);
}

#[test]
fn monocle_exclusivity_leaves_one_border() {
    let mut bm = BorderManager::new();
    bm.enabled = true;
    let e1 = env(
        110,
        vec![(110, rect(0, 0, 800, 600)), (120, rect(0, 0, 640, 480))],
        vec![1001, 1002],
        vec![1001, 1002, 110, 120],
    );
    let snapshot = info(
        vec![monitor_with(
            0,
            workspace(vec![container("C1", &[110]), container("C2", &[120])]),
        )],
        0,
    );
    let _ = bm.update(BorderMessage::Update(None), snapshot, &e1);
    assert_eq!(bm.borders.len(), 2);
    // Put C2 in monocle mode: after the pass exactly one border remains on
    // the monitor and it references the monocle's focused window.
    let mut ws = workspace(vec![container("C1", &[110])]);
    ws.monocle_container = Some(container("C2", &[120]));
    let snapshot2 = info(vec![monitor_with(0, ws)], 0);
    let e2 = env(
        120,
        vec![(110, rect(0, 0, 800, 600)), (120, rect(0, 0, 640, 480))],
        vec![1003],
        vec![1001, 1002, 110, 120],
    );
    let _ = bm.update(BorderMessage::Update(Some(120)), snapshot2, &e2);
    assert_eq!(bm.borders.len(), 1);
    assert_eq!(bm.borders[0].id, "C2".to_string());
    assert_eq!(bm.borders[0].tracking_hwnd, 120);
    assert_eq!(bm.borders[0].window_kind, WindowKind::Monocle);
}

#[test]
fn garbage_collection_drops_removed_container() {
    let mut bm = BorderManager::new();
    bm.enabled = true;
    let e = env(
        110,
        vec![
            (110, rect(0, 0, 800, 600)),
            (120, rect(0, 0, 640, 480)),
            (130, rect(0, 0, 320, 240)),
        ],
        vec![1001, 1002, 1003],
        vec![1001, 1002, 1003, 110, 120, 130],
    );
    let snapshot = info(
        vec![monitor_with(
            0,
            workspace(vec![
                container("A", &[110]),
                container("B", &[120]),
                container("C", &[130]),
            ]),
        )],
        0,
    );
    let _ = bm.update(BorderMessage::Update(None), snapshot, &e);
    assert_eq!(bm.borders.len(), 3);
    // The container set shrinks from {A,B,C} to {A,C}: the border keyed "B"
    // no longer exists after the pass.
    let snapshot2 = info(
        vec![monitor_with(
            0,
            workspace(vec![container("A", &[110]), container("C", &[130])]),
        )],
        0,
    );
    let _ = bm.update(BorderMessage::Update(None), snapshot2, &e);
    assert_eq!(bm.borders.len(), 2);
    assert!(bm.borders.iter().all(|b| b.id != "B"));
    assert!(bm.window_border(120).is_none());
}

#[test]
fn two_monitor_focus_switch_flips_kinds_with_one_invalidate_each() {
    let mut bm = BorderManager::new();
    bm.enabled = true;
    // Monitor 0 focused, C1 single-window and foreground; monitor 1
    // unfocused with C2.
    let e1 = env(
        110,
        vec![(110, rect(0, 0, 800, 600)), (220, rect(0, 0, 640, 480))],
        vec![1001, 1002],
        vec![1001, 1002, 110, 220],
    );
    let snapshot1 = info(
        vec![
            monitor_with(0, workspace(vec![container("C1", &[110])])),
            monitor_with(1, workspace(vec![container("C2", &[220])])),
        ],
        0,
    );
    let _ = bm.update(BorderMessage::Update(None), snapshot1, &e1);
    assert_eq!(bm.borders.len(), 2);
    let c1 = bm.borders.iter().find(|b| b.id == "C1").unwrap();
    let c2 = bm.borders.iter().find(|b| b.id == "C2").unwrap();
    assert_eq!(c1.window_kind, WindowKind::Single);
    assert_eq!(c2.window_kind, WindowKind::Unfocused);
    let b1 = c1.hwnd;
    let b2 = c2.hwnd;
    // Switch the OS focus to monitor 1's container and reconcile again:
    // both kinds flip, and each changed border is invalidated exactly once.
    let e2 = env(
        220,
        vec![(110, rect(0, 0, 800, 600)), (220, rect(0, 0, 640, 480))],
        vec![],
        vec![1001, 1002, 110, 220],
    );
    let snapshot2 = info(
        vec![
            monitor_with(0, workspace(vec![container("C1", &[110])])),
            monitor_with(1, workspace(vec![container("C2", &[220])])),
        ],
        1,
    );
    let ops = bm.update(BorderMessage::Update(Some(220)), snapshot2, &e2);
    let c1 = bm.borders.iter().find(|b| b.id == "C1").unwrap();
    let c2 = bm.borders.iter().find(|b| b.id == "C2").unwrap();
    assert_eq!(c1.window_kind, WindowKind::Unfocused);
    assert_eq!(c2.window_kind, WindowKind::Single);
    assert_eq!(invalidate_count(&ops, b1), 1);
    assert_eq!(invalidate_count(&ops, b2), 1);
}

#[test]
fn reverse_index_binds_each_window_to_one_border() {
    let mut bm = BorderManager::new();
    bm.enabled = true;
    let e = env(
        110,
        vec![(110, rect(0, 0, 800, 600)), (120, rect(0, 0, 640, 480))],
        vec![1001, 1002],
        vec![1001, 1002, 110, 120],
    );
    let snapshot = info(
        vec![monitor_with(
            0,
            workspace(vec![container("C1", &[110]), container("C2", &[120])]),
        )],
        0,
    );
    let _ = bm.update(BorderMessage::Update(None), snapshot, &e);
    // Each tracked window has exactly one reverse-index entry, and the
    // bound border tracks exactly that window.
    for w in [110isize, 120isize] {
        let entries: Vec<_> = bm.windows_borders.iter().filter(|(h, _)| *h == w).collect();
        assert_eq!(entries.len(), 1);
        let id = &entries[0].1;
        let b = bm.borders.iter().find(|b| b.id == *id).unwrap();
        assert_eq!(b.tracking_hwnd, w);
    }
}

#[test]
fn show_hide_raise_lower_and_delete_act_on_the_tracked_border() {
    let mut bm = BorderManager::new();
    bm.enabled = true;
    let e = env(
        110,
        vec![(110, rect(0, 0, 800, 600))],
        vec![1001],
        vec![1001, 110],
    );
    let snap = || info(vec![monitor_with(0, workspace(vec![container("C1", &[110])]))], 0);
    let _ = bm.update(BorderMessage::Update(None), snap(), &e);
    let border_hwnd = bm.borders[0].hwnd;

    let ops = bm.update(BorderMessage::Show(110), snap(), &e);
    assert!(matches!(ops[..], [NativeOp::RestoreWindow { hwnd }] if hwnd == border_hwnd));
    let ops = bm.update(BorderMessage::Hide(110), snap(), &e);
    assert!(matches!(ops[..], [NativeOp::HideWindow { hwnd }] if hwnd == border_hwnd));
    let ops = bm.update(BorderMessage::Raise(110), snap(), &e);
    assert!(matches!(ops[..], [NativeOp::RaiseWindow { hwnd }] if hwnd == border_hwnd));
    let ops = bm.update(BorderMessage::Lower(110), snap(), &e);
    assert!(matches!(ops[..], [NativeOp::LowerWindow { hwnd }] if hwnd == border_hwnd));
    // No border for an unknown window: no operation.
    let ops = bm.update(BorderMessage::Show(999), snap(), &e);
    assert!(ops.is_empty());
    // Delete removes the border and its reverse-index entry.
    let ops = bm.update(BorderMessage::Delete(110), snap(), &e);
    assert!(matches!(ops[..], [NativeOp::DestroyBorder { border_hwnd: b }] if b == border_hwnd));
    assert!(bm.window_border(110).is_none());
    assert_eq!(bm.borders.len(), 0);
}

#[test]
fn pass_event_notifies_the_border_window() {
    let mut bm = BorderManager::new();
    bm.enabled = true;
    let e = env(
        110,
        vec![(110, rect(0, 0, 800, 600))],
        vec![1001],
        vec![1001, 110],
    );
    let snap = || info(vec![monitor_with(0, workspace(vec![container("C1", &[110])]))], 0);
    let _ = bm.update(BorderMessage::Update(None), snap(), &e);
    let border_hwnd = bm.borders[0].hwnd;
    let ops = bm.update(BorderMessage::PassEvent(110, 7), snap(), &e);
    assert!(matches!(
        ops[..],
        [NativeOp::NotifyBorder { border_hwnd: b, event: 7, tracking_hwnd: 110 }] if b == border_hwnd
    ));
}

#[test]
fn hwnd_key_formats_handles_in_decimal() {
    assert_eq!(komorebi::border_manager::hwnd_key(0), "0".to_string());
    assert_eq!(komorebi::border_manager::hwnd_key(123), "123".to_string());
    assert_eq!(komorebi::border_manager::hwnd_key(-45), "-45".to_string());
    assert_eq!(komorebi::border_manager::hwnd_key(100200300), "100200300".to_string());
}

#[test]
fn window_kind_colours_follow_configuration() {
    let colours = komorebi::border_manager::WindowKindColours::default();
    assert_eq!(
        colours.from_kind(WindowKind::Single),
        komorebi::core_types::Rgb::new(66, 165, 245).to_u32()
    );
    assert_eq!(colours.from_kind(WindowKind::Single), 66 + 165 * 256 + 245 * 65536);
    assert_eq!(colours.from_kind(WindowKind::Stack), 0 + 165 * 256 + 66 * 65536);
    assert_eq!(colours.from_kind(WindowKind::Monocle), 255 + 51 * 256 + 153 * 65536);
    assert_eq!(colours.from_kind(WindowKind::Unfocused), 128 + 128 * 256 + 128 * 65536);
}

#[test]
fn zorder_order_values() {
    assert_eq!(ZOrder::Top.order_value(), 0);
    assert_eq!(ZOrder::NoTopMost.order_value(), -2);
    assert_eq!(ZOrder::Bottom.order_value(), 1);
    assert_eq!(ZOrder::TopMost.order_value(), -1);
}

#[test]
fn native_accent_mode_sets_accents_from_the_snapshot() {
    let mut bm = BorderManager::new();
    bm.enabled = true;
    bm.border_implementation = BorderImplementation::Windows;
    let colours = bm.kind_colours;
    let e = env(110, vec![], vec![], vec![]);
    // One focused single-window container, one unfocused container, one
    // floating foreground window.
    let mut ws = workspace(vec![container("C1", &[110]), container("C2", &[120])]);
    ws.floating_windows.push(Window { hwnd: 130 });
    let snapshot = info(vec![monitor_with(0, ws)], 0);
    let ops = bm.update(BorderMessage::Update(None), snapshot, &e);
    assert_eq!(ops.len(), 3);
    assert!(matches!(
        ops[0],
        NativeOp::SetAccent { hwnd: 110, colour } if colour == colours.from_kind(WindowKind::Single)
    ));
    assert!(matches!(
        ops[1],
        NativeOp::SetAccent { hwnd: 120, colour } if colour == colours.from_kind(WindowKind::Unfocused)
    ));
    // 130 is not the foreground window here, so it is unfocused, not
    // floating.
    assert!(matches!(
        ops[2],
        NativeOp::SetAccent { hwnd: 130, colour } if colour == colours.from_kind(WindowKind::Unfocused)
    ));
    // No overlay windows exist in this mode.
    assert_eq!(bm.borders.len(), 0);
    // A monocle container is handled exclusively.
    let mut ws2 = workspace(vec![container("C1", &[110])]);
    ws2.monocle_container = Some(container("M", &[140]));
    let snapshot2 = info(vec![monitor_with(0, ws2)], 0);
    let ops = bm.update(BorderMessage::Update(None), snapshot2, &e);
    assert_eq!(ops.len(), 1);
    assert!(matches!(
        ops[0],
        NativeOp::SetAccent { hwnd: 140, colour } if colour == colours.from_kind(WindowKind::Monocle)
    ));
}

#[test]
fn a_dead_window_drops_only_its_own_border() {
    // One container's geometry read fails mid-pass: its border is dropped
    // and destroyed, and the remaining containers are still reconciled.
    let mut bm = BorderManager::new();
    bm.enabled = true;
    let e = env(
        110,
        // 120 has no geometry: that window is gone.
        vec![(110, rect(0, 0, 800, 600)), (130, rect(0, 0, 320, 240))],
        vec![1001, 1002, 1003],
        vec![1001, 1002, 1003, 110, 120, 130],
    );
    let snapshot = info(
        vec![monitor_with(
            0,
            workspace(vec![
                container("A", &[110]),
                container("B", &[120]),
                container("C", &[130]),
            ]),
        )],
        0,
    );
    let ops = bm.update(BorderMessage::Update(None), snapshot, &e);
    assert_eq!(bm.borders.len(), 2);
    assert!(bm.borders.iter().any(|b| b.id == "A"));
    assert!(bm.borders.iter().any(|b| b.id == "C"));
    assert!(bm.borders.iter().all(|b| b.id != "B"));
    // B's freshly created overlay was destroyed again.
    assert!(ops
        .iter()
        .any(|op| matches!(op, NativeOp::DestroyBorder { border_hwnd: 1002 })));
}
