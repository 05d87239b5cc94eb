use komorebi::core_types::BorderStyle;
use komorebi::core_types::Rect;
use komorebi::core_types::StackbarMode;
use komorebi::core_types::WorkspaceLayer;
use komorebi::monitor::Container;
use komorebi::monitor::Monitor;
use komorebi::monitor::Window;
use komorebi::monitor::Workspace;
use komorebi::ops::NativeEnv;
use komorebi::ops::NativeOp;
use komorebi::stackbar_manager::should_have_stackbar;
use komorebi::stackbar_manager::tab_rect;
use komorebi::stackbar_manager::ButtonDownInfo;
use komorebi::stackbar_manager::Stackbar;
use komorebi::stackbar_manager::StackbarManager;
use komorebi::stackbar_manager::StackbarMessage;
use komorebi::transparency_manager::TransparencyManager;
use komorebi::transparency_manager::TransparencyMessage;

fn rect(left: i32, top: i32, right: i32, bottom: i32) -> Rect {
    Rect { left, top, right, bottom }
}

fn container(id: &str, hwnds: &[isize]) -> Container {
    Container {
        id: id.to_string(),
        windows: hwnds.iter().map(|h| Window { hwnd: *h }).collect(),
        focused_window_idx: 0,
        locked: false,
    }
}

fn workspace(containers: Vec<Container>) -> Workspace {
    Workspace {
        tile: true,
        containers,
        focused_container_idx: 0,
        monocle_container: None,
        maximized_window: None,
        floating_windows: Vec::new(),
        layer: WorkspaceLayer::Tiling,
        container_padding: None,
        config: None,
    }
}

fn monitor_with(id: isize, ws: Workspace) -> Monitor {
    Monitor {
        id,
        name: format!("DISPLAY{}", id),
        device: "DEV".to_string(),
        device_id: format!("DEV-{}", id),
        serial_number_id: None,
        size: rect(0, 0, 1920, 1080),
        work_area_size: rect(0, 0, 1920, 1040),
        work_area_offset: None,
        container_padding: None,
        workspace_padding: None,
        wallpaper: None,
        last_focused_workspace: None,
        workspaces: vec![ws],
        focused_workspace_idx: 0,
    }
}

fn stackbar_info(monitors: Vec<Monitor>) -> komorebi::stackbar_manager::WindowManagerInfo {
    komorebi::stackbar_manager::WindowManagerInfo {
        is_paused: false,
        monitors,
        border_width: 8,
        border_offset: -1,
        border_style: BorderStyle::System,
    }
}

fn env(foreground: isize, rects: Vec<(isize, Rect)>, fresh_stackbars: Vec<isize>) -> NativeEnv {
    NativeEnv {
        foreground_window: foreground,
        foreground_monitor_id: 0,
        foreground_zoomed: false,
        visible_hwnds: Vec::new(),
        window_rects: rects,
        fresh_border_hwnds: Vec::new(),
        fresh_stackbar_hwnds: fresh_stackbars,
        blacklisted_hwnds: Vec::new(),
    }
}

#[test]
fn stackbar_mode_decides_which_containers_get_a_bar() {
    assert!(should_have_stackbar(&StackbarMode::Always, 1));
    assert!(should_have_stackbar(&StackbarMode::Always, 0));
    assert!(should_have_stackbar(&StackbarMode::OnStack, 2));
    assert!(!should_have_stackbar(&StackbarMode::OnStack, 1));
    assert!(!should_have_stackbar(&StackbarMode::Never, 5));
}

#[test]
fn tabs_sit_side_by_side_one_gap_apart() {
    // left = gap + i * (width + gap)
    assert_eq!(tab_rect(10, 200, 40, 0), rect(10, 0, 210, 40));
    assert_eq!(tab_rect(10, 200, 40, 1), rect(220, 0, 420, 40));
    assert_eq!(tab_rect(10, 200, 40, 2), rect(430, 0, 630, 40));
}

#[test]
fn disabled_stackbars_are_destroyed() {
    let mut sm = StackbarManager::new();
    sm.stackbars.push(("X".to_string(), Stackbar { hwnd: 71 }));
    sm.stackbars.push(("Y".to_string(), Stackbar { hwnd: 72 }));
    sm.temporarely_disabled = true;
    let ops = sm.update(StackbarMessage::Update, stackbar_info(Vec::new()), &env(0, Vec::new(), Vec::new()));
    assert_eq!(ops.len(), 2);
    assert!(matches!(ops[0], NativeOp::CloseWindow { hwnd: 71 }));
    assert!(matches!(ops[1], NativeOp::CloseWindow { hwnd: 72 }));
    assert!(sm.stackbars.is_empty());
}

#[test]
fn a_stacked_container_gets_a_positioned_redrawn_bar() {
    let mut sm = StackbarManager::new();
    sm.globals.mode = StackbarMode::OnStack;
    let info = stackbar_info(vec![monitor_with(
        0,
        workspace(vec![container("S", &[110, 120])]),
    )]);
    let e = env(110, vec![(110, rect(100, 100, 500, 400))], vec![7001]);
    let ops = sm.update(StackbarMessage::Update, info, &e);
    assert!(ops
        .iter()
        .any(|op| matches!(op, NativeOp::CreateStackbar { hwnd: 7001, .. })));
    // The bar sits above the container, offset by border width, border
    // offset and container padding: 8 + (-1) + 10 = 17.
    assert!(ops.iter().any(|op| matches!(
        op,
        NativeOp::PositionStackbar { hwnd: 7001, rect: r }
            if *r == rect(100 - 17, 100 - 17 - 40, 500, 400)
    )));
    let draw = ops
        .iter()
        .find(|op| matches!(op, NativeOp::DrawStackbar { .. }))
        .unwrap();
    if let NativeOp::DrawStackbar { hwnd, tab_rects, focused_tab } = draw {
        assert_eq!(*hwnd, 7001);
        assert_eq!(tab_rects.len(), 2);
        assert_eq!(tab_rects[0], rect(10, 0, 210, 40));
        assert_eq!(tab_rects[1], rect(220, 0, 420, 40));
        assert_eq!(*focused_tab, 0);
    } else {
        unreachable!();
    }
}

#[test]
fn clicking_a_tab_focuses_its_window_and_hides_the_rest() {
    let mut sm = StackbarManager::new();
    sm.stackbars_containers
        .push((71, container("S", &[110, 120])));
    let e = env(110, vec![(110, rect(100, 100, 500, 400))], Vec::new());
    // A click on the first tab: its window is already the focused one, so
    // it is restored and focused; the other window hides.
    let ops = sm.update(StackbarMessage::ButtonDown(ButtonDownInfo::new(71, 15, 10)), stackbar_info(Vec::new()), &e);
    assert!(matches!(
        ops[..],
        [
            NativeOp::RestoreWindow { hwnd: 110 },
            NativeOp::FocusWindow { hwnd: 110 },
            NativeOp::HideWindow { hwnd: 120 },
        ]
    ));
    // A click on the second tab first moves that window onto the focused
    // tile so it does not repaint over other tiles on the way.
    let ops = sm.update(StackbarMessage::ButtonDown(ButtonDownInfo::new(71, 230, 10)), stackbar_info(Vec::new()), &e);
    assert!(matches!(
        ops[..],
        [
            NativeOp::HideWindow { hwnd: 110 },
            NativeOp::SetWindowPosition { hwnd: 120, rect: r },
            NativeOp::RestoreWindow { hwnd: 120 },
            NativeOp::FocusWindow { hwnd: 120 },
        ] if r == rect(100, 100, 500, 400)
    ));
}

#[test]
fn disabled_transparency_restores_known_windows() {
    let mut tm = TransparencyManager::default();
    tm.known_transparent_hwnds.push(11);
    tm.known_transparent_hwnds.push(12);
    let info = komorebi::transparency_manager::WindowManagerInfo {
        monitors: Vec::new(),
        focused_monitor_idx: 0,
    };
    let ops = tm.update(TransparencyMessage::Update, info, &env(0, Vec::new(), Vec::new()));
    assert_eq!(ops.len(), 2);
    assert!(matches!(ops[0], NativeOp::SetOpaque { hwnd: 11, alpha: 200 }));
    assert!(matches!(ops[1], NativeOp::SetOpaque { hwnd: 12, alpha: 200 }));
}

#[test]
fn unfocused_containers_turn_transparent_unless_blacklisted() {
    let mut tm = TransparencyManager::default();
    tm.enabled = true;
    let info = komorebi::transparency_manager::WindowManagerInfo {
        monitors: vec![monitor_with(
            0,
            workspace(vec![
                container("A", &[110]),
                container("B", &[120]),
                container("C", &[130]),
            ]),
        )],
        focused_monitor_idx: 0,
    };
    let mut e = env(110, Vec::new(), Vec::new());
    e.blacklisted_hwnds.push(130);
    let ops = tm.update(TransparencyMessage::Update, info, &e);
    // The focused container's window stays opaque; the unfocused ones turn
    // transparent, except the blacklisted window.
    assert!(ops
        .iter()
        .any(|op| matches!(op, NativeOp::SetOpaque { hwnd: 110, .. })));
    assert!(ops
        .iter()
        .any(|op| matches!(op, NativeOp::SetTransparent { hwnd: 120, .. })));
    assert!(!ops
        .iter()
        .any(|op| matches!(op, NativeOp::SetTransparent { hwnd: 130, .. })));
    assert!(tm.known_transparent_hwnds.contains(&120));
}
