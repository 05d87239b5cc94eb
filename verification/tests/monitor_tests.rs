use komorebi::core_types::Rect;
use komorebi::monitor;
use komorebi::monitor_reconciliator::attached_display_devices;
use komorebi::monitor_reconciliator::Device;
use komorebi::monitor_reconciliator::MonitorNotification;
use komorebi::ops::NativeEnv;
use komorebi::window_manager::WindowManager;

fn empty_env() -> NativeEnv {
    NativeEnv {
        foreground_window: 0,
        foreground_monitor_id: 0,
        foreground_zoomed: false,
        visible_hwnds: Vec::new(),
        window_rects: Vec::new(),
        fresh_border_hwnds: Vec::new(),
        fresh_stackbar_hwnds: Vec::new(),
        blacklisted_hwnds: Vec::new(),
    }
}

fn mock_device_one() -> Device {
    Device {
        hmonitor: 1,
        device_path: String::from(
            "\\\\?\\DISPLAY#ABC123#4&123456&0&UID0#{saucepackets-4321-5678-2468-abc123456789}",
        ),
        device_name: String::from("\\\\.\\DISPLAY1"),
        device_description: String::from("Display description"),
        serial_number_id: Some(String::from("SaucePackets123")),
        device_key: String::from("Mock Key"),
        size: Rect { left: 0, top: 0, right: 1920, bottom: 1080 },
        work_area_size: Rect { left: 0, top: 0, right: 1920, bottom: 1080 },
    }
}

fn mock_device_two() -> Device {
    Device {
        hmonitor: 2,
        device_path: String::from(
            "\\\\?\\DISPLAY#ABC123#4&123456&0&UID1#{saucepackets2-4321-5678-2468-abc123456789}",
        ),
        device_name: String::from("\\\\.\\DISPLAY2"),
        device_description: String::from("Display description2"),
        serial_number_id: Some(String::from("SaucePackets1234")),
        device_key: String::from("Mock Key2"),
        size: Rect { left: 1920, top: 0, right: 1920, bottom: 1080 },
        work_area_size: Rect { left: 1920, top: 0, right: 1920, bottom: 1080 },
    }
}

#[test]
fn test_insert_in_monitor_cache() {
    // Create a WindowManager instance for testing
    let mut wm = WindowManager::new();

    let m = monitor::new(
        0,
        Rect::default(),
        Rect::default(),
        "Test Monitor".to_string(),
        "Test Device".to_string(),
        "Test Device ID".to_string(),
        Some("TestMonitorID".to_string()),
    );

    // Insert the monitor into the cache
    wm.monitor_reconciliator
        .insert_in_monitor_cache("TestMonitorID".into(), m.clone());

    // Retrieve the monitor from the cache
    let retrieved_monitor = wm.monitor_reconciliator.monitor_cache.get("TestMonitorID");

    // Check that the monitor was inserted correctly and matches the expected value
    assert_eq!(retrieved_monitor, Some(&m));
}

#[test]
fn test_insert_two_monitors_cache() {
    // Create a WindowManager instance for testing
    let mut wm = WindowManager::new();

    let m1 = monitor::new(
        0,
        Rect::default(),
        Rect::default(),
        "Test Monitor".to_string(),
        "Test Device".to_string(),
        "Test Device ID".to_string(),
        Some("TestMonitorID".to_string()),
    );

    let m2 = monitor::new(
        0,
        Rect::default(),
        Rect::default(),
        "Test Monitor 2".to_string(),
        "Test Device 2".to_string(),
        "Test Device ID 2".to_string(),
        Some("TestMonitorID2".to_string()),
    );

    // Insert the first monitor into the cache
    wm.monitor_reconciliator
        .insert_in_monitor_cache("TestMonitorID".into(), m1.clone());

    // Insert the second monitor into the cache
    wm.monitor_reconciliator
        .insert_in_monitor_cache("TestMonitorID2".into(), m2.clone());

    // Retrieve the cache to check if the first and second monitors are present
    let cache = wm.monitor_reconciliator.monitor_cache;

    // Check if Monitor 1 was found in the cache
    assert_eq!(
        cache.get("TestMonitorID"),
        Some(&m1),
        "Monitor cache should contain monitor 1"
    );

    // Check if Monitor 2 was found in the cache
    assert_eq!(
        cache.get("TestMonitorID2"),
        Some(&m2),
        "Monitor cache should contain monitor 2"
    );
}

#[test]
fn test_attached_display_devices() {
    // Define mock display data
    let mock_monitor = mock_device_one();

    let mut duplicate_serials: Vec<String> = Vec::new();
    let monitors = attached_display_devices(&vec![mock_monitor], &mut duplicate_serials);

    // Check Number of monitors
    assert_eq!(monitors.len(), 1, "Expected one monitor");

    // hmonitor
    assert_eq!(monitors[0].id, 1);

    // device name
    assert_eq!(monitors[0].name, String::from("DISPLAY1"));

    // Device
    assert_eq!(monitors[0].device, String::from("ABC123"));

    // Device ID
    assert_eq!(
        monitors[0].device_id,
        String::from("ABC123-4&123456&0&UID0")
    );

    // Check monitor serial number id
    assert_eq!(
        monitors[0].serial_number_id,
        Some(String::from("SaucePackets123")),
    );
}

#[test]
fn test_monitor_disconnect_to_cache() {
    // Build a WindowManager holding both mock monitors.
    let mut wm = WindowManager::new();
    let mut duplicate_serials: Vec<String> = Vec::new();
    let both = attached_display_devices(
        &vec![mock_device_one(), mock_device_two()],
        &mut duplicate_serials,
    );
    wm.monitors = both;

    // Should contain the mock monitors
    assert_eq!(wm.monitors.len(), 2, "Expected two monitors");
    assert_eq!(wm.monitors[0].id, 1);
    assert_eq!(wm.monitors[0].name, String::from("DISPLAY1"));
    assert_eq!(wm.monitors[0].device, String::from("ABC123"));
    assert_eq!(
        wm.monitors[0].device_id,
        String::from("ABC123-4&123456&0&UID0")
    );
    assert_eq!(
        wm.monitors[0].serial_number_id,
        Some(String::from("SaucePackets123")),
    );
    assert_eq!(wm.monitors[1].id, 2);
    assert_eq!(wm.monitors[1].name, String::from("DISPLAY2"));
    assert_eq!(wm.monitors[1].device, String::from("ABC123"));
    assert_eq!(
        wm.monitors[1].device_id,
        String::from("ABC123-4&123456&0&UID1")
    );
    assert_eq!(
        wm.monitors[1].serial_number_id,
        Some(String::from("SaucePackets1234")),
    );

    // The second display disconnects.
    let remaining = vec![mock_device_one()];
    let refreshed: Vec<(isize, Rect, Rect)> = Vec::new();
    let alive: Vec<isize> = Vec::new();
    let outcome = wm.handle_monitor_notification(
        MonitorNotification::DisplayConnectionChange,
        &remaining,
        &refreshed,
        &alive,
        &empty_env(),
    );
    let _ = outcome;

    // Should contain only 1 mock monitor
    assert_eq!(wm.monitors.len(), 1, "Expected two monitors");
    assert_eq!(wm.monitors[0].id, 1);
    assert_eq!(wm.monitors[0].name, String::from("DISPLAY1"));
    assert_eq!(wm.monitors[0].device, String::from("ABC123"));
    assert_eq!(
        wm.monitors[0].device_id,
        String::from("ABC123-4&123456&0&UID0")
    );
    assert_eq!(
        wm.monitors[0].serial_number_id,
        Some(String::from("SaucePackets123")),
    );

    // The disconnected monitor's state is cached under its serial number id.
    assert!(wm
        .monitor_reconciliator
        .monitor_cache
        .get("SaucePackets1234")
        .is_some());
}

#[test]
fn suspend_and_resume_toggle_the_reconciliator() {
    let mut wm = WindowManager::new();
    assert!(wm.monitor_reconciliator.active);
    let refreshed: Vec<(isize, Rect, Rect)> = Vec::new();
    let alive: Vec<isize> = Vec::new();
    let displays: Vec<Device> = Vec::new();
    let out = wm.handle_monitor_notification(
        MonitorNotification::EnteringSuspendedState,
        &displays,
        &refreshed,
        &alive,
        &empty_env(),
    );
    assert!(!wm.monitor_reconciliator.active);
    assert!(out.ops.is_empty());
    let out = wm.handle_monitor_notification(
        MonitorNotification::ResumingFromSuspendedState,
        &displays,
        &refreshed,
        &alive,
        &empty_env(),
    );
    assert!(wm.monitor_reconciliator.active);
    assert!(out.needs_border_update);
}

#[test]
fn work_area_change_absorbs_refreshed_geometry() {
    let mut wm = WindowManager::new();
    let mut duplicate_serials: Vec<String> = Vec::new();
    wm.monitors = attached_display_devices(&vec![mock_device_one()], &mut duplicate_serials);
    let new_work_area = Rect { left: 0, top: 0, right: 1920, bottom: 1032 };
    let refreshed = vec![(
        1isize,
        Rect { left: 0, top: 0, right: 1920, bottom: 1080 },
        new_work_area,
    )];
    let alive: Vec<isize> = Vec::new();
    let displays: Vec<Device> = Vec::new();
    let out = wm.handle_monitor_notification(
        MonitorNotification::WorkAreaChanged,
        &displays,
        &refreshed,
        &alive,
        &empty_env(),
    );
    assert_eq!(wm.monitors[0].work_area_size, new_work_area);
    assert!(out.needs_border_update);
    assert_eq!(out.monitors_to_update, vec![(0usize, 0usize)]);
}

#[test]
fn duplicated_serial_ids_are_withheld() {
    // Two displays that report the same serial number id: neither keeps it.
    let mut one = mock_device_one();
    let mut two = mock_device_two();
    one.serial_number_id = Some(String::from("SHARED")) ;
    two.serial_number_id = Some(String::from("SHARED"));
    let mut duplicate_serials: Vec<String> = Vec::new();
    let monitors = attached_display_devices(&vec![one, two], &mut duplicate_serials);
    assert_eq!(duplicate_serials, vec![String::from("SHARED")]);
    assert_eq!(monitors[0].serial_number_id, None);
    assert_eq!(monitors[1].serial_number_id, None);
}

#[test]
fn a_device_without_a_path_gets_placeholder_identity() {
    let device = Device {
        hmonitor: 9,
        device_path: String::new(),
        device_name: String::from("\\\\.\\DISPLAY9"),
        device_description: String::from("Display description"),
        serial_number_id: None,
        device_key: String::from("Mock Key"),
        size: Rect { left: 0, top: 0, right: 800, bottom: 600 },
        work_area_size: Rect { left: 0, top: 0, right: 800, bottom: 600 },
    };
    let mut duplicate_serials: Vec<String> = Vec::new();
    let monitors = attached_display_devices(&vec![device], &mut duplicate_serials);
    assert_eq!(monitors[0].device, String::from("UNKNOWN"));
    assert_eq!(monitors[0].device_id, String::from("UNKNOWN"));
    assert_eq!(monitors[0].name, String::from("DISPLAY9"));
    assert_eq!(monitors[0].serial_number_id, None);
}
