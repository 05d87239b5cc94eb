use komorebi::border_manager::BorderMessage;
use komorebi::monitor::Window;
use komorebi::monitor_reconciliator::MonitorNotification;
use komorebi::monitor_reconciliator::send_notification;
use komorebi::runtime::Control;
use komorebi::runtime::Message;
use komorebi::runtime::Runtime;
use komorebi::runtime::SocketMessage;
use komorebi::runtime::WindowManagerEvent;
use komorebi::theme_manager::ResolvedTheme;
use komorebi::window_manager::WindowManager;

fn event(hwnd: isize) -> Message {
    Message::Event(WindowManagerEvent::FocusChange(3, Window { hwnd }))
}

#[test]
fn batches_are_ordered_control_then_commands_then_events() {
    let mut rt = Runtime::new();
    assert!(rt.submit(event(110)));
    assert!(rt.submit(Message::Control(Control::Border(BorderMessage::Update(None)))));
    assert!(rt.submit(Message::TcpCommand(SocketMessage::State, 1)));
    let batch = rt.drain_batch();
    assert_eq!(batch.len(), 3);
    assert!(matches!(batch[0], Message::Control(_)));
    assert!(matches!(batch[1], Message::TcpCommand(_, _)));
    assert!(matches!(batch[2], Message::Event(_)));
    // Within a category, arrival order is preserved.
    let mut rt = Runtime::new();
    assert!(rt.submit(event(1)));
    assert!(rt.submit(event(2)));
    let batch = rt.drain_batch();
    assert!(matches!(batch[0], Message::Event(WindowManagerEvent::FocusChange(_, w)) if w.hwnd == 1));
    assert!(matches!(batch[1], Message::Event(WindowManagerEvent::FocusChange(_, w)) if w.hwnd == 2));
}

#[test]
fn test_send_notification() {
    let mut rt = Runtime::new();

    // Test sending a notification
    send_notification(&mut rt, MonitorNotification::ResolutionScalingChanged);

    // Get the messages
    let messages = rt.drain_batch();

    // Check that there is 1 message
    assert_eq!(messages.len(), 1);

    // Check if we received the notification and if it matches what we sent
    assert!(matches!(
        messages[0],
        Message::Control(Control::Monitor(MonitorNotification::ResolutionScalingChanged))
    ));
}

#[test]
fn test_channel_bounded_capacity() {
    let mut rt = Runtime::new();

    assert!(rt.drain_batch().is_empty());

    // Fill the channel to its capacity (50 messages)
    for _ in 0..50 {
        send_notification(&mut rt, MonitorNotification::WorkAreaChanged);
    }

    // Attempt to send another message (should be dropped)
    send_notification(&mut rt, MonitorNotification::ResolutionScalingChanged);

    // Get the messages
    let messages = rt.drain_batch();

    // Check that there are 50 message
    assert_eq!(messages.len(), 50);

    // Verify the channel contains only the first 50 messages
    for (i, message) in messages.into_iter().enumerate() {
        println!("message {}: {:?}", i, &message);
        assert!(
            matches!(
                message,
                Message::Control(Control::Monitor(MonitorNotification::WorkAreaChanged))
            ),
            "Unexpected notification in the channel: {:?}",
            message
        );
    }

    // Verify that no additional messages are in the channel
    assert!(
        rt.drain_batch().is_empty(),
        "Channel should be empty after consuming all messages"
    );
}

#[test]
fn a_stopped_bus_drops_every_submission() {
    let mut rt = Runtime::new();
    rt.shutdown();
    assert!(!rt.submit(event(110)));
    assert!(!rt.submit(Message::Control(Control::Border(BorderMessage::DestroyAll))));
    assert!(rt.drain_batch().is_empty());
}

#[test]
fn filter_keeps_known_windows_and_manageable_newcomers() {
    let mut wm = WindowManager::new();
    wm.known_hwnds.push((110, (0, 0)));
    let manageable: Vec<isize> = vec![999];
    let messages = vec![
        // known window: kept
        Message::Event(WindowManagerEvent::FocusChange(3, Window { hwnd: 110 })),
        // unknown window: dropped
        Message::Event(WindowManagerEvent::FocusChange(3, Window { hwnd: 555 })),
        // unknown but manageable: kept for the show event
        Message::Event(WindowManagerEvent::Show(5, Window { hwnd: 999 })),
        // border update hinted at an unknown window: dropped
        Message::Control(Control::Border(BorderMessage::Update(Some(555)))),
        // border update without a hint: kept
        Message::Control(Control::Border(BorderMessage::Update(None))),
        // commands always pass
        Message::TcpCommand(SocketMessage::State, 9),
    ];
    let kept = wm.filter_messages(messages, &manageable);
    assert_eq!(kept.len(), 4);
    assert!(matches!(kept[0], Message::Event(WindowManagerEvent::FocusChange(_, w)) if w.hwnd == 110));
    assert!(matches!(kept[1], Message::Event(WindowManagerEvent::Show(_, w)) if w.hwnd == 999));
    assert!(matches!(
        kept[2],
        Message::Control(Control::Border(BorderMessage::Update(None)))
    ));
    assert!(matches!(kept[3], Message::TcpCommand(SocketMessage::State, 9)));
}

#[test]
fn paused_manager_ignores_all_but_exempt_commands() {
    let mut wm = WindowManager::new();
    wm.is_paused = true;
    let mut stop = false;
    assert!(!wm.handle_command(SocketMessage::Other(42), &mut stop));
    assert!(!stop);
    assert!(wm.handle_command(SocketMessage::TogglePause, &mut stop));
    assert!(wm.handle_command(SocketMessage::State, &mut stop));
    assert!(wm.handle_command(SocketMessage::GlobalState, &mut stop));
    assert!(!stop);
    // Stop is exempt, processed, and marks the runtime for shutdown.
    assert!(wm.handle_command(SocketMessage::Stop, &mut stop));
    assert!(stop);
    // StopIgnoreRestore is not processed while paused but still stops.
    let mut stop2 = false;
    assert!(!wm.handle_command(SocketMessage::StopIgnoreRestore, &mut stop2));
    assert!(stop2);
}

#[test]
fn theme_application_recolours_and_requests_updates_once() {
    let mut wm = WindowManager::new();
    let mut rt = Runtime::new();
    let theme = ResolvedTheme {
        single_border: 1,
        stack_border: 2,
        monocle_border: 3,
        floating_border: 4,
        unfocused_border: 5,
        unfocused_locked_border: 6,
        stackbar_focused_text: 7,
        stackbar_unfocused_text: 8,
        stackbar_background: 9,
    };
    wm.update_theme(theme, &mut rt);
    assert_eq!(wm.border_manager.kind_colours.single_colour, 1);
    assert_eq!(wm.border_manager.kind_colours.stack_colour, 2);
    assert_eq!(wm.border_manager.kind_colours.monocle_colour, 3);
    assert_eq!(wm.border_manager.kind_colours.floating_colour, 4);
    assert_eq!(wm.border_manager.kind_colours.unfocused_colour, 5);
    assert_eq!(wm.border_manager.kind_colours.unfocused_locked_colour, 6);
    assert_eq!(wm.stackbar_manager.globals.focused_text_colour, 7);
    assert_eq!(wm.stackbar_manager.globals.unfocused_text_colour, 8);
    assert_eq!(wm.stackbar_manager.globals.tab_background_colour, 9);
    // The theme change requested a forced border pass and a stackbar
    // refresh.
    let batch = rt.drain_batch();
    assert_eq!(batch.len(), 2);
    assert!(matches!(
        batch[0],
        Message::Control(Control::Border(BorderMessage::ForceUpdate(None)))
    ));
    assert!(matches!(batch[1], Message::Control(Control::Stackbar(_))));
    // An already applied theme is ignored.
    wm.update_theme(theme, &mut rt);
    assert!(rt.drain_batch().is_empty());
}

#[test]
fn border_helpers_enqueue_their_control_requests() {
    let mut rt = Runtime::new();
    assert!(komorebi::border_manager::send_notification(&mut rt, Some(7)));
    assert!(komorebi::border_manager::delete_border(&mut rt, 8));
    assert!(komorebi::border_manager::show_border(&mut rt, 9));
    assert!(komorebi::border_manager::hide_border(&mut rt, 10));
    assert!(komorebi::border_manager::raise_border(&mut rt, 11));
    assert!(komorebi::border_manager::lower_border(&mut rt, 12));
    assert!(komorebi::border_manager::destroy_all_borders(&mut rt));
    assert!(komorebi::stackbar_manager::send_update(&mut rt));
    assert!(komorebi::transparency_manager::send_update(&mut rt));
    let batch = rt.drain_batch();
    assert_eq!(batch.len(), 9);
    assert!(matches!(
        batch[0],
        Message::Control(Control::Border(BorderMessage::Update(Some(7))))
    ));
    assert!(matches!(
        batch[1],
        Message::Control(Control::Border(BorderMessage::Delete(8)))
    ));
    assert!(matches!(
        batch[6],
        Message::Control(Control::Border(BorderMessage::DestroyAll))
    ));
}

#[test]
fn batch_submission_routes_like_one_submit_per_message() {
    let mut rt = Runtime::new();
    rt.batch_messages(vec![
        event(1),
        Message::Control(Control::Border(BorderMessage::Update(None))),
        Message::TcpCommand(SocketMessage::State, 4),
        event(2),
    ]);
    let batch = rt.drain_batch();
    assert_eq!(batch.len(), 4);
    assert!(matches!(batch[0], Message::Control(_)));
    assert!(matches!(batch[1], Message::TcpCommand(_, _)));
    assert!(matches!(batch[2], Message::Event(WindowManagerEvent::FocusChange(_, w)) if w.hwnd == 1));
    assert!(matches!(batch[3], Message::Event(WindowManagerEvent::FocusChange(_, w)) if w.hwnd == 2));
    // A stopped bus drops a whole batch.
    rt.shutdown();
    rt.batch_messages(vec![event(3)]);
    assert!(rt.drain_batch().is_empty());
}
