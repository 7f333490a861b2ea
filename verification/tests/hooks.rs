use window_monitor::hooks::{
    input_source, keyboard_hook_proc, mouse_hook_proc, print_wnd_info, win_event_proc,
    window_header, ForegroundTracker, InputEvent, EVENT_SYSTEM_FOREGROUND,
    EVENT_SYSTEM_MINIMIZEEND, HC_ACTION, VK_TAB, WM_LBUTTONDOWN, WM_SYSKEYDOWN,
};
use window_monitor::utils::ProcessImage;

fn units(text: &str) -> Vec<u16> {
    text.encode_utf16().collect()
}

#[test]
fn alt_tab_is_remembered() {
    let message = WM_SYSKEYDOWN as usize;
    let tab = VK_TAB as u32;
    assert_eq!(
        keyboard_hook_proc(HC_ACTION, message, tab),
        Some("Keyboard (Alt+Tab)".to_string())
    );
    assert_eq!(keyboard_hook_proc(3, message, tab), None);
    assert_eq!(keyboard_hook_proc(HC_ACTION, 0x0100, tab), None);
    assert_eq!(keyboard_hook_proc(HC_ACTION, message, 0x41), None);
}

#[test]
fn only_the_low_bits_of_a_key_count() {
    let message = WM_SYSKEYDOWN as usize;
    assert!(keyboard_hook_proc(HC_ACTION, message, 0x0001_0009).is_some());
    assert!(keyboard_hook_proc(HC_ACTION, message, 0x0009_0000).is_none());
}

#[test]
fn left_click_is_remembered() {
    let message = WM_LBUTTONDOWN as usize;
    assert_eq!(mouse_hook_proc(HC_ACTION, message), Some("Mouse Click".to_string()));
    assert_eq!(mouse_hook_proc(-1, message), None);
    assert_eq!(mouse_hook_proc(HC_ACTION, 0x0204), None);
}

#[test]
fn a_window_is_reported_once() {
    let mut tracker = ForegroundTracker::new();
    assert!(win_event_proc(&mut tracker, EVENT_SYSTEM_FOREGROUND, 5));
    assert!(!win_event_proc(&mut tracker, EVENT_SYSTEM_FOREGROUND, 5));
    assert!(!win_event_proc(&mut tracker, EVENT_SYSTEM_MINIMIZEEND, 5));
    assert!(win_event_proc(&mut tracker, EVENT_SYSTEM_MINIMIZEEND, 6));
    assert!(win_event_proc(&mut tracker, EVENT_SYSTEM_FOREGROUND, 5));
}

#[test]
fn a_zero_handle_changes_nothing() {
    let mut tracker = ForegroundTracker::new();
    assert!(!tracker.handle_foreground_change(0));
    assert!(tracker.handle_foreground_change(5));
    assert!(!tracker.handle_foreground_change(0));
    assert_eq!(tracker.last_hwnd, 5);
    assert!(!tracker.handle_foreground_change(5));
}

#[test]
fn other_events_change_nothing() {
    let mut tracker = ForegroundTracker::new();
    assert!(!win_event_proc(&mut tracker, 0x0016, 5));
    assert_eq!(tracker.last_hwnd, 0);
}

#[test]
fn recent_input_explains_a_switch() {
    let event = |age_ms: u128| Some(InputEvent { source: "Mouse Click".to_string(), age_ms });
    assert_eq!(input_source(event(0)), "Mouse Click");
    assert_eq!(input_source(event(999)), "Mouse Click");
    assert_eq!(input_source(event(1000)), "Keyboard (Shortcut/Other)");
    assert_eq!(input_source(event(100_000)), "Keyboard (Shortcut/Other)");
    assert_eq!(input_source(None), "Keyboard (Shortcut/Other)");
}

#[test]
fn header_has_four_lines() {
    assert_eq!(
        window_header("2024-05-06 07:08:09", "a.exe", 4321, "Hello", "Frame"),
        vec![
            "--------------------------2024-05-06 07:08:09------------------------",
            "Process: a.exe | PID: 4321",
            "Title:   Hello",
            "Class:   Frame",
        ]
    );
}

#[test]
fn window_info_is_put_together() {
    let title = units("Title and more");
    let class = units("Frame");
    let path = units("/opt/tools/a.exe");
    let info = print_wnd_info(
        &title,
        5,
        &class,
        0,
        17,
        ProcessImage::Path(&path),
        Some(InputEvent { source: "Mouse Click".to_string(), age_ms: 3 }),
    );
    assert_eq!(info.process_name, "a.exe");
    assert_eq!(info.input_source, "Mouse Click");
    assert_eq!(info.header.len(), 4);
    assert_eq!(info.header[1], "Process: a.exe | PID: 17");
    assert_eq!(info.header[2], "Title:   Title");
    assert_eq!(info.header[3], "Class:   Unknown");
    // Year, month, day and time of day, between the rules.
    let rule = &info.header[0];
    assert_eq!(rule.len(), 26 + 19 + 24);
    for (i, c) in rule[26..45].chars().enumerate() {
        match i {
            4 | 7 => assert_eq!(c, '-'),
            10 => assert_eq!(c, ' '),
            13 | 16 => assert_eq!(c, ':'),
            _ => assert!(c.is_ascii_digit()),
        }
    }
}

#[test]
fn reported_switches_are_the_runs_of_nonzero_handles() {
    let mut tracker = ForegroundTracker::new();
    let mut reported: Vec<isize> = Vec::new();
    for hwnd in [0, 5, 5, 0, 5, 6, 0, 0, 7, 7, 5] {
        if tracker.handle_foreground_change(hwnd) {
            reported.push(hwnd);
        }
    }
    assert_eq!(reported, vec![5, 6, 7, 5]);
    assert_eq!(tracker.last_hwnd, 5);
}
