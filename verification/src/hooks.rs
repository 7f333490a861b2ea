//! What the hooks into the desktop do with what they are told.

use crate::system::clock_showed_text;
use crate::time::{is_local_time, local_time_text};
use crate::utils::{
    buffer_text, decimal, get_process_name, is_process_name, text_or, to_decimal, ProcessImage,
};
use vstd::prelude::*;
use vstd::string::StringExecFns;

verus! {

/// The code with which a hook is told of an action.
pub const HC_ACTION: i32 = 0;

/// The message for a key pressed while Alt is held.
pub const WM_SYSKEYDOWN: u32 = 0x0104;

/// The message for the left mouse button.
pub const WM_LBUTTONDOWN: u32 = 0x0201;

/// The Tab key.
pub const VK_TAB: u16 = 0x09;

/// A window came to the foreground.
pub const EVENT_SYSTEM_FOREGROUND: u32 = 0x0003;

/// A window was restored.
pub const EVENT_SYSTEM_MINIMIZEEND: u32 = 0x0017;

/// An input explains a switch for less than this many milliseconds.
pub const INPUT_VALID_MS: u128 = 1_000;

/// The low 32 bits of a message parameter.
pub open spec fn low_word(w_param: usize) -> int {
    w_param as int % 0x1_0000_0000
}

/// The low 16 bits of a key code.
pub open spec fn low_half(code: u32) -> int {
    code as int % 0x1_0000
}

/// The keyboard hook: Alt and Tab were pressed together. Gives the input
/// source to remember, if there is one.
pub fn keyboard_hook_proc(n_code: i32, w_param: usize, vk_code: u32) -> (source: Option<String>)
    ensures
        source is Some <==> n_code == HC_ACTION && low_word(w_param) == WM_SYSKEYDOWN && low_half(
            vk_code,
        ) == VK_TAB,
        source matches Some(text) ==> text@ == "Keyboard (Alt+Tab)"@,
{
    let message = message_of(w_param);
    let key: u16 = #[verifier::truncate] (vk_code as u16);
    assert(key == vk_code % 0x1_0000) by (bit_vector)
        requires
            key == vk_code as u16,
    ;
    if n_code == HC_ACTION && message == WM_SYSKEYDOWN && key == VK_TAB {
        Some("Keyboard (Alt+Tab)".to_string())
    } else {
        None
    }
}

/// The mouse hook: the left button was pressed. Gives the input source to
/// remember, if there is one.
pub fn mouse_hook_proc(n_code: i32, w_param: usize) -> (source: Option<String>)
    ensures
        source is Some <==> n_code == HC_ACTION && low_word(w_param) == WM_LBUTTONDOWN,
        source matches Some(text) ==> text@ == "Mouse Click"@,
{
    if n_code == HC_ACTION && message_of(w_param) == WM_LBUTTONDOWN {
        Some("Mouse Click".to_string())
    } else {
        None
    }
}

/// The message that a parameter holds: its low 32 bits.
fn message_of(w_param: usize) -> (message: u32)
    ensures
        message == low_word(w_param),
{
    let wide: u64 = w_param as u64;
    let message: u32 = #[verifier::truncate] (wide as u32);
    assert(message == wide % 0x1_0000_0000) by (bit_vector)
        requires
            message == wide as u32,
    ;
    message
}

/// Bringing `hwnd` to the front is a switch: the handle is not zero, and
/// another window was in front.
pub open spec fn is_switch(last: isize, hwnd: isize) -> bool {
    hwnd != 0 && hwnd != last
}

/// The window in front once the system has said that `hwnd` is; a zero handle
/// changes nothing.
pub open spec fn in_front(last: isize, hwnd: isize) -> isize {
    if hwnd == 0 {
        last
    } else {
        hwnd
    }
}

/// Remembers which window was in front, so that each switch is reported once.
#[derive(Clone, Copy, Debug, PartialEq, Eq, Structural)]
pub struct ForegroundTracker {
    /// The handle of the window in front; zero before the first one.
    pub last_hwnd: isize,
}

impl ForegroundTracker {
    /// No window was in front yet.
    pub fn new() -> (tracker: ForegroundTracker)
        ensures
            tracker.last_hwnd == 0,
    {
        ForegroundTracker { last_hwnd: 0 }
    }

    /// The window `hwnd` is in front now. Tells whether that is a switch.
    pub fn handle_foreground_change(&mut self, hwnd: isize) -> (switched: bool)
        ensures
            switched == is_switch(old(self).last_hwnd, hwnd),
            final(self).last_hwnd == in_front(old(self).last_hwnd, hwnd),
    {
        if hwnd == 0 {
            return false;
        }
        let last = self.last_hwnd;
        self.last_hwnd = hwnd;
        last != hwnd
    }
}

/// The event brings a window to the front.
pub open spec fn is_foreground_event(event: u32) -> bool {
    event == EVENT_SYSTEM_FOREGROUND || event == EVENT_SYSTEM_MINIMIZEEND
}

/// The window event hook. Tells whether the event is a switch to be reported.
pub fn win_event_proc(tracker: &mut ForegroundTracker, event: u32, hwnd: isize) -> (switched: bool)
    ensures
        switched == (is_foreground_event(event) && is_switch(old(tracker).last_hwnd, hwnd)),
        final(tracker).last_hwnd == (if is_foreground_event(event) {
            in_front(old(tracker).last_hwnd, hwnd)
        } else {
            old(tracker).last_hwnd
        }),
{
    if event == EVENT_SYSTEM_FOREGROUND || event == EVENT_SYSTEM_MINIMIZEEND {
        tracker.handle_foreground_change(hwnd)
    } else {
        false
    }
}

/// The last input that a hook saw, and how long ago that was.
pub struct InputEvent {
    pub source: String,
    pub age_ms: u128,
}

/// What a switch is put down to: the last input if that is recent, and else
/// some other use of the keyboard.
pub open spec fn source_text(last_input: Option<InputEvent>) -> Seq<char> {
    match last_input {
        Some(event) if event.age_ms < INPUT_VALID_MS => event.source@,
        _ => "Keyboard (Shortcut/Other)"@,
    }
}

/// What a switch is put down to.
pub fn input_source(last_input: Option<InputEvent>) -> (source: String)
    ensures
        source@ == source_text(last_input),
{
    match last_input {
        Some(event) => if event.age_ms < INPUT_VALID_MS {
            event.source
        } else {
            "Keyboard (Shortcut/Other)".to_string()
        },
        None => "Keyboard (Shortcut/Other)".to_string(),
    }
}

/// The lines printed when a window comes to the front.
pub open spec fn header_lines(
    time: Seq<char>,
    process_name: Seq<char>,
    process_id: u32,
    title: Seq<char>,
    class_name: Seq<char>,
) -> Seq<Seq<char>> {
    seq![
        "--------------------------"@ + time + "------------------------"@,
        "Process: "@ + process_name + " | PID: "@ + decimal(process_id as nat),
        "Title:   "@ + title,
        "Class:   "@ + class_name,
    ]
}

/// The lines printed when a window comes to the front.
pub fn window_header(
    time: &str,
    process_name: &str,
    process_id: u32,
    title: &str,
    class_name: &str,
) -> (lines: Vec<String>)
    ensures
        lines.deep_view() == header_lines(time@, process_name@, process_id, title@, class_name@),
{
    let mut rule = "--------------------------".to_string();
    rule.append(time);
    rule.append("------------------------");
    let mut process = "Process: ".to_string();
    process.append(process_name);
    process.append(" | PID: ");
    process.append(to_decimal(process_id as u64).as_str());
    let mut title_line = "Title:   ".to_string();
    title_line.append(title);
    let mut class_line = "Class:   ".to_string();
    class_line.append(class_name);
    let lines = vec![rule, process, title_line, class_line];
    assert(lines.deep_view() =~= header_lines(
        time@,
        process_name@,
        process_id,
        title@,
        class_name@,
    ));
    lines
}

/// What is told of a window that came to the front.
pub struct WindowInfo {
    /// The lines to print.
    pub header: Vec<String>,
    pub process_name: String,
    pub input_source: String,
}

/// What to tell of a window that came to the front, from what the system says
/// of it: the buffers with its title and its class and how much of them is
/// filled, its process, and the image of that.
pub fn print_wnd_info(
    title_buffer: &[u16],
    title_len: i32,
    class_buffer: &[u16],
    class_len: i32,
    process_id: u32,
    image: ProcessImage,
    last_input: Option<InputEvent>,
) -> (info: WindowInfo)
    requires
        title_len <= title_buffer@.len(),
        class_len <= class_buffer@.len(),
    ensures
        is_process_name(image, info.process_name@),
        info.input_source@ == source_text(last_input),
        exists|time: Seq<char>|
            is_local_time(time) && clock_showed_text(time) && info.header.deep_view()
                == #[trigger] header_lines(
                time,
                info.process_name@,
                process_id,
                buffer_text(title_buffer@, title_len as int, "No Title"@),
                buffer_text(class_buffer@, class_len as int, "Unknown"@),
            ),
{
    let title = text_or(title_buffer, title_len, "No Title");
    let class_name = text_or(class_buffer, class_len, "Unknown");
    let process_name = get_process_name(image);
    let source = input_source(last_input);
    let time = local_time_text("%Y-%m-%d %H:%M:%S");
    let header = window_header(
        time.as_str(),
        process_name.as_str(),
        process_id,
        title.as_str(),
        class_name.as_str(),
    );
    WindowInfo { header, process_name, input_source: source }
}

} // verus!
