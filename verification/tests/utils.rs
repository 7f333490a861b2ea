use window_monitor::utils::{
    choose_name, describe_window, get_process_name, get_window_details, text_or, ProcessImage,
};

fn units(text: &str) -> Vec<u16> {
    text.encode_utf16().collect()
}

#[test]
fn process_without_image() {
    assert_eq!(get_process_name(ProcessImage::AccessDenied), "<Access Denied>");
    assert_eq!(get_process_name(ProcessImage::Unknown), "<Unknown>");
}

#[test]
fn process_is_named_after_its_file() {
    let path = units("/usr/local/bin/tool.exe");
    assert_eq!(get_process_name(ProcessImage::Path(&path)), "tool.exe");
    let path = units("/usr/local/bin/");
    assert_eq!(get_process_name(ProcessImage::Path(&path)), "bin");
    let path = units("/usr//local/./tool//./.");
    assert_eq!(get_process_name(ProcessImage::Path(&path)), "tool");
    let path = units("/usr/tool..");
    assert_eq!(get_process_name(ProcessImage::Path(&path)), "tool..");
    let path = units("a\\b/c/");
    assert_eq!(get_process_name(ProcessImage::Path(&path)), "c");
    let path = units("a/b:");
    assert_eq!(get_process_name(ProcessImage::Path(&path)), "b:");
    let path = units("plain");
    assert_eq!(get_process_name(ProcessImage::Path(&path)), "plain");
}

#[test]
fn path_without_a_file_is_shown_whole() {
    let path = units("/usr/..");
    assert_eq!(get_process_name(ProcessImage::Path(&path)), "/usr/..");
    let path = units("./.");
    assert_eq!(get_process_name(ProcessImage::Path(&path)), "./.");
    let path = units("/");
    assert_eq!(get_process_name(ProcessImage::Path(&path)), "/");
    assert_eq!(get_process_name(ProcessImage::Path(&[])), "");
    assert_eq!(choose_name("C:\\a\\b.exe", Some("b.exe")), "b.exe");
    assert_eq!(choose_name("C:\\", None), "C:\\");
}

#[test]
fn buffer_is_read_as_far_as_it_is_filled() {
    let buffer = units("abcdef");
    assert_eq!(text_or(&buffer, 3, "none"), "abc");
    assert_eq!(text_or(&buffer, 6, "none"), "abcdef");
    assert_eq!(text_or(&buffer, 0, "none"), "none");
    assert_eq!(text_or(&buffer, -1, "none"), "none");
}

#[test]
fn pairs_are_decoded_and_lone_surrogates_replaced() {
    let buffer = [0xd834, 0xdd1e, 0x006d, 0x0075, 0x0073, 0xdd1e, 0x0069, 0x0063, 0xd834];
    assert_eq!(text_or(&buffer, 9, "none"), "\u{1d11e}mus\u{fffd}ic\u{fffd}");
    let buffer = [0xd834, 0xd834, 0xdd1e, 0xdbff, 0xdfff, 0xe000, 0xd7ff];
    assert_eq!(text_or(&buffer, 7, "none"), "\u{fffd}\u{1d11e}\u{10ffff}\u{e000}\u{d7ff}");
}

#[test]
fn window_is_described_in_one_line() {
    assert_eq!(describe_window("a.exe", 0, "Hi"), "[a.exe] (PID: 0) - Hi");
    assert_eq!(
        describe_window("a.exe", u32::MAX, ""),
        "[a.exe] (PID: 4294967295) - "
    );
    assert_eq!(describe_window("", 1090, "x"), "[] (PID: 1090) - x");
}

#[test]
fn details_are_put_together() {
    let title = units("Notes");
    let path = units("/opt/notes");
    assert_eq!(
        get_window_details(&title, 5, 77, ProcessImage::Path(&path)),
        "[notes] (PID: 77) - Notes"
    );
    assert_eq!(
        get_window_details(&title, 0, 77, ProcessImage::AccessDenied),
        "[<Access Denied>] (PID: 77) - No Title"
    );
}
