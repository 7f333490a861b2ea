//! How windows and processes are named.

use crate::system::gave_file_name;
use std::path::Path;
use vstd::prelude::*;
use vstd::slice::slice_subrange;
use vstd::string::StringExecFns;

verus! {

/// What asking the system for the image of a process gave.
pub enum ProcessImage<'a> {
    /// The process could not be opened.
    AccessDenied,
    /// The process was opened, but the path of its image could not be read.
    Unknown,
    /// The path of the image, in UTF-16.
    Path(&'a [u16]),
}

/// A code unit that announces a pair.
pub open spec fn is_lead(unit: u16) -> bool {
    0xd800 <= unit < 0xdc00
}

/// A code unit that completes a pair.
pub open spec fn is_trail(unit: u16) -> bool {
    0xdc00 <= unit < 0xe000
}

/// The text that UTF-16 code units stand for, each surrogate that is not part
/// of a pair replaced by U+FFFD.
pub open spec fn utf16_text(units: Seq<u16>) -> Seq<char>
    decreases units.len(),
{
    if units.len() == 0 {
        Seq::empty()
    } else if units.len() >= 2 && is_lead(units[0]) && is_trail(units[1]) {
        let code = 0x10000 + (units[0] - 0xd800) * 0x400 + (units[1] - 0xdc00);
        seq![code as char] + utf16_text(units.skip(2))
    } else if is_lead(units[0]) || is_trail(units[0]) {
        seq!['\u{fffd}'] + utf16_text(units.skip(1))
    } else {
        seq![units[0] as char] + utf16_text(units.skip(1))
    }
}

/// `c` separates the components of a path on some system.
pub open spec fn may_separate(c: char) -> bool {
    c == '/' || c == '\\'
}

/// The path starts like one with a network, device or verbatim prefix.
pub open spec fn starts_with_two_separators(path: Seq<char>) -> bool {
    path.len() >= 2 && may_separate(path[0]) && may_separate(path[1])
}

/// How a system takes a path apart: which characters separate its components,
/// and where the components begin behind a prefix. The slash separates on Unix,
/// both characters do on Windows, and only the backslash in a verbatim path of
/// Windows and on some smaller systems.
pub struct PathRules {
    pub slash: bool,
    pub backslash: bool,
    pub body: int,
}

impl PathRules {
    /// `c` separates components.
    pub open spec fn separates(self, c: char) -> bool {
        (self.slash && c == '/') || (self.backslash && c == '\\')
    }

    /// Some system takes `path` apart like this. A prefix is a drive letter and
    /// a colon, or stands behind two separators, and only where the backslash
    /// is a separator.
    pub open spec fn may_apply_to(self, path: Seq<char>) -> bool {
        &&& self.slash || self.backslash
        &&& 0 <= self.body <= path.len()
        &&& {
            ||| self.body == 0
            ||| self.slash && self.backslash && self.body == 2 && path[1] == ':'
            ||| self.backslash && starts_with_two_separators(path)
        }
    }
}

/// The character at `i` is a dot that is a component of its own.
pub open spec fn is_single_dot(path: Seq<char>, i: int, rules: PathRules) -> bool {
    &&& path[i] == '.'
    &&& rules.separates(path[i - 1])
    &&& i + 1 == path.len() || rules.separates(path[i + 1])
}

/// The last component of `path` stands from `start` to `end`, and names a file:
/// it is bounded by separators and holds none, it is neither one dot nor two,
/// and after it there are only separators and single dots between them.
pub open spec fn is_last_component(
    path: Seq<char>,
    start: int,
    end: int,
    rules: PathRules,
) -> bool {
    &&& rules.body <= start < end <= path.len()
    &&& start == rules.body || rules.separates(path[start - 1])
    &&& end == path.len() || rules.separates(path[end])
    &&& forall|i: int| start <= i < end ==> !rules.separates(#[trigger] path[i])
    &&& path.subrange(start, end) != seq!['.']
    &&& path.subrange(start, end) != seq!['.', '.']
    &&& forall|i: int|
        end <= i < path.len() ==> rules.separates(#[trigger] path[i]) || is_single_dot(
            path,
            i,
            rules,
        )
}

/// `file` is the file name of `path` under `rules`: the last component, or
/// nothing if there is none that names a file.
pub open spec fn is_file_name(path: Seq<char>, file: Option<Seq<char>>, rules: PathRules) -> bool {
    match file {
        Some(name) => exists|start: int, end: int| #[trigger]
            is_last_component(path, start, end, rules) && name == path.subrange(start, end),
        None => forall|start: int, end: int| !is_last_component(path, start, end, rules),
    }
}

/// The characters of an optional text.
pub open spec fn text_of(text: Option<&str>) -> Option<Seq<char>> {
    match text {
        Some(text) => Some(text@),
        None => None,
    }
}

/// `file` is the file name of `path` on some system.
pub open spec fn may_be_file_name(path: Seq<char>, file: Option<Seq<char>>) -> bool {
    exists|rules: PathRules|
        rules.may_apply_to(path) && #[trigger] is_file_name(path, file, rules)
}

/// The name under which a process is shown: the file name of its image if it
/// has one, and else the whole path.
pub open spec fn shown_name(path: Seq<char>, file: Option<Seq<char>>) -> Seq<char> {
    match file {
        Some(name) => name,
        None => path,
    }
}

/// `name` is a name under which the process with this image may be shown.
pub open spec fn is_process_name(image: ProcessImage, name: Seq<char>) -> bool {
    match image {
        ProcessImage::AccessDenied => name == "<Access Denied>"@,
        ProcessImage::Unknown => name == "<Unknown>"@,
        ProcessImage::Path(units) => exists|file: Option<Seq<char>>|
            may_be_file_name(utf16_text(units@), file) && gave_file_name(
                utf16_text(units@),
                file,
            ) && name == #[trigger] shown_name(
                utf16_text(units@),
                file,
            ),
    }
}

/// The text in the first `len` code units of a buffer, or `fallback` if there are none.
pub open spec fn buffer_text(buffer: Seq<u16>, len: int, fallback: Seq<char>) -> Seq<char> {
    if len > 0 {
        utf16_text(buffer.take(len))
    } else {
        fallback
    }
}

/// The digit `d`.
pub open spec fn digit(d: nat) -> char {
    (48 + d) as char
}

/// `n` in decimal digits.
pub open spec fn decimal(n: nat) -> Seq<char>
    decreases n,
{
    if n < 10 {
        seq![digit(n)]
    } else {
        decimal(n / 10).push(digit(n % 10))
    }
}

/// `n` in decimal digits, with a minus sign if it is negative.
pub open spec fn signed_decimal(n: int) -> Seq<char> {
    if n < 0 {
        "-"@ + decimal((-n) as nat)
    } else {
        decimal(n as nat)
    }
}

/// One line on a window: its process, the number of the process, its title.
pub open spec fn window_line(process_name: Seq<char>, process_id: u32, title: Seq<char>) -> Seq<
    char,
> {
    "["@ + process_name + "] (PID: "@ + decimal(process_id as nat) + ") - "@ + title
}

/// Calls `String::from_utf16_lossy`.
///
/// Taken on trust: the code units are decoded as UTF-16, and each unpaired
/// surrogate becomes U+FFFD.
#[verifier::external_body]
fn from_utf16_lossy(units: &[u16]) -> (text: String)
    ensures
        text@ == utf16_text(units@),
{
    String::from_utf16_lossy(units)
}

/// Calls `std::path::Path::file_name`.
///
/// Taken on trust: under the rules of the system the library is built for, what
/// comes back is the last component of the path, repeated and trailing
/// separators and single dots not counted, and nothing comes back exactly if
/// there is no such component or it is `..`. Which characters separate depends
/// on that system, and so does how far a network, device or verbatim prefix
/// reaches; both are left open. `gave_file_name` marks the result as the
/// system's answer.
#[verifier::external_body]
fn file_name(path: &str) -> (file: Option<&str>)
    ensures
        may_be_file_name(path@, text_of(file)),
        gave_file_name(path@, text_of(file)),
{
    Path::new(path).file_name().and_then(|name| name.to_str())
}

/// The name under which a process is shown, given the path of its image and
/// the file name of that path.
pub fn choose_name(full_path: &str, file: Option<&str>) -> (name: String)
    ensures
        name@ == shown_name(full_path@, text_of(file)),
{
    match file {
        Some(name) => name.to_string(),
        None => full_path.to_string(),
    }
}

/// The name under which a process is shown: the file name of its image, or
/// why there is none.
pub fn get_process_name(image: ProcessImage) -> (name: String)
    ensures
        is_process_name(image, name@),
{
    match image {
        ProcessImage::AccessDenied => "<Access Denied>".to_string(),
        ProcessImage::Unknown => "<Unknown>".to_string(),
        ProcessImage::Path(units) => {
            let full_path = from_utf16_lossy(units);
            let file = file_name(full_path.as_str());
            let name = choose_name(full_path.as_str(), file);
            assert(name@ == shown_name(utf16_text(units@), text_of(file)));
            name
        },
    }
}

/// The text in the first `len` code units of `buffer`, or `fallback` if `len`
/// is not positive.
pub fn text_or(buffer: &[u16], len: i32, fallback: &str) -> (text: String)
    requires
        len <= buffer@.len(),
    ensures
        text@ == buffer_text(buffer@, len as int, fallback@),
{
    if len > 0 {
        from_utf16_lossy(slice_subrange(buffer, 0, len as usize))
    } else {
        fallback.to_string()
    }
}

/// `n` in decimal digits.
pub(crate) fn to_decimal(n: u64) -> (text: String)
    ensures
        text@ == decimal(n as nat),
    decreases n,
{
    let last = digit_text(n % 10);
    if n < 10 {
        assert(last@ =~= decimal(n as nat));
        last.to_string()
    } else {
        let mut text = to_decimal(n / 10);
        text.append(last);
        assert(text@ =~= decimal(n as nat));
        text
    }
}

/// `n` in decimal digits, with a minus sign if it is negative.
pub(crate) fn to_signed_decimal(n: i64) -> (text: String)
    ensures
        text@ == signed_decimal(n as int),
{
    if n < 0 {
        let magnitude: i128 = -(n as i128);
        let mut text = "-".to_string();
        text.append(to_decimal(magnitude as u64).as_str());
        text
    } else {
        to_decimal(n as u64)
    }
}

/// The digit `d`.
fn digit_text(d: u64) -> (text: &'static str)
    requires
        d < 10,
    ensures
        text@ == seq![digit(d as nat)],
{
    proof {
        reveal_strlit("0");
        reveal_strlit("1");
        reveal_strlit("2");
        reveal_strlit("3");
        reveal_strlit("4");
        reveal_strlit("5");
        reveal_strlit("6");
        reveal_strlit("7");
        reveal_strlit("8");
        reveal_strlit("9");
    }
    match d {
        0 => "0",
        1 => "1",
        2 => "2",
        3 => "3",
        4 => "4",
        5 => "5",
        6 => "6",
        7 => "7",
        8 => "8",
        _ => "9",
    }
}

/// One line on a window: its process, the number of the process, its title.
pub fn describe_window(process_name: &str, process_id: u32, title: &str) -> (line: String)
    ensures
        line@ == window_line(process_name@, process_id, title@),
{
    let mut line = "[".to_string();
    line.append(process_name);
    line.append("] (PID: ");
    line.append(to_decimal(process_id as u64).as_str());
    line.append(") - ");
    line.append(title);
    line
}

/// One line on a window, from what the system says of it: the buffer with its
/// title and how much of it is filled, its process, and the image of that.
pub fn get_window_details(
    title_buffer: &[u16],
    title_len: i32,
    process_id: u32,
    image: ProcessImage,
) -> (line: String)
    requires
        title_len <= title_buffer@.len(),
    ensures
        exists|name: Seq<char>|
            is_process_name(image, name) && line@ == #[trigger] window_line(
                name,
                process_id,
                buffer_text(title_buffer@, title_len as int, "No Title"@),
            ),
{
    let title = text_or(title_buffer, title_len, "No Title");
    let process_name = get_process_name(image);
    describe_window(process_name.as_str(), process_id, title.as_str())
}

} // verus!
