//! What is decided about windows and processes once the system has been
//! asked: which windows are protected, a process's architecture, the
//! application name of an executable path and the kind of a window.

use vstd::prelude::*;

use crate::models::WindowInfo;
use crate::text::{chars_of, contains_str, contains_text, lowercase, to_lowercase};

verus! {

broadcast use vstd::seq_lib::group_seq_properties, vstd::seq::group_seq_axioms;

/// The instruction set a process runs with.
#[derive(Debug, Clone, Copy, PartialEq, Eq, Structural)]
pub enum ProcessArchitecture {
    X86,
    X64,
    Arm64,
    Unknown,
}

/// `IMAGE_FILE_MACHINE_I386`.
pub const IMAGE_FILE_MACHINE_I386: u16 = 0x014c;
/// `IMAGE_FILE_MACHINE_AMD64`.
pub const IMAGE_FILE_MACHINE_AMD64: u16 = 0x8664;
/// `IMAGE_FILE_MACHINE_ARM64`.
pub const IMAGE_FILE_MACHINE_ARM64: u16 = 0xAA64;

/// The architecture of a process from the machine types that
/// `IsWow64Process2` reports: a 32-bit x86 process is X86 whatever the
/// machine; otherwise the machine's own type decides.
pub fn detect_process_architecture(process_machine: u16, native_machine: u16) -> (r: ProcessArchitecture)
    ensures
        r == (if process_machine == IMAGE_FILE_MACHINE_I386 {
            ProcessArchitecture::X86
        } else if native_machine == IMAGE_FILE_MACHINE_AMD64 {
            ProcessArchitecture::X64
        } else if native_machine == IMAGE_FILE_MACHINE_ARM64 {
            ProcessArchitecture::Arm64
        } else {
            ProcessArchitecture::Unknown
        }),
{
    if process_machine == IMAGE_FILE_MACHINE_I386 {
        ProcessArchitecture::X86
    } else if native_machine == IMAGE_FILE_MACHINE_AMD64 {
        ProcessArchitecture::X64
    } else if native_machine == IMAGE_FILE_MACHINE_ARM64 {
        ProcessArchitecture::Arm64
    } else {
        ProcessArchitecture::Unknown
    }
}

/// The windows of `windows` that are protected, in order.
pub fn audit_protected_windows(windows: Vec<WindowInfo>) -> (r: Vec<WindowInfo>)
    ensures
        r@ == windows@.filter(|w: WindowInfo| w.is_protected),
{
    let ghost p = |w: WindowInfo| w.is_protected;
    let ghost s = windows@;
    let mut out: Vec<WindowInfo> = Vec::new();
    for w in it: windows.into_iter()
        invariant
            it.seq() == s,
            p == (|w: WindowInfo| w.is_protected),
            out@ == s.take(it.index() as int).filter(p),
    {
        let ghost t = s.take(it.index() as int);
        proof {
            assert(s.take(it.index() + 1) == t.push(w));
            reveal(Seq::filter);
            assert(t.push(w).drop_last() == t);
        }
        if w.is_protected {
            out.push(w);
        }
    }
    proof {
        assert(s.take(s.len() as int) == s);
    }
    out
}

/// `c` separates the parts of a path.
pub open spec fn is_path_separator(c: char) -> bool {
    c == '\\' || c == '/'
}

/// The part of `path` after its last separator (all of it when there is none).
pub open spec fn last_segment(path: Seq<char>) -> Seq<char>
    decreases path.len(),
{
    if path.len() == 0 {
        path
    } else if is_path_separator(path.last()) {
        Seq::empty()
    } else {
        last_segment(path.drop_last()).push(path.last())
    }
}

/// `String::push`. Claimed: the character is appended to the string.
#[verifier::external_body]
fn push_char(s: &mut String, c: char)
    ensures
        final(s)@ == old(s)@.push(c),
{
    s.push(c)
}

/// The application name of an executable path: what follows its last `\`
/// or `/`.
pub fn app_name_from_path(path: &str) -> (r: String)
    ensures
        r@ == last_segment(path@),
{
    let cs = crate::text::chars_of(path);
    let n = cs.len();
    let mut start: usize = 0;
    for i in 0..n
        invariant
            n == cs@.len(),
            cs@ == path@,
            start <= i,
            last_segment(cs@.take(i as int)) == cs@.subrange(start as int, i as int),
    {
        proof {
            let t = cs@.take(i + 1);
            assert(t.drop_last() == cs@.take(i as int));
            assert(t.last() == cs@[i as int]);
        }
        if cs[i] == '\\' || cs[i] == '/' {
            start = i + 1;
            proof {
                assert(cs@.subrange(start as int, i + 1) =~= Seq::<char>::empty());
            }
        } else {
            proof {
                assert(cs@.subrange(start as int, i + 1) =~= cs@.subrange(start as int, i as int).push(cs@[i as int]));
            }
        }
    }
    let mut out = String::new();
    for k in start..n
        invariant
            n == cs@.len(),
            start <= n,
            out@ == cs@.subrange(start as int, k as int),
    {
        push_char(&mut out, cs[k]);
        proof {
            assert(cs@.subrange(start as int, k + 1) =~= cs@.subrange(start as int, k as int).push(cs@[k as int]));
        }
    }
    proof {
        assert(cs@.take(n as int) == cs@);
    }
    out
}

/// Parts of process names that mark system processes.
pub open spec fn system_process_names() -> Seq<Seq<char>> {
    seq![
        "svchost"@, "csrss"@, "smss"@, "wininit"@, "winlogon"@, "services"@,
        "lsass"@, "lsm"@, "dwm"@, "taskhostw"@, "taskhost"@, "sihost"@,
        "runtimebroker"@, "searchui"@, "shellexperiencehost"@, "startmenuexperiencehost"@,
        "ctfmon"@, "fontdrvhost"@, "msdtc"@, "spoolsv"@, "wlanext"@,
        "consent"@, "trustedinstaller"@, "tiworker"@,
    ]
}

/// Some text of `needles` occurs in `hay`.
pub open spec fn contains_any(hay: Seq<char>, needles: Seq<Seq<char>>) -> bool {
    exists|k: int| 0 <= k < needles.len() && contains_text(hay, #[trigger] needles[k])
}

/// The kind of a window from the lowercase process name, executable path
/// and window class.
pub open spec fn window_kind(name: Seq<char>, path: Seq<char>, class: Seq<char>) -> Seq<char> {
    if contains_any(name, system_process_names()) {
        "系统进程"@
    } else if contains_text(path, "\\windowsapps\\"@) || contains_text(path, "\\microsoft.windowsapps."@) {
        "UWP应用"@
    } else if contains_text(class, "applicationframe"@) || contains_text(class, "windows.ui.core"@) {
        "UWP应用"@
    } else if contains_text(class, "shell_traywnd"@) || contains_text(class, "shell_secondary"@) {
        "系统窗口"@
    } else if contains_text(path, "\\system32\\"@) || contains_text(path, "\\syswow64\\"@) {
        "系统组件"@
    } else if contains_text(name, "electron"@) || contains_text(path, "\\electron"@) {
        "Electron应用"@
    } else if contains_text(name, "chrome"@) || contains_text(name, "msedge"@) || contains_text(name, "firefox"@) {
        "浏览器"@
    } else if contains_text(name, "explorer"@) {
        "文件管理器"@
    } else if contains_text(name, "code"@) || contains_text(name, "notepad"@) || contains_text(name, "idea64"@) {
        "编辑器"@
    } else {
        "桌面应用"@
    }
}

fn is_system_process(name: &str) -> (r: bool)
    ensures
        r == contains_any(name@, system_process_names()),
{
    let names: [&str; 24] = [
        "svchost", "csrss", "smss", "wininit", "winlogon", "services",
        "lsass", "lsm", "dwm", "taskhostw", "taskhost", "sihost",
        "runtimebroker", "searchui", "shellexperiencehost", "startmenuexperiencehost",
        "ctfmon", "fontdrvhost", "msdtc", "spoolsv", "wlanext",
        "consent", "trustedinstaller", "tiworker",
    ];
    let ghost all = system_process_names();
    proof {
        assert forall|k: int| 0 <= k < 24 implies names@[k]@ == all[k] by {}
    }
    for k in 0..24
        invariant
            all == system_process_names(),
            forall|j: int| 0 <= j < 24 ==> names@[j]@ == all[j],
            forall|j: int| 0 <= j < k ==> !contains_text(name@, #[trigger] all[j]),
    {
        if contains_str(name, names[k]) {
            assert(contains_text(name@, all[k as int]));
            return true;
        }
    }
    false
}

/// The kind of a window from its lowercase process name `name`, lowercase
/// executable path `path` and lowercase window class `class` (empty when
/// the class is not known).
pub fn classify_window(name: &str, path: &str, class: &str) -> (r: String)
    ensures
        r@ == window_kind(name@, path@, class@),
{
    if is_system_process(name) {
        "系统进程".to_owned()
    } else if contains_str(path, "\\windowsapps\\") || contains_str(path, "\\microsoft.windowsapps.") {
        "UWP应用".to_owned()
    } else if contains_str(class, "applicationframe") || contains_str(class, "windows.ui.core") {
        "UWP应用".to_owned()
    } else if contains_str(class, "shell_traywnd") || contains_str(class, "shell_secondary") {
        "系统窗口".to_owned()
    } else if contains_str(path, "\\system32\\") || contains_str(path, "\\syswow64\\") {
        "系统组件".to_owned()
    } else if contains_str(name, "electron") || contains_str(path, "\\electron") {
        "Electron应用".to_owned()
    } else if contains_str(name, "chrome") || contains_str(name, "msedge") || contains_str(name, "firefox") {
        "浏览器".to_owned()
    } else if contains_str(name, "explorer") {
        "文件管理器".to_owned()
    } else if contains_str(name, "code") || contains_str(name, "notepad") || contains_str(name, "idea64") {
        "编辑器".to_owned()
    } else {
        "桌面应用".to_owned()
    }
}

/// The kind of a window of the process `app_name` run from `exe_path`,
/// whose window class is `class_name` (empty when it could not be read),
/// each compared in lowercase.
pub fn detect_window_type(app_name: &str, exe_path: &str, class_name: &str) -> (r: String)
    ensures
        r@ == window_kind(lowercase(app_name@), lowercase(exe_path@), lowercase(class_name@)),
{
    let name = to_lowercase(app_name);
    let path = to_lowercase(exe_path);
    let class = to_lowercase(class_name);
    classify_window(name.as_str(), path.as_str(), class.as_str())
}

/// Whether `c` is white space: it has Unicode's `White_Space` property,
/// as `char::is_whitespace` decides (U+0009 to U+000D, U+0020, U+0085,
/// U+00A0, U+1680, U+2000 to U+200A, U+2028, U+2029, U+202F, U+205F and
/// U+3000).
pub open spec fn unicode_whitespace(c: char) -> bool {
    let u = c as u32;
    ||| 9 <= u <= 13
    ||| u == 0x20
    ||| u == 0x85
    ||| u == 0xA0
    ||| u == 0x1680
    ||| 0x2000 <= u <= 0x200A
    ||| u == 0x2028
    ||| u == 0x2029
    ||| u == 0x202F
    ||| u == 0x205F
    ||| u == 0x3000
}

/// Whether `c` is white space.
pub fn is_white_space(c: char) -> (r: bool)
    ensures
        r == unicode_whitespace(c),
{
    let u = c as u32;
    (9 <= u && u <= 13) || u == 0x20 || u == 0x85 || u == 0xA0 || u == 0x1680 || (0x2000 <= u && u <= 0x200A)
        || u == 0x2028 || u == 0x2029 || u == 0x202F || u == 0x205F || u == 0x3000
}

/// `s` holds only white space (so that trimming it leaves nothing).
pub open spec fn is_blank(s: Seq<char>) -> bool {
    forall|i: int| 0 <= i < s.len() ==> unicode_whitespace(#[trigger] s[i])
}

/// Whether the title `title` is blank: empty or only white space.
pub fn is_blank_title(title: &str) -> (r: bool)
    ensures
        r == is_blank(title@),
{
    let cs = chars_of(title);
    let n = cs.len();
    for i in 0..n
        invariant
            n == cs@.len(),
            cs@ == title@,
            forall|j: int| 0 <= j < i ==> unicode_whitespace(#[trigger] title@[j]),
    {
        if !is_white_space(cs[i]) {
            assert(!unicode_whitespace(title@[i as int]));
            return false;
        }
    }
    true
}

/// The entry for a visible window, listed after `listed` others: none when
/// its title is blank; otherwise numbered `listed + 1`, with the
/// application name of its executable path and its kind.
pub fn window_record(
    listed: usize,
    hwnd: isize,
    pid: u32,
    title: String,
    executable_path: String,
    class_name: &str,
    is_protected: bool,
) -> (r: Option<WindowInfo>)
    requires
        listed < usize::MAX,
    ensures
        r is None <==> is_blank(title@),
        r matches Some(w) ==> {
            &&& w.index == listed + 1
            &&& w.hwnd == hwnd
            &&& w.pid == pid
            &&& w.title@ == title@
            &&& w.executable_path@ == executable_path@
            &&& w.is_protected == is_protected
            &&& w.app_name@ == last_segment(executable_path@)
            &&& w.window_type@ == window_kind(
                lowercase(last_segment(executable_path@)),
                lowercase(executable_path@),
                lowercase(class_name@),
            )
        },
{
    if is_blank_title(title.as_str()) {
        return None;
    }
    let app_name = app_name_from_path(executable_path.as_str());
    let window_type = detect_window_type(app_name.as_str(), executable_path.as_str(), class_name);
    Some(WindowInfo {
        index: listed + 1,
        app_name,
        pid,
        hwnd,
        title,
        executable_path,
        is_protected,
        window_type,
    })
}

} // verus!
