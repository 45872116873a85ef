use screen_guardian_core::text::{contains_str, str_eq, text_le_exec};
use screen_guardian_core::windows::{
    app_name_from_path, audit_protected_windows, classify_window, detect_process_architecture,
    detect_window_type, is_blank_title, is_white_space, window_record, ProcessArchitecture, IMAGE_FILE_MACHINE_AMD64, IMAGE_FILE_MACHINE_ARM64,
    IMAGE_FILE_MACHINE_I386,
};
use screen_guardian_core::WindowInfo;

#[test]
fn contains_str_cases() {
    assert!(contains_str("svchost.exe", "svchost"));
    assert!(contains_str("abc", ""));
    assert!(contains_str("", ""));
    assert!(!contains_str("", "a"));
    assert!(!contains_str("ab", "abc"));
    assert!(contains_str("xxabc", "abc"));
    assert!(!contains_str("abxc", "abc"));
}

#[test]
fn text_order_cases() {
    assert!(text_le_exec(&"a".to_string(), &"b".to_string()));
    assert!(text_le_exec(&"ab".to_string(), &"ab".to_string()));
    assert!(text_le_exec(&"ab".to_string(), &"abc".to_string()));
    assert!(!text_le_exec(&"abc".to_string(), &"ab".to_string()));
    assert!(text_le_exec(&"Z".to_string(), &"a".to_string()));
    assert!(!text_le_exec(&"é".to_string(), &"z".to_string()));
}

#[test]
fn str_eq_cases() {
    assert!(str_eq("abc", "abc"));
    assert!(!str_eq("abc", "abd"));
}

#[test]
fn architecture_from_machine_codes() {
    assert_eq!(detect_process_architecture(IMAGE_FILE_MACHINE_I386, IMAGE_FILE_MACHINE_AMD64), ProcessArchitecture::X86);
    assert_eq!(detect_process_architecture(0, IMAGE_FILE_MACHINE_AMD64), ProcessArchitecture::X64);
    assert_eq!(detect_process_architecture(0, IMAGE_FILE_MACHINE_ARM64), ProcessArchitecture::Arm64);
    assert_eq!(detect_process_architecture(0, 0), ProcessArchitecture::Unknown);
    assert_eq!(IMAGE_FILE_MACHINE_I386, 0x014c);
}

#[test]
fn app_name_is_last_path_part() {
    assert_eq!(app_name_from_path("C:\\Windows\\System32\\notepad.exe"), "notepad.exe");
    assert_eq!(app_name_from_path("/usr/bin\\mixed/tool.exe"), "tool.exe");
    assert_eq!(app_name_from_path("plain.exe"), "plain.exe");
    assert_eq!(app_name_from_path("C:\\dir\\"), "");
    assert_eq!(app_name_from_path(""), "");
    assert_eq!(app_name_from_path("<unknown>"), "<unknown>");
}

#[test]
fn window_kinds() {
    assert_eq!(classify_window("svchost.exe", "c:\\windows\\system32\\svchost.exe", ""), "系统进程");
    assert_eq!(classify_window("calc.exe", "c:\\program files\\windowsapps\\calc.exe", ""), "UWP应用");
    assert_eq!(classify_window("app.exe", "c:\\x\\app.exe", "applicationframewindow"), "UWP应用");
    assert_eq!(classify_window("explorer.exe", "c:\\windows\\explorer.exe", "shell_traywnd"), "系统窗口");
    assert_eq!(classify_window("cmd.exe", "c:\\windows\\system32\\cmd.exe", ""), "系统组件");
    assert_eq!(classify_window("slack.exe", "c:\\apps\\electron\\slack.exe", ""), "Electron应用");
    assert_eq!(classify_window("msedge.exe", "c:\\edge\\msedge.exe", ""), "浏览器");
    assert_eq!(classify_window("explorer.exe", "c:\\windows\\explorer.exe", "cabinetwclass"), "文件管理器");
    assert_eq!(classify_window("notepad++.exe", "c:\\npp\\notepad++.exe", ""), "编辑器");
    assert_eq!(classify_window("game.exe", "d:\\games\\game.exe", ""), "桌面应用");
}

#[test]
fn window_kind_ignores_case() {
    assert_eq!(detect_window_type("CHROME.EXE", "C:\\Google\\CHROME.EXE", "Chrome_WidgetWin_1"), "浏览器");
    assert_eq!(detect_window_type("Calc.exe", "C:\\Program Files\\WindowsApps\\Calc.exe", ""), "UWP应用");
    assert_eq!(detect_window_type("App.exe", "C:\\x\\App.exe", "Shell_TrayWnd"), "系统窗口");
}

#[test]
fn audit_keeps_protected_in_order() {
    let mk = |i: usize, p: bool| WindowInfo {
        index: i,
        app_name: String::new(),
        pid: 0,
        hwnd: i as isize,
        title: String::new(),
        executable_path: String::new(),
        is_protected: p,
        window_type: String::new(),
    };
    let out = audit_protected_windows(vec![mk(1, true), mk(2, false), mk(3, true)]);
    let idx: Vec<usize> = out.iter().map(|w| w.index).collect();
    assert_eq!(idx, vec![1, 3]);
    assert!(audit_protected_windows(Vec::new()).is_empty());
}

#[test]
fn blank_titles() {
    assert!(is_blank_title(""));
    assert!(is_blank_title(" \t\r\n"));
    assert!(is_blank_title("\u{3000}"));
    assert!(!is_blank_title(" a "));
}

#[test]
fn window_record_numbers_and_names() {
    assert!(window_record(3, 10, 20, "  ".to_string(), "C:\\x\\a.exe".to_string(), "", false).is_none());
    let w = window_record(3, 10, 20, "Doc".to_string(), "C:\\Program Files\\Code\\Code.exe".to_string(), "Chrome_WidgetWin_1", true)
        .unwrap();
    assert_eq!(w.index, 4);
    assert_eq!(w.hwnd, 10);
    assert_eq!(w.pid, 20);
    assert_eq!(w.title, "Doc");
    assert_eq!(w.app_name, "Code.exe");
    assert!(w.is_protected);
    assert_eq!(w.window_type, detect_window_type("Code.exe", "C:\\Program Files\\Code\\Code.exe", "Chrome_WidgetWin_1"));
}

#[test]
fn white_space_agrees_with_std_on_every_char() {
    for u in 0u32..=0x10FFFF {
        if let Some(c) = char::from_u32(u) {
            assert_eq!(is_white_space(c), c.is_whitespace(), "U+{u:04X}");
        }
    }
}
