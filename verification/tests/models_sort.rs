use screen_guardian_core::{SortBy, SortOrder, WindowInfo};

fn w(index: usize, app: &str, pid: u32, hwnd: isize, title: &str, path: &str, protected: bool) -> WindowInfo {
    WindowInfo {
        index,
        app_name: app.to_string(),
        pid,
        hwnd,
        title: title.to_string(),
        executable_path: path.to_string(),
        is_protected: protected,
        window_type: String::new(),
    }
}

fn sample() -> Vec<WindowInfo> {
    vec![
        w(1, "notepad.exe", 30, 300, "b", "C:\\x\\notepad.exe", false),
        w(2, "Code.exe", 10, -5, "a", "C:\\y\\Code.exe", true),
        w(3, "chrome.exe", 20, 100, "b", "C:\\a\\chrome.exe", false),
        w(4, "notepad.exe", 10, 7, "c", "C:\\x\\notepad.exe", true),
    ]
}

fn indices(items: &[WindowInfo]) -> Vec<usize> {
    items.iter().map(|w| w.index).collect()
}

#[test]
fn sort_by_pid_ascending_is_stable() {
    let mut v = sample();
    WindowInfo::sort(&mut v, &SortBy::Pid, &SortOrder::Asc);
    assert_eq!(indices(&v), vec![2, 4, 3, 1]);
}

#[test]
fn sort_by_pid_descending_keeps_ties_in_order() {
    let mut v = sample();
    WindowInfo::sort(&mut v, &SortBy::Pid, &SortOrder::Desc);
    assert_eq!(indices(&v), vec![1, 3, 2, 4]);
}

#[test]
fn sort_by_app_name_uses_code_point_order() {
    let mut v = sample();
    WindowInfo::sort(&mut v, &SortBy::AppName, &SortOrder::Asc);
    assert_eq!(indices(&v), vec![2, 3, 1, 4]);
}

#[test]
fn sort_by_title_descending() {
    let mut v = sample();
    WindowInfo::sort(&mut v, &SortBy::Title, &SortOrder::Desc);
    assert_eq!(indices(&v), vec![4, 1, 3, 2]);
}

#[test]
fn sort_by_hwnd_handles_negative() {
    let mut v = sample();
    WindowInfo::sort(&mut v, &SortBy::Hwnd, &SortOrder::Asc);
    assert_eq!(indices(&v), vec![2, 4, 3, 1]);
}

#[test]
fn sort_by_protected_puts_false_first() {
    let mut v = sample();
    WindowInfo::sort(&mut v, &SortBy::Protected, &SortOrder::Asc);
    assert_eq!(indices(&v), vec![1, 3, 2, 4]);
}

#[test]
fn sort_by_path_then_index_restores() {
    let mut v = sample();
    WindowInfo::sort(&mut v, &SortBy::ExecutablePath, &SortOrder::Asc);
    assert_eq!(indices(&v), vec![3, 1, 4, 2]);
    WindowInfo::sort(&mut v, &SortBy::Index, &SortOrder::Asc);
    assert_eq!(indices(&v), vec![1, 2, 3, 4]);
}

#[test]
fn sort_matches_std_stable_sort() {
    let orders = [SortOrder::Asc, SortOrder::Desc];
    let columns = [
        SortBy::Index,
        SortBy::AppName,
        SortBy::Pid,
        SortBy::Hwnd,
        SortBy::Title,
        SortBy::ExecutablePath,
        SortBy::Protected,
    ];
    for by in columns.iter() {
        for order in orders.iter() {
            let mut mine = sample();
            WindowInfo::sort(&mut mine, by, order);
            let mut theirs = sample();
            theirs.sort_by(|a, b| {
                let ord = match by {
                    SortBy::Index => a.index.cmp(&b.index),
                    SortBy::AppName => a.app_name.cmp(&b.app_name),
                    SortBy::Pid => a.pid.cmp(&b.pid),
                    SortBy::Hwnd => a.hwnd.cmp(&b.hwnd),
                    SortBy::Title => a.title.cmp(&b.title),
                    SortBy::ExecutablePath => a.executable_path.cmp(&b.executable_path),
                    SortBy::Protected => a.is_protected.cmp(&b.is_protected),
                };
                match order {
                    SortOrder::Asc => ord,
                    SortOrder::Desc => ord.reverse(),
                }
            });
            assert_eq!(indices(&mine), indices(&theirs));
        }
    }
}

#[test]
fn sort_empty_and_single() {
    let mut v: Vec<WindowInfo> = Vec::new();
    WindowInfo::sort(&mut v, &SortBy::Title, &SortOrder::Asc);
    assert!(v.is_empty());
    let mut one = vec![w(9, "a", 1, 1, "t", "p", false)];
    WindowInfo::sort(&mut one, &SortBy::Title, &SortOrder::Desc);
    assert_eq!(indices(&one), vec![9]);
}

#[test]
fn sort_by_app_name_non_ascii() {
    let mut v = vec![
        w(1, "微信.exe", 1, 1, "", "", false),
        w(2, "zoom.exe", 1, 1, "", "", false),
        w(3, "Zoom.exe", 1, 1, "", "", false),
    ];
    WindowInfo::sort(&mut v, &SortBy::AppName, &SortOrder::Asc);
    assert_eq!(indices(&v), vec![3, 2, 1]);
}
