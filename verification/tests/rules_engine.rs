use screen_guardian_core::models::WindowInfo;
use screen_guardian_core::policy::{PolicyStore, Timestamp};
use screen_guardian_core::rules::{default_group_id, record_applied, RuleError, RulesFile};
use screen_guardian_core::{Rule, RuleEngine, RuleGroup};

fn rule(id: &str, group: &str, pattern: &str, protect: bool, enabled: bool, priority: u32) -> Rule {
    Rule {
        id: id.to_string(),
        group_id: group.to_string(),
        name: format!("rule {id}"),
        process_pattern: pattern.to_string(),
        protect,
        enabled,
        priority,
    }
}

fn group(id: &str) -> RuleGroup {
    RuleGroup { id: id.to_string(), name: format!("group {id}"), description: String::new(), enabled: true }
}

fn window(index: usize, app: &str, hwnd: isize, protected: bool) -> WindowInfo {
    WindowInfo {
        index,
        app_name: app.to_string(),
        pid: 100 + index as u32,
        hwnd,
        title: format!("title {index}"),
        executable_path: format!("C:\\apps\\{app}"),
        is_protected: protected,
        window_type: String::new(),
    }
}

fn empty_engine() -> RuleEngine {
    RuleEngine::from_rules_file("./data/rules.json".to_string(), RulesFile::Missing).unwrap()
}

#[test]
fn missing_file_gives_empty_engine() {
    let e = empty_engine();
    assert!(e.rules().is_empty());
    assert!(e.groups().is_empty());
    assert_eq!(e.path(), "./data/rules.json");
}

#[test]
fn unrecognized_file_gives_empty_engine() {
    let e = RuleEngine::from_rules_file("r.json".to_string(), RulesFile::Unrecognized).unwrap();
    assert!(e.rules().is_empty());
    assert!(e.groups().is_empty());
}

#[test]
fn old_layout_gets_default_group() {
    let e = RuleEngine::from_rules_file(
        "r.json".to_string(),
        RulesFile::RulesOnly(vec![rule("a", "default", "notepad", true, true, 1)]),
    )
    .unwrap();
    assert_eq!(e.groups().len(), 1);
    assert_eq!(e.groups()[0].id, "default");
    assert_eq!(e.groups()[0].name, "默认规则");
    assert_eq!(e.groups()[0].description, "系统默认规则组");
    assert!(e.groups()[0].enabled);
    assert_eq!(e.rules().len(), 1);
}

#[test]
fn full_layout_is_kept() {
    let e = RuleEngine::from_rules_file(
        "r.json".to_string(),
        RulesFile::Full { groups: vec![group("g1"), group("g2")], rules: vec![rule("a", "g1", "x", true, true, 5)] },
    )
    .unwrap();
    assert_eq!(e.groups().len(), 2);
    assert_eq!(e.groups()[1].id, "g2");
    assert_eq!(e.rules()[0].id, "a");
}

#[test]
fn invalid_pattern_in_file_fails() {
    let r = RuleEngine::from_rules_file(
        "r.json".to_string(),
        RulesFile::Full { groups: vec![], rules: vec![rule("a", "g", "foo(bar", true, true, 5)] },
    );
    assert!(matches!(r, Err(RuleError::InvalidPattern(_))));
}

#[test]
fn default_group_id_is_default() {
    assert_eq!(default_group_id(), "default");
}

#[test]
fn add_rejects_invalid_pattern_and_keeps_rules() {
    let mut e = empty_engine();
    e.add(rule("a", "g", "notepad", true, true, 1)).unwrap();
    let r = e.add(rule("b", "g", "foo(bar", true, true, 1));
    assert!(matches!(r, Err(RuleError::InvalidPattern(_))));
    assert_eq!(e.rules().len(), 1);
    assert_eq!(e.rules()[0].id, "a");
}

#[test]
fn add_group_rejects_duplicate_id() {
    let mut e = empty_engine();
    assert!(e.add_group(group("g1")).is_ok());
    match e.add_group(group("g1")) {
        Err(RuleError::DuplicateGroup(id)) => assert_eq!(id, "g1"),
        _ => panic!("duplicate group accepted"),
    }
    assert_eq!(e.groups().len(), 1);
}

#[test]
fn match_window_prefers_lower_priority_value() {
    let mut e = empty_engine();
    e.add(rule("late", "g", "note", false, true, 50)).unwrap();
    e.add(rule("early", "g", "notepad", true, true, 10)).unwrap();
    assert_eq!(e.match_window("notepad.exe").unwrap().id, "early");
    assert_eq!(e.match_window("notes.exe").unwrap().id, "late");
    assert!(e.match_window("calc.exe").is_none());
}

#[test]
fn match_window_ties_go_to_first_added() {
    let mut e = empty_engine();
    e.add(rule("first", "g", "chrome", true, true, 7)).unwrap();
    e.add(rule("second", "g", "chrome", false, true, 7)).unwrap();
    assert_eq!(e.match_window("chrome.exe").unwrap().id, "first");
}

#[test]
fn match_window_skips_disabled_rules() {
    let mut e = empty_engine();
    e.add(rule("off", "g", "chrome", true, false, 1)).unwrap();
    e.add(rule("on", "g", "chrome", false, true, 2)).unwrap();
    assert_eq!(e.match_window("chrome.exe").unwrap().id, "on");
    assert!(e.enable("off", true));
    assert_eq!(e.match_window("chrome.exe").unwrap().id, "off");
}

#[test]
fn match_window_uses_regex_anchors() {
    let mut e = empty_engine();
    e.add(rule("anchored", "g", r"^code\.exe$", true, true, 1)).unwrap();
    assert_eq!(e.match_window("code.exe").unwrap().id, "anchored");
    assert!(e.match_window("vscode.exe").is_none());
}

#[test]
fn remove_reports_and_removes() {
    let mut e = empty_engine();
    e.add(rule("a", "g", "x", true, true, 1)).unwrap();
    e.add(rule("b", "g", "y", true, true, 1)).unwrap();
    assert!(e.remove("a"));
    assert!(!e.remove("a"));
    assert_eq!(e.rules().len(), 1);
    assert_eq!(e.rules()[0].id, "b");
    assert!(e.match_window("x").is_none());
}

#[test]
fn remove_undoes_add_of_fresh_rule() {
    let mut e = empty_engine();
    e.add(rule("a", "g", "x", true, true, 3)).unwrap();
    e.add(rule("b", "g", "y", false, true, 1)).unwrap();
    let before: Vec<String> = e.rules().iter().map(|r| r.id.clone()).collect();
    e.add(rule("fresh", "g", "z", true, true, 2)).unwrap();
    assert!(e.remove("fresh"));
    let after: Vec<String> = e.rules().iter().map(|r| r.id.clone()).collect();
    assert_eq!(before, after);
    assert_eq!(e.match_window("y").unwrap().id, "b");
}

#[test]
fn enable_reports_unknown_id() {
    let mut e = empty_engine();
    e.add(rule("a", "g", "x", true, true, 1)).unwrap();
    assert!(!e.enable("zzz", false));
    assert!(e.enable("a", false));
    assert!(!e.rules()[0].enabled);
    assert!(e.match_window("x").is_none());
}

#[test]
fn toggle_group_sets_rules_of_group() {
    let mut e = empty_engine();
    e.add_group(group("g1")).unwrap();
    e.add_group(group("g2")).unwrap();
    e.add(rule("a", "g1", "x", true, true, 1)).unwrap();
    e.add(rule("b", "g2", "x", true, true, 2)).unwrap();
    assert!(e.toggle_group("g1", false));
    assert!(!e.groups()[0].enabled);
    assert!(e.groups()[1].enabled);
    assert!(!e.rules()[0].enabled);
    assert!(e.rules()[1].enabled);
    assert_eq!(e.match_window("x").unwrap().id, "b");
    assert!(!e.toggle_group("none", true));
}

#[test]
fn remove_group_removes_its_rules() {
    let mut e = empty_engine();
    e.add_group(group("g1")).unwrap();
    e.add_group(group("g2")).unwrap();
    e.add(rule("a", "g1", "x", true, true, 1)).unwrap();
    e.add(rule("b", "g2", "y", true, true, 2)).unwrap();
    assert!(e.remove_group("g1"));
    assert_eq!(e.groups().len(), 1);
    assert_eq!(e.rules().len(), 1);
    assert_eq!(e.rules()[0].id, "b");
    assert!(e.match_window("x").is_none());
    assert!(!e.remove_group("g1"));
}

#[test]
fn remove_group_of_rules_without_group_entry() {
    let mut e = empty_engine();
    e.add(rule("a", "orphan", "x", true, true, 1)).unwrap();
    assert!(!e.remove_group("orphan"));
    assert!(e.rules().is_empty());
}

#[test]
fn rules_by_group_keeps_order() {
    let mut e = empty_engine();
    e.add(rule("a", "g1", "x", true, true, 9)).unwrap();
    e.add(rule("b", "g2", "x", true, true, 1)).unwrap();
    e.add(rule("c", "g1", "x", true, true, 1)).unwrap();
    let ids: Vec<&str> = e.rules_by_group("g1").iter().map(|r| r.id.as_str()).collect();
    assert_eq!(ids, vec!["a", "c"]);
}

#[test]
fn plan_changes_only_for_windows_to_flip() {
    let mut e = empty_engine();
    e.add(rule("protect-note", "g", "notepad", true, true, 1)).unwrap();
    e.add(rule("show-calc", "g", "calc", false, true, 1)).unwrap();
    let windows = vec![
        window(1, "notepad.exe", 11, false),
        window(2, "notepad.exe", 12, true),
        window(3, "calc.exe", 13, true),
        window(4, "other.exe", 14, false),
    ];
    let plan = e.plan_changes(&windows);
    assert_eq!(plan.len(), 2);
    assert_eq!(plan[0].hwnd, 11);
    assert!(plan[0].protect);
    assert!(!plan[0].previous_protected);
    assert_eq!(plan[0].rule_id, "protect-note");
    assert_eq!(plan[0].title, "title 1");
    assert_eq!(plan[1].hwnd, 13);
    assert!(!plan[1].protect);
    assert_eq!(plan[1].rule_id, "show-calc");
}

#[test]
fn record_applied_records_only_successes() {
    let mut e = empty_engine();
    e.add(rule("p", "g", "app", true, true, 1)).unwrap();
    let windows = vec![window(1, "app.exe", 21, false), window(2, "app.exe", 22, false)];
    let plan = e.plan_changes(&windows);
    let mut store = PolicyStore::from_history("h.json".to_string(), Vec::new());
    let ts = Timestamp { secs: 1_700_000_000, nanos: 5 };
    let results = record_applied(&mut store, &plan, &vec![false, true], ts);
    assert_eq!(results.len(), 1);
    assert_eq!(results[0].hwnd, 22);
    assert_eq!(results[0].rule_id, "p");
    assert!(results[0].protect);
    assert_eq!(store.history().len(), 1);
    let c = &store.history()[0];
    assert_eq!(c.hwnd, 22);
    assert_eq!(c.actor, "rule:p");
    assert_eq!(c.timestamp, ts);
    assert!(!c.previous_protected);
    assert!(c.current_protected);
    assert_eq!(c.executable_path, "C:\\apps\\app.exe");
}

#[test]
fn planned_change_conversions() {
    let mut e = empty_engine();
    e.add(rule("r1", "g", "w", false, true, 1)).unwrap();
    let plan = e.plan_changes(&vec![window(5, "w.exe", 99, true)]);
    let c = plan[0].to_policy_change(Timestamp { secs: 0, nanos: 0 });
    assert_eq!(c.actor, "rule:r1");
    assert_eq!(c.pid, 105);
    let r = plan[0].to_apply_result();
    assert_eq!(r.hwnd, 99);
    assert_eq!(r.title, "title 5");
    assert!(!r.protect);
}

#[test]
fn saved_engine_reloads_with_same_rules_and_decisions() {
    let mut e = empty_engine();
    e.add_group(group("g1")).unwrap();
    e.add(rule("a", "g1", "^obs", true, true, 5)).unwrap();
    e.add(rule("b", "default", "obs64", false, true, 1)).unwrap();
    e.add(rule("c", "g1", "notepad", true, false, 3)).unwrap();
    let file = e.to_rules_file();
    let e2 = RuleEngine::from_rules_file(e.path().to_string(), file).unwrap();
    let ids = |x: &RuleEngine| x.rules().iter().map(|r| r.id.clone()).collect::<Vec<_>>();
    assert_eq!(ids(&e2), ids(&e));
    assert_eq!(e2.groups().len(), 1);
    assert_eq!(e2.groups()[0].id, "g1");
    for name in ["obs64.exe", "obs32.exe", "notepad.exe", "other.exe"] {
        assert_eq!(e2.match_window(name).map(|r| r.id.clone()), e.match_window(name).map(|r| r.id.clone()));
    }
    assert_eq!(e2.match_window("obs64.exe").unwrap().id, "b");
}
