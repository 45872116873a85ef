use screen_guardian_core::affinity::{native_fallback, ApplyRoute};
use screen_guardian_core::policy::Timestamp;
use screen_guardian_core::rules::RulesFile;
use screen_guardian_core::{
    AffinityOrchestrator, AffinityValue, AppConfig, Daemon, PolicyChange, PolicyStore, Rule, RuleEngine, WindowInfo,
};

#[test]
fn affinity_values() {
    assert_eq!(AffinityValue::from_bool(true), AffinityValue::ExcludeFromCapture);
    assert_eq!(AffinityValue::from_bool(false), AffinityValue::NoAffinity);
    assert_eq!(AffinityValue::from_visibility(true), AffinityValue::NoAffinity);
    assert_eq!(AffinityValue::from_visibility(false), AffinityValue::ExcludeFromCapture);
    assert_eq!(AffinityValue::NoAffinity.as_u32(), 0);
    assert_eq!(AffinityValue::Monitor.as_u32(), 1);
    assert_eq!(AffinityValue::ExcludeFromCapture.as_u32(), 17);
}

#[test]
fn affinity_fallback_and_route() {
    assert_eq!(native_fallback(AffinityValue::ExcludeFromCapture), Some(AffinityValue::Monitor));
    assert_eq!(native_fallback(AffinityValue::Monitor), None);
    assert_eq!(native_fallback(AffinityValue::NoAffinity), None);
    let o = AffinityOrchestrator::new("helper.exe");
    assert_eq!(o.route(5, 5, false), ApplyRoute::Native);
    assert_eq!(o.route(6, 5, false), ApplyRoute::SkipNonGui);
    assert_eq!(o.route(6, 5, true), ApplyRoute::Inject);
}

#[test]
fn app_config_default_values() {
    let c = AppConfig::default();
    assert_eq!(c.poll_interval_ms, 3000);
    assert!(!c.auto_start_monitoring);
    assert!(!c.boot_auto_start);
    assert!(c.close_to_tray);
    assert_eq!(c.rules_path, "./data/rules.json");
    assert_eq!(c.policy_path, "./data/policy-history.json");
    assert_eq!(c.helper_path, "./target/debug/screen-guardian-helper.exe");
}

#[test]
fn policy_store_records_in_order() {
    let mut s = PolicyStore::from_history("p.json".to_string(), Vec::new());
    let mk = |hwnd: isize| PolicyChange {
        timestamp: Timestamp { secs: 1, nanos: 2 },
        hwnd,
        pid: 3,
        title: "t".to_string(),
        executable_path: "e".to_string(),
        previous_protected: false,
        current_protected: true,
        actor: "cli".to_string(),
    };
    s.record(mk(1));
    s.record(mk(2));
    assert_eq!(s.history().len(), 2);
    assert_eq!(s.history()[0].hwnd, 1);
    assert_eq!(s.history()[1].hwnd, 2);
    assert_eq!(s.path(), "p.json");
}

fn window(index: usize, app: &str, hwnd: isize, protected: bool) -> WindowInfo {
    WindowInfo {
        index,
        app_name: app.to_string(),
        pid: index as u32,
        hwnd,
        title: String::new(),
        executable_path: String::new(),
        is_protected: protected,
        window_type: String::new(),
    }
}

fn daemon_with_rule(pattern: &str, protect: bool) -> Daemon {
    let mut engine = RuleEngine::from_rules_file("r.json".to_string(), RulesFile::Missing).unwrap();
    engine
        .add(Rule {
            id: "r".to_string(),
            group_id: "default".to_string(),
            name: "r".to_string(),
            process_pattern: pattern.to_string(),
            protect,
            enabled: true,
            priority: 1,
        })
        .unwrap();
    Daemon::new(AppConfig::default(), engine, PolicyStore::from_history("p.json".to_string(), Vec::new()))
}

#[test]
fn daemon_new_status() {
    let d = daemon_with_rule("x", true);
    let s = d.status();
    assert!(!s.running);
    assert_eq!(s.protected_count, 0);
    assert_eq!(s.rule_count, 1);
    assert_eq!(s.last_scan_secs_ago, 0);
    assert_eq!(d.config().poll_interval_ms, 3000);
}

#[test]
fn daemon_tick_tracks_protected_windows() {
    let mut d = daemon_with_rule("secret", true);
    let windows = vec![window(1, "secret.exe", 100, false), window(2, "secret.exe", 200, false), window(3, "other", 300, false)];
    let plan = d.plan_tick(&windows);
    assert_eq!(plan.len(), 2);
    let results = d.record_tick(&plan, &vec![true, true], Timestamp { secs: 9, nanos: 0 });
    assert_eq!(d.status().protected_count, 0);
    d.track_results(&results);
    assert_eq!(results.len(), 2);
    assert_eq!(d.status().protected_count, 2);
    assert_eq!(d.store().history().len(), 2);
    d.finish_tick(&vec![200, 300]);
    assert_eq!(d.status().protected_count, 1);
    assert!(d.status().last_scan_secs_ago < 5);
}

#[test]
fn daemon_unprotect_removes_window() {
    let mut d = daemon_with_rule("secret", true);
    let plan = d.plan_tick(&vec![window(1, "secret.exe", 100, false)]);
    let res0 = d.record_tick(&plan, &vec![true], Timestamp { secs: 1, nanos: 0 });
    d.track_results(&res0);
    assert_eq!(d.status().protected_count, 1);
    d.rule_engine_mut().enable("r", false);
    assert!(d.rule_engine().match_window("secret.exe").is_none());
    let mut d2 = daemon_with_rule("secret", false);
    let plan2 = d2.plan_tick(&vec![window(1, "secret.exe", 100, true)]);
    assert_eq!(plan2.len(), 1);
    let res = d2.record_tick(&plan2, &vec![true], Timestamp { secs: 1, nanos: 0 });
    d2.track_results(&res);
    assert!(!res[0].protect);
    assert_eq!(d2.status().protected_count, 0);
}

#[test]
fn daemon_failed_apply_is_not_counted() {
    let mut d = daemon_with_rule("secret", true);
    let plan = d.plan_tick(&vec![window(1, "secret.exe", 100, false)]);
    let res = d.record_tick(&plan, &vec![false], Timestamp { secs: 1, nanos: 0 });
    d.track_results(&res);
    assert!(res.is_empty());
    assert_eq!(d.status().protected_count, 0);
    assert!(d.store().history().is_empty());
}

#[test]
fn daemon_start_stop() {
    let mut d = daemon_with_rule("x", true);
    d.start();
    assert!(d.status().running);
    d.stop();
    assert!(!d.status().running);
}

#[test]
fn daemon_same_window_twice_counts_once() {
    let mut d = daemon_with_rule("secret", true);
    let plan = d.plan_tick(&vec![window(1, "secret.exe", 100, false), window(2, "secret.exe", 100, false)]);
    let res = d.record_tick(&plan, &vec![true, true], Timestamp { secs: 1, nanos: 0 });
    d.track_results(&res);
    assert_eq!(d.status().protected_count, 1);
}

#[test]
fn daemon_scan_set_formula() {
    // first scan protects windows 100 and 200
    let mut d = daemon_with_rule("secret", true);
    let plan = d.plan_tick(&vec![window(1, "secret.exe", 100, false), window(2, "secret.exe", 200, false)]);
    let res = d.record_tick(&plan, &vec![true, true], Timestamp { secs: 1, nanos: 0 });
    d.track_results(&res);
    d.finish_tick(&vec![100, 200, 300]);
    assert_eq!(d.status().protected_count, 2);
    // a rule now unprotects "secret" and protects "other": 100 is unprotected, 300 protected
    d.rule_engine_mut().remove("r");
    d.rule_engine_mut()
        .add(Rule {
            id: "u".to_string(),
            group_id: "default".to_string(),
            name: "u".to_string(),
            process_pattern: "secret".to_string(),
            protect: false,
            enabled: true,
            priority: 1,
        })
        .unwrap();
    d.rule_engine_mut()
        .add(Rule {
            id: "p".to_string(),
            group_id: "default".to_string(),
            name: "p".to_string(),
            process_pattern: "other".to_string(),
            protect: true,
            enabled: true,
            priority: 2,
        })
        .unwrap();
    let plan = d.plan_tick(&vec![window(1, "secret.exe", 100, true), window(3, "other.exe", 300, false)]);
    assert_eq!(plan.len(), 2);
    let res = d.record_tick(&plan, &vec![true, true], Timestamp { secs: 2, nanos: 0 });
    d.track_results(&res);
    // ({100, 200} ∪ {300}) \ {100} = {200, 300}; only 300 is still open
    assert_eq!(d.status().protected_count, 2);
    d.finish_tick(&vec![300]);
    assert_eq!(d.status().protected_count, 1);
}
