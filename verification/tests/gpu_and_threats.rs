use screen_guardian_core::gpu_protection::{get_known_screenshot_apps, first_app_within};
use screen_guardian_core::process_monitor::{detect_lowered, ThreatSnapshot};
use screen_guardian_core::screenshot_apps::{known_screenshot_apps, ThreatLevel as AppThreat};
use screen_guardian_core::{
    GpuCaptureType, GpuProtectionConfig, GpuProtectionLevel, GpuProtectionManager, GpuProtectionMethod,
    ProcessMonitor, ThreatLevel,
};

#[test]
fn gpu_names() {
    assert_eq!(GpuCaptureType::Gdi.to_string(), "GDI");
    assert_eq!(GpuCaptureType::Dxgi.to_string(), "DXGI");
    assert_eq!(GpuCaptureType::WindowsGraphicsCapture.to_string(), "WGC");
    assert_eq!(GpuCaptureType::GameCapture.to_string(), "Game");
    assert_eq!(GpuProtectionMethod::DxgiPresentHook.to_string(), "DXGI Hook");
    assert_eq!(GpuProtectionMethod::D3dPresentHook.to_string(), "D3D Hook");
    assert_eq!(GpuProtectionMethod::WgcProtection.to_string(), "WGC Protection");
    assert_eq!(GpuProtectionMethod::OverlayProtection.to_string(), "Overlay");
    assert_eq!(GpuProtectionLevel::Basic.to_string(), "Basic");
    assert_eq!(GpuProtectionLevel::Maximum.to_string(), "Maximum");
    assert_eq!(ThreatLevel::Low.to_string(), "Low");
    assert_eq!(ThreatLevel::High.to_string(), "High");
}

#[test]
fn gpu_config_default() {
    let c = GpuProtectionConfig::default();
    assert!(!c.enabled);
    assert_eq!(c.level, GpuProtectionLevel::Basic);
    assert!(!c.enable_dxgi_hook);
    assert!(!c.enable_d3d_hook);
    assert!(c.enable_wgc_protection);
    assert!(!c.enable_overlay);
}

#[test]
fn gpu_manager_disabled_config_does_nothing() {
    let mut m = GpuProtectionManager::new(GpuProtectionConfig::default());
    m.enable();
    assert!(m.get_active_methods().is_empty());
    let s = m.get_status();
    assert!(!s.enabled);
    assert_eq!(s.protected_windows, 0);
}

#[test]
fn gpu_manager_enable_and_disable() {
    let config = GpuProtectionConfig {
        enabled: true,
        level: GpuProtectionLevel::Advanced,
        enable_dxgi_hook: true,
        enable_d3d_hook: false,
        enable_wgc_protection: true,
        enable_overlay: true,
    };
    let mut m = GpuProtectionManager::new(config);
    m.enable();
    assert_eq!(
        m.get_active_methods(),
        &[GpuProtectionMethod::DxgiPresentHook, GpuProtectionMethod::WgcProtection, GpuProtectionMethod::OverlayProtection]
    );
    let s = m.get_status();
    assert!(s.enabled);
    assert_eq!(s.level, GpuProtectionLevel::Advanced);
    assert_eq!(s.active_methods.len(), 3);
    m.enable();
    assert_eq!(m.get_active_methods().len(), 6);
    m.disable();
    assert!(m.get_active_methods().is_empty());
}

#[test]
fn gpu_known_apps_table() {
    let apps = get_known_screenshot_apps();
    assert_eq!(apps.len(), 12);
    assert_eq!(apps[0].name, "OBS Studio");
    assert_eq!(apps[0].process_name, "obs64.exe");
    assert_eq!(apps[11].process_name, "AMDExternalEvents.exe");
    assert_eq!(apps[6].threat_level, ThreatLevel::Low);
}

#[test]
fn gpu_detect_ignores_case_and_finds_within() {
    let m = GpuProtectionManager::new(GpuProtectionConfig::default());
    assert_eq!(m.detect_capture_type("OBS64.EXE"), Some(GpuCaptureType::Dxgi));
    assert_eq!(m.detect_capture_type("C:\\tools\\sharex.exe"), Some(GpuCaptureType::Gdi));
    assert_eq!(m.detect_capture_type("notepad.exe"), None);
    let app = m.is_screenshot_app("snippingtool.exe").unwrap();
    assert_eq!(app.name, "Snipping Tool");
    assert_eq!(app.capture_type, GpuCaptureType::Gdi);
    assert!(m.is_screenshot_app("calc.exe").is_none());
}

#[test]
fn first_app_within_picks_first() {
    let names = vec!["obs".to_string(), "obs64".to_string()];
    assert_eq!(first_app_within("xobs64.exe", &names), Some(0));
    assert_eq!(first_app_within("zoom", &names), None);
    assert_eq!(first_app_within("anything", &vec![String::new()]), Some(0));
}

#[test]
fn threat_level_keys_and_labels() {
    assert_eq!(AppThreat::High.as_str(), "high");
    assert_eq!(AppThreat::High2.as_str(), "high");
    assert_eq!(AppThreat::Medium.as_str(), "medium");
    assert_eq!(AppThreat::Low.as_str(), "low");
    assert_eq!(AppThreat::High.label(), "系统截图工具");
    assert_eq!(AppThreat::High2.label(), "第三方截录屏");
    assert_eq!(AppThreat::Medium.label(), "远程/会议共享");
    assert_eq!(AppThreat::Low.label(), "浏览器");
}

#[test]
fn known_screenshot_apps_table() {
    let apps = known_screenshot_apps();
    assert_eq!(apps.len(), 34);
    assert_eq!(apps[0].display_name, "截图工具 (Snipping Tool)");
    assert_eq!(apps[0].process_names, &["SnippingTool.exe", "ScreenSketch.exe"]);
    assert_eq!(apps[33].display_name, "Skype");
    assert_eq!(apps[33].threat_level, AppThreat::Medium);
}

#[test]
fn process_monitor_scan_detects_known_processes() {
    let m = ProcessMonitor::new();
    let procs = vec![
        ("OBS64.exe".to_string(), 10),
        ("notepad.exe".to_string(), 11),
        ("zoom.exe".to_string(), 12),
        ("SnippingTool.exe".to_string(), 13),
    ];
    let at = "2024-01-02 03:04:05.678".to_string();
    let snap = m.scan(&procs, &at, 7);
    assert_eq!(snap.total_count, 3);
    assert_eq!(snap.detected.len(), 3);
    assert_eq!(snap.high_count, 2);
    assert_eq!(snap.medium_count, 1);
    assert_eq!(snap.scan_time_ms, 7);
    assert_eq!(snap.detected[0].display_name, "OBS Studio");
    assert_eq!(snap.detected[0].process_name, "OBS64.exe");
    assert_eq!(snap.detected[0].pid, 10);
    assert_eq!(snap.detected[0].threat_level, "high");
    assert_eq!(snap.detected[0].threat_label, "第三方截录屏");
    assert_eq!(snap.detected[0].detected_at, at);
    assert_eq!(snap.detected[1].display_name, "Zoom");
    assert_eq!(snap.detected[1].threat_level, "medium");
    assert_eq!(snap.detected[2].display_name, "截图工具 (Snipping Tool)");
}

#[test]
fn process_monitor_scan_nothing() {
    let m = ProcessMonitor::new();
    let snap = m.scan(&vec![("explorer.exe".to_string(), 1)], &String::new(), 0);
    assert_eq!(snap.total_count, 0);
    assert_eq!(snap.high_count, 0);
    assert_eq!(snap.medium_count, 0);
}

#[test]
fn process_monitor_interval() {
    let m = ProcessMonitor::new();
    assert_eq!(m.scan_interval(), std::time::Duration::from_secs(1));
    assert_eq!(m.known_apps().len(), 34);
    let m2 = m.with_interval(std::time::Duration::from_millis(250));
    assert_eq!(m2.scan_interval(), std::time::Duration::from_millis(250));
}

#[test]
fn snapshot_counts_levels() {
    let mk = |level: &str| screen_guardian_core::DetectedApp {
        display_name: String::new(),
        process_name: String::new(),
        pid: 0,
        threat_level: level.to_string(),
        threat_label: String::new(),
        description: String::new(),
        detected_at: String::new(),
    };
    let s = ThreatSnapshot::from_detected(vec![mk("high"), mk("low"), mk("medium"), mk("high")], 3);
    assert_eq!(s.total_count, 4);
    assert_eq!(s.high_count, 2);
    assert_eq!(s.medium_count, 1);
}

#[test]
fn screenshot_app_ignores_case_and_surrounding_text() {
    let m = GpuProtectionManager::new(GpuProtectionConfig::default());
    for name in ["sharex.exe", "obs64.exe", "snippingtool.exe", "calc.exe"] {
        let plain = m.is_screenshot_app(name).map(|a| a.name);
        let upper = m.is_screenshot_app(&name.to_ascii_uppercase()).map(|a| a.name);
        assert_eq!(upper, plain);
        let longer = m.is_screenshot_app(&format!("C:\\tools\\{name}.bak"));
        assert_eq!(longer.is_some(), plain.is_some());
    }
}

#[test]
fn snapshot_threats_changed_ignores_detection_time() {
    let mk = |name: &str, pid: u32, at: &str| screen_guardian_core::DetectedApp {
        display_name: name.to_string(),
        process_name: format!("{name}.exe"),
        pid,
        threat_level: "high".to_string(),
        threat_label: "高".to_string(),
        description: String::new(),
        detected_at: at.to_string(),
    };
    let empty = ThreatSnapshot::from_detected(vec![], 0);
    let a = ThreatSnapshot::from_detected(vec![mk("obs", 1, "10:00")], 5);
    let a_later = ThreatSnapshot::from_detected(vec![mk("obs", 1, "10:05")], 7);
    let other_pid = ThreatSnapshot::from_detected(vec![mk("obs", 2, "10:05")], 7);
    assert!(!empty.threats_changed(&ThreatSnapshot::from_detected(vec![], 3)));
    assert!(a.threats_changed(&empty));
    assert!(empty.threats_changed(&a));
    assert!(!a_later.threats_changed(&a));
    assert!(other_pid.threats_changed(&a));
}

#[test]
fn scan_equals_detection_over_known_table() {
    let procs = vec![
        ("OBS64.exe".to_string(), 10),
        ("Zoom.exe".to_string(), 12),
        ("discord.exe".to_string(), 14),
        ("calc.exe".to_string(), 15),
    ];
    let apps = known_screenshot_apps();
    let lowered_procs: Vec<String> = procs.iter().map(|p| p.0.to_lowercase()).collect();
    let lowered_apps: Vec<Vec<String>> =
        apps.iter().map(|a| a.process_names.iter().map(|n| n.to_lowercase()).collect()).collect();
    let direct = ThreatSnapshot::from_detected(
        detect_lowered(&apps, &procs, &lowered_procs, &lowered_apps, &"t1".to_string()),
        0,
    );
    let scanned = ProcessMonitor::new().scan(&procs, &"t2".to_string(), 0);
    assert_eq!(scanned.detected.len(), direct.detected.len());
    for (x, y) in scanned.detected.iter().zip(direct.detected.iter()) {
        assert_eq!(
            (&x.display_name, &x.process_name, x.pid, &x.threat_level, &x.threat_label, &x.description),
            (&y.display_name, &y.process_name, y.pid, &y.threat_level, &y.threat_label, &y.description)
        );
    }
    assert_eq!(scanned.total_count, direct.total_count);
    assert_eq!(scanned.high_count, direct.high_count);
    assert_eq!(scanned.medium_count, direct.medium_count);
}
