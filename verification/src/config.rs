//! The application's settings.

use vstd::prelude::*;

verus! {

/// Settings of the monitor and the file locations.
#[derive(Debug, Clone)]
pub struct AppConfig {
    pub poll_interval_ms: u64,
    pub auto_start_monitoring: bool,
    pub boot_auto_start: bool,
    pub close_to_tray: bool,
    pub rules_path: String,
    pub policy_path: String,
    pub helper_path: String,
}

impl Default for AppConfig {
    /// A scan every 3 s, no automatic start, closing to the tray, and the
    /// files under `./data` and `./target/debug`.
    fn default() -> (r: Self)
        ensures
            r.poll_interval_ms == 3000,
            !r.auto_start_monitoring,
            !r.boot_auto_start,
            r.close_to_tray,
            r.rules_path@ == "./data/rules.json"@,
            r.policy_path@ == "./data/policy-history.json"@,
            r.helper_path@ == "./target/debug/screen-guardian-helper.exe"@,
    {
        AppConfig {
            poll_interval_ms: 3000,
            auto_start_monitoring: false,
            boot_auto_start: false,
            close_to_tray: true,
            rules_path: "./data/rules.json".to_owned(),
            policy_path: "./data/policy-history.json".to_owned(),
            helper_path: "./target/debug/screen-guardian-helper.exe".to_owned(),
        }
    }
}

} // verus!
