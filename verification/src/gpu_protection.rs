//! Protection against GPU-based capture: capture technologies, protection
//! methods and levels, the known capturing applications, and the manager
//! that tracks which methods are active.

use vstd::prelude::*;

use crate::text::{
    ascii_lower_char, ascii_lowered, ascii_upper_char, ascii_uppered, contains_str, contains_text, is_ascii_text,
    lowercase, occurs_at, to_lowercase,
};

verus! {

broadcast use vstd::seq_lib::group_seq_properties, vstd::seq::group_seq_axioms;

/// A capture technology.
#[derive(Debug, Clone, Copy, PartialEq, Eq, Structural)]
pub enum GpuCaptureType {
    /// GDI capture (BitBlt, GetDIBits).
    Gdi,
    /// DXGI Desktop Duplication.
    Dxgi,
    /// Windows Graphics Capture (Windows 10 1903 and later).
    WindowsGraphicsCapture,
    /// Direct3D or Vulkan hooks (game capture).
    GameCapture,
}

impl GpuCaptureType {
    /// The short name shown to the user.
    pub open spec fn name_spec(self) -> Seq<char> {
        match self {
            GpuCaptureType::Gdi => "GDI"@,
            GpuCaptureType::Dxgi => "DXGI"@,
            GpuCaptureType::WindowsGraphicsCapture => "WGC"@,
            GpuCaptureType::GameCapture => "Game"@,
        }
    }

    /// The short name shown to the user.
    pub fn to_string(&self) -> (r: String)
        ensures
            r@ == self.name_spec(),
    {
        match self {
            GpuCaptureType::Gdi => "GDI".to_owned(),
            GpuCaptureType::Dxgi => "DXGI".to_owned(),
            GpuCaptureType::WindowsGraphicsCapture => "WGC".to_owned(),
            GpuCaptureType::GameCapture => "Game".to_owned(),
        }
    }
}

/// A way of protecting against GPU capture.
#[derive(Debug, Clone, Copy, PartialEq, Eq, Structural)]
pub enum GpuProtectionMethod {
    /// Hook DXGI Present to return black frames.
    DxgiPresentHook,
    /// Hook Direct3D Present.
    D3dPresentHook,
    /// Windows Graphics Capture protection.
    WgcProtection,
    /// An overlay over the protected window.
    OverlayProtection,
}

impl GpuProtectionMethod {
    /// The name shown to the user.
    pub open spec fn name_spec(self) -> Seq<char> {
        match self {
            GpuProtectionMethod::DxgiPresentHook => "DXGI Hook"@,
            GpuProtectionMethod::D3dPresentHook => "D3D Hook"@,
            GpuProtectionMethod::WgcProtection => "WGC Protection"@,
            GpuProtectionMethod::OverlayProtection => "Overlay"@,
        }
    }

    /// The name shown to the user.
    pub fn to_string(&self) -> (r: String)
        ensures
            r@ == self.name_spec(),
    {
        match self {
            GpuProtectionMethod::DxgiPresentHook => "DXGI Hook".to_owned(),
            GpuProtectionMethod::D3dPresentHook => "D3D Hook".to_owned(),
            GpuProtectionMethod::WgcProtection => "WGC Protection".to_owned(),
            GpuProtectionMethod::OverlayProtection => "Overlay".to_owned(),
        }
    }
}

/// How much GPU protection is wanted.
#[derive(Debug, Clone, Copy, PartialEq, Eq, Structural)]
pub enum GpuProtectionLevel {
    /// GDI protection only (SetWindowDisplayAffinity).
    Basic,
    /// GDI and DXGI.
    Standard,
    /// GDI, DXGI and Direct3D.
    Advanced,
    /// Every protection (a high cost in performance).
    Maximum,
}

impl GpuProtectionLevel {
    /// The name shown to the user.
    pub open spec fn name_spec(self) -> Seq<char> {
        match self {
            GpuProtectionLevel::Basic => "Basic"@,
            GpuProtectionLevel::Standard => "Standard"@,
            GpuProtectionLevel::Advanced => "Advanced"@,
            GpuProtectionLevel::Maximum => "Maximum"@,
        }
    }

    /// The name shown to the user.
    pub fn to_string(&self) -> (r: String)
        ensures
            r@ == self.name_spec(),
    {
        match self {
            GpuProtectionLevel::Basic => "Basic".to_owned(),
            GpuProtectionLevel::Standard => "Standard".to_owned(),
            GpuProtectionLevel::Advanced => "Advanced".to_owned(),
            GpuProtectionLevel::Maximum => "Maximum".to_owned(),
        }
    }
}

/// Which GPU protections are wanted.
#[derive(Debug, Clone, Copy)]
pub struct GpuProtectionConfig {
    pub enabled: bool,
    pub level: GpuProtectionLevel,
    pub enable_dxgi_hook: bool,
    pub enable_d3d_hook: bool,
    pub enable_wgc_protection: bool,
    pub enable_overlay: bool,
}

impl Default for GpuProtectionConfig {
    /// Disabled, basic level, with only Windows Graphics Capture protection chosen.
    fn default() -> (r: Self)
        ensures
            !r.enabled,
            r.level == GpuProtectionLevel::Basic,
            !r.enable_dxgi_hook,
            !r.enable_d3d_hook,
            r.enable_wgc_protection,
            !r.enable_overlay,
    {
        GpuProtectionConfig {
            enabled: false,
            level: GpuProtectionLevel::Basic,
            enable_dxgi_hook: false,
            enable_d3d_hook: false,
            enable_wgc_protection: true,
            enable_overlay: false,
        }
    }
}

/// The state of GPU protection.
#[derive(Debug, Clone)]
pub struct GpuProtectionStatus {
    pub enabled: bool,
    pub level: GpuProtectionLevel,
    pub active_methods: Vec<GpuProtectionMethod>,
    pub protected_windows: usize,
}

/// How dangerous a capturing application is.
#[derive(Debug, Clone, Copy, PartialEq, Eq, Structural)]
pub enum ThreatLevel {
    Low,
    Medium,
    High,
}

impl ThreatLevel {
    /// The name shown to the user.
    pub open spec fn name_spec(self) -> Seq<char> {
        match self {
            ThreatLevel::Low => "Low"@,
            ThreatLevel::Medium => "Medium"@,
            ThreatLevel::High => "High"@,
        }
    }

    /// The name shown to the user.
    pub fn to_string(&self) -> (r: String)
        ensures
            r@ == self.name_spec(),
    {
        match self {
            ThreatLevel::Low => "Low".to_owned(),
            ThreatLevel::Medium => "Medium".to_owned(),
            ThreatLevel::High => "High".to_owned(),
        }
    }
}

/// A known screenshot or recording application.
#[derive(Debug, Clone)]
pub struct ScreenshotApp {
    pub name: String,
    pub process_name: String,
    pub capture_type: GpuCaptureType,
    pub threat_level: ThreatLevel,
}

/// The known applications: name, process name, capture technology, threat.
pub open spec fn known_gpu_apps_table() -> Seq<(Seq<char>, Seq<char>, GpuCaptureType, ThreatLevel)> {
    seq![
        ("OBS Studio"@, "obs64.exe"@, GpuCaptureType::Dxgi, ThreatLevel::High),
        ("OBS Studio (32-bit)"@, "obs32.exe"@, GpuCaptureType::Dxgi, ThreatLevel::High),
        ("XSplit"@, "XSplit.Core.exe"@, GpuCaptureType::Dxgi, ThreatLevel::High),
        ("Bandicam"@, "bdcam.exe"@, GpuCaptureType::Dxgi, ThreatLevel::High),
        ("Fraps"@, "fraps.exe"@, GpuCaptureType::Dxgi, ThreatLevel::Medium),
        ("ShareX"@, "ShareX.exe"@, GpuCaptureType::Gdi, ThreatLevel::Medium),
        ("Greenshot"@, "Greenshot.exe"@, GpuCaptureType::Gdi, ThreatLevel::Low),
        ("Lightshot"@, "lightshot.exe"@, GpuCaptureType::Gdi, ThreatLevel::Low),
        ("Snipping Tool"@, "SnippingTool.exe"@, GpuCaptureType::Gdi, ThreatLevel::Low),
        ("Windows Game Bar"@, "GameBar.exe"@, GpuCaptureType::Dxgi, ThreatLevel::High),
        ("NVIDIA ShadowPlay"@, "NVIDIA Share.exe"@, GpuCaptureType::Dxgi, ThreatLevel::High),
        ("AMD ReLive"@, "AMDExternalEvents.exe"@, GpuCaptureType::Dxgi, ThreatLevel::High),
    ]
}

/// `apps` lists, in order, the applications of the table.
pub open spec fn is_known_gpu_apps(apps: Seq<ScreenshotApp>) -> bool {
    let t = known_gpu_apps_table();
    &&& apps.len() == t.len()
    &&& forall|i: int| 0 <= i < t.len() ==> {
        &&& (#[trigger] apps[i]).name@ == t[i].0
        &&& apps[i].process_name@ == t[i].1
        &&& apps[i].capture_type == t[i].2
        &&& apps[i].threat_level == t[i].3
    }
}

fn gpu_app(name: &str, process_name: &str, capture_type: GpuCaptureType, threat_level: ThreatLevel) -> (r: ScreenshotApp)
    ensures
        r.name@ == name@,
        r.process_name@ == process_name@,
        r.capture_type == capture_type,
        r.threat_level == threat_level,
{
    ScreenshotApp { name: name.to_owned(), process_name: process_name.to_owned(), capture_type, threat_level }
}

/// The known screenshot and recording applications.
pub fn get_known_screenshot_apps() -> (r: Vec<ScreenshotApp>)
    ensures
        is_known_gpu_apps(r@),
{
    let r = vec![
        gpu_app("OBS Studio", "obs64.exe", GpuCaptureType::Dxgi, ThreatLevel::High),
        gpu_app("OBS Studio (32-bit)", "obs32.exe", GpuCaptureType::Dxgi, ThreatLevel::High),
        gpu_app("XSplit", "XSplit.Core.exe", GpuCaptureType::Dxgi, ThreatLevel::High),
        gpu_app("Bandicam", "bdcam.exe", GpuCaptureType::Dxgi, ThreatLevel::High),
        gpu_app("Fraps", "fraps.exe", GpuCaptureType::Dxgi, ThreatLevel::Medium),
        gpu_app("ShareX", "ShareX.exe", GpuCaptureType::Gdi, ThreatLevel::Medium),
        gpu_app("Greenshot", "Greenshot.exe", GpuCaptureType::Gdi, ThreatLevel::Low),
        gpu_app("Lightshot", "lightshot.exe", GpuCaptureType::Gdi, ThreatLevel::Low),
        gpu_app("Snipping Tool", "SnippingTool.exe", GpuCaptureType::Gdi, ThreatLevel::Low),
        gpu_app("Windows Game Bar", "GameBar.exe", GpuCaptureType::Dxgi, ThreatLevel::High),
        gpu_app("NVIDIA ShadowPlay", "NVIDIA Share.exe", GpuCaptureType::Dxgi, ThreatLevel::High),
        gpu_app("AMD ReLive", "AMDExternalEvents.exe", GpuCaptureType::Dxgi, ThreatLevel::High),
    ];
    proof {
        let t = known_gpu_apps_table();
        assert forall|i: int| 0 <= i < t.len() implies {
            &&& (#[trigger] r@[i]).name@ == t[i].0
            &&& r@[i].process_name@ == t[i].1
            &&& r@[i].capture_type == t[i].2
            &&& r@[i].threat_level == t[i].3
        } by {
            assert(0 <= i < 12);
        }
    }
    r
}

/// The first index `i` at which `names[i]` occurs within `name`.
pub open spec fn first_within(name: Seq<char>, names: Seq<Seq<char>>) -> Option<int>
    decreases names.len(),
{
    if names.len() == 0 {
        None
    } else if contains_text(name, names[0]) {
        Some(0int)
    } else {
        match first_within(name, names.drop_first()) {
            Some(i) => Some(i + 1),
            None => None,
        }
    }
}

proof fn lemma_first_within_bounds(name: Seq<char>, names: Seq<Seq<char>>)
    ensures
        first_within(name, names) matches Some(i) ==> 0 <= i < names.len(),
    decreases names.len(),
{
    if names.len() > 0 {
        lemma_first_within_bounds(name, names.drop_first());
    }
}

proof fn lemma_first_within_at(name: Seq<char>, names: Seq<Seq<char>>, i: int)
    requires
        0 <= i <= names.len(),
        forall|j: int| 0 <= j < i ==> !contains_text(name, #[trigger] names[j]),
    ensures
        i < names.len() && contains_text(name, names[i]) ==> first_within(name, names) == Some(i),
        i == names.len() ==> first_within(name, names) is None,
    decreases i,
{
    if i > 0 {
        let rest = names.drop_first();
        assert forall|j: int| 0 <= j < i - 1 implies !contains_text(name, #[trigger] rest[j]) by {
            assert(rest[j] == names[j + 1]);
        }
        lemma_first_within_at(name, rest, i - 1);
        assert(!contains_text(name, names[0]));
        if i < names.len() {
            assert(rest[i - 1] == names[i]);
        }
    }
}

/// The first index `i` at which `names[i]` occurs within `name`, for names
/// already in lowercase.
pub fn first_app_within(name: &str, names: &Vec<String>) -> (r: Option<usize>)
    ensures
        r == (match first_within(name@, names@.map_values(|s: String| s@)) {
            Some(i) => Some(i as usize),
            None => None::<usize>,
        }),
        r matches Some(i) ==> i < names@.len(),
{
    let ghost all = names@.map_values(|s: String| s@);
    let n = names.len();
    for i in 0..n
        invariant
            n == names@.len(),
            all == names@.map_values(|s: String| s@),
            forall|j: int| 0 <= j < i ==> !contains_text(name@, #[trigger] all[j]),
    {
        if contains_str(name, names[i].as_str()) {
            proof {
                assert(all[i as int] == names@[i as int]@);
                lemma_first_within_at(name@, all, i as int);
            }
            return Some(i);
        }
        proof {
            assert(all[i as int] == names@[i as int]@);
        }
    }
    proof {
        lemma_first_within_at(name@, all, n as int);
    }
    None
}

/// The process names of `apps`, in lowercase.
pub open spec fn lowered_process_names(apps: Seq<ScreenshotApp>) -> Seq<Seq<char>> {
    apps.map_values(|a: ScreenshotApp| lowercase(a.process_name@))
}

/// The process names of the known applications, in lowercase.
pub open spec fn lowered_table_names() -> Seq<Seq<char>> {
    known_gpu_apps_table().map_values(|e: (Seq<char>, Seq<char>, GpuCaptureType, ThreatLevel)| lowercase(e.1))
}

/// The index of the known application that a process named `name` is
/// taken for: the first whose process name occurs, ignoring case, in `name`.
pub open spec fn known_app_index(name: Seq<char>) -> Option<int> {
    first_within(lowercase(name), lowered_table_names())
}

/// `lowercase` lowers `s` as `to_lowercase` is stated to lower ASCII text.
pub open spec fn lowered_as_ascii(s: Seq<char>) -> bool {
    lowercase(s) == ascii_lowered(s)
}

proof fn lemma_first_within_found(name: Seq<char>, names: Seq<Seq<char>>)
    ensures
        first_within(name, names) matches Some(i) ==> 0 <= i < names.len() && contains_text(name, names[i]),
    decreases names.len(),
{
    if names.len() > 0 && !contains_text(name, names[0]) {
        lemma_first_within_found(name, names.drop_first());
        if let Some(i) = first_within(name, names.drop_first()) {
            assert(names.drop_first()[i] == names[i + 1]);
        }
    }
}

proof fn lemma_first_within_some(name: Seq<char>, names: Seq<Seq<char>>, i: int)
    requires
        0 <= i < names.len(),
        contains_text(name, names[i]),
    ensures
        first_within(name, names) is Some,
    decreases i,
{
    if i > 0 && !contains_text(name, names[0]) {
        assert(names.drop_first()[i - 1] == names[i]);
        lemma_first_within_some(name, names.drop_first(), i - 1);
    }
}

/// A process taken for a known application is still taken for one when
/// its name stands within a longer name (ASCII names, lowered as
/// `to_lowercase` lowers ASCII text).
pub proof fn lemma_known_app_within_longer_name(before: Seq<char>, name: Seq<char>, after: Seq<char>)
    requires
        is_ascii_text(before),
        is_ascii_text(name),
        is_ascii_text(after),
        lowered_as_ascii(name),
        lowered_as_ascii(before + name + after),
    ensures
        known_app_index(name) is Some ==> known_app_index(before + name + after) is Some,
{
    let low = lowercase(name);
    let big = lowercase(before + name + after);
    assert(big =~= ascii_lowered(before) + low + ascii_lowered(after));
    if let Some(i) = known_app_index(name) {
        lemma_first_within_bounds(low, lowered_table_names());
        lemma_first_within_found(low, lowered_table_names());
        let needle = lowered_table_names()[i];
        let k = choose|k: int| occurs_at(low, needle, k);
        let off = before.len() + k;
        assert(big.subrange(off, off + needle.len()) =~= low.subrange(k, k + needle.len()));
        assert(occurs_at(big, needle, off));
        lemma_first_within_some(big, lowered_table_names(), i);
    }
}

/// Writing an ASCII process name in capitals does not change which known
/// application it is taken for (names lowered as `to_lowercase` lowers
/// ASCII text).
pub proof fn lemma_known_app_ignores_case(name: Seq<char>)
    requires
        is_ascii_text(name),
        lowered_as_ascii(name),
        lowered_as_ascii(ascii_uppered(name)),
    ensures
        known_app_index(ascii_uppered(name)) == known_app_index(name),
{
    assert forall|i: int| 0 <= i < name.len() implies #[trigger] ascii_lower_char(ascii_upper_char(name[i])) == ascii_lower_char(name[i]) by {
        let c = name[i];
        let x = c as u32;
        if 97 <= x && x <= 122 {
            let u = (x - 32) as char;
            assert(u as u32 == x - 32);
            vstd::utf8::char_u32_cast(c, x);
            assert(((u as u32) + 32) == x);
            assert(((u as u32) + 32) as char == x as char);
        }
    }
    assert(ascii_lowered(ascii_uppered(name)) =~= ascii_lowered(name));
}

/// Tracks which GPU protection methods are active.
pub struct GpuProtectionManager {
    config: GpuProtectionConfig,
    active_methods: Vec<GpuProtectionMethod>,
}

/// What the manager holds: its configuration and the active methods.
pub struct GpuProtectionManagerView {
    pub config: GpuProtectionConfig,
    pub active_methods: Seq<GpuProtectionMethod>,
}

/// The methods that `config` chooses, in the order DXGI, Direct3D, WGC, overlay.
pub open spec fn chosen_methods(config: GpuProtectionConfig) -> Seq<GpuProtectionMethod> {
    (if config.enable_dxgi_hook { seq![GpuProtectionMethod::DxgiPresentHook] } else { Seq::empty() })
        + (if config.enable_d3d_hook { seq![GpuProtectionMethod::D3dPresentHook] } else { Seq::empty() })
        + (if config.enable_wgc_protection { seq![GpuProtectionMethod::WgcProtection] } else { Seq::empty() })
        + (if config.enable_overlay { seq![GpuProtectionMethod::OverlayProtection] } else { Seq::empty() })
}

/// Enabling adds at most one method of each kind, and after disabling,
/// enabling leaves exactly the methods the configuration chooses.
pub proof fn lemma_chosen_methods(config: GpuProtectionConfig)
    ensures
        chosen_methods(config).len() <= 4,
        chosen_methods(config).no_duplicates(),
        Seq::<GpuProtectionMethod>::empty() + chosen_methods(config) == chosen_methods(config),
{
    let c = chosen_methods(config);
    assert(Seq::<GpuProtectionMethod>::empty() + c =~= c);
    assert forall|a: int, b: int| 0 <= a < c.len() && 0 <= b < c.len() && a != b implies c[a] != c[b] by {
        let d = if config.enable_dxgi_hook { seq![GpuProtectionMethod::DxgiPresentHook] } else { Seq::<GpuProtectionMethod>::empty() };
        let e = if config.enable_d3d_hook { seq![GpuProtectionMethod::D3dPresentHook] } else { Seq::<GpuProtectionMethod>::empty() };
        let w = if config.enable_wgc_protection { seq![GpuProtectionMethod::WgcProtection] } else { Seq::<GpuProtectionMethod>::empty() };
        let o = if config.enable_overlay { seq![GpuProtectionMethod::OverlayProtection] } else { Seq::<GpuProtectionMethod>::empty() };
        assert(c == d + e + w + o);
    }
}

impl View for GpuProtectionManager {
    type V = GpuProtectionManagerView;

    closed spec fn view(&self) -> GpuProtectionManagerView {
        GpuProtectionManagerView { config: self.config, active_methods: self.active_methods@ }
    }
}

fn push_if(v: &mut Vec<GpuProtectionMethod>, on: bool, m: GpuProtectionMethod)
    ensures
        final(v)@ == old(v)@ + (if on { seq![m] } else { Seq::empty() }),
{
    if on {
        v.push(m);
    } else {
        assert(v@ =~= v@ + Seq::<GpuProtectionMethod>::empty());
    }
}

impl GpuProtectionManager {
    /// A manager for `config` with no active method.
    pub fn new(config: GpuProtectionConfig) -> (r: Self)
        ensures
            r@.config == config,
            r@.active_methods == Seq::<GpuProtectionMethod>::empty(),
    {
        GpuProtectionManager { config, active_methods: Vec::new() }
    }

    /// When the configuration is enabled, appends the methods it chooses to
    /// the active ones; otherwise does nothing.
    pub fn enable(&mut self)
        ensures
            final(self)@.config == old(self)@.config,
            final(self)@.active_methods == if old(self)@.config.enabled {
                old(self)@.active_methods + chosen_methods(old(self)@.config)
            } else {
                old(self)@.active_methods
            },
    {
        if !self.config.enabled {
            return;
        }
        let ghost start = self.active_methods@;
        let c = self.config;
        push_if(&mut self.active_methods, c.enable_dxgi_hook, GpuProtectionMethod::DxgiPresentHook);
        push_if(&mut self.active_methods, c.enable_d3d_hook, GpuProtectionMethod::D3dPresentHook);
        push_if(&mut self.active_methods, c.enable_wgc_protection, GpuProtectionMethod::WgcProtection);
        push_if(&mut self.active_methods, c.enable_overlay, GpuProtectionMethod::OverlayProtection);
        proof {
            assert(self.active_methods@ =~= start + chosen_methods(c));
        }
    }

    /// Deactivates every method.
    pub fn disable(&mut self)
        ensures
            final(self)@.config == old(self)@.config,
            final(self)@.active_methods == Seq::<GpuProtectionMethod>::empty(),
    {
        self.active_methods.clear();
    }

    /// The active methods.
    pub fn get_active_methods(&self) -> (r: &[GpuProtectionMethod])
        ensures
            r@ == self@.active_methods,
    {
        self.active_methods.as_slice()
    }

    /// The configuration's switch and level, the active methods, and no
    /// protected window counted.
    pub fn get_status(&self) -> (r: GpuProtectionStatus)
        ensures
            r.enabled == self@.config.enabled,
            r.level == self@.config.level,
            r.active_methods@ == self@.active_methods,
            r.protected_windows == 0,
    {
        let mut methods: Vec<GpuProtectionMethod> = Vec::new();
        let n = self.active_methods.len();
        for i in 0..n
            invariant
                n == self.active_methods@.len(),
                methods@ == self.active_methods@.take(i as int),
        {
            methods.push(self.active_methods[i]);
            proof {
                assert(self.active_methods@.take(i + 1) == self.active_methods@.take(i as int).push(self.active_methods@[i as int]));
            }
        }
        proof {
            assert(self.active_methods@.take(n as int) == self.active_methods@);
        }
        GpuProtectionStatus {
            enabled: self.config.enabled,
            level: self.config.level,
            active_methods: methods,
            protected_windows: 0,
        }
    }

    fn find_known_app(process_name: &str) -> (r: (Vec<ScreenshotApp>, Option<usize>))
        ensures
            is_known_gpu_apps(r.0@),
            r.1 == (match known_app_index(process_name@) {
                Some(i) => Some(i as usize),
                None => None::<usize>,
            }),
            r.1 matches Some(i) ==> i < r.0@.len(),
            known_app_index(process_name@) matches Some(k) ==> 0 <= k < known_gpu_apps_table().len(),
    {
        proof {
            lemma_first_within_bounds(lowercase(process_name@), lowered_table_names());
        }
        let apps = get_known_screenshot_apps();
        let name = to_lowercase(process_name);
        let mut lowered: Vec<String> = Vec::new();
        let n = apps.len();
        for i in 0..n
            invariant
                n == apps@.len(),
                lowered@.map_values(|s: String| s@) == lowered_process_names(apps@).take(i as int),
        {
            let ghost before = lowered@;
            lowered.push(to_lowercase(apps[i].process_name.as_str()));
            proof {
                assert(lowered@.map_values(|s: String| s@) =~= before.map_values(|s: String| s@).push(lowercase(apps@[i as int].process_name@)));
                assert(lowered_process_names(apps@).take(i + 1) =~= lowered_process_names(apps@).take(i as int).push(lowercase(apps@[i as int].process_name@)));
            }
        }
        proof {
            assert(lowered_process_names(apps@).take(n as int) =~= lowered_process_names(apps@));
            let t = known_gpu_apps_table();
            assert(lowered_process_names(apps@) =~= lowered_table_names()) by {
                assert forall|i: int| 0 <= i < t.len() implies lowered_process_names(apps@)[i] == lowered_table_names()[i] by {
                    assert(apps@[i].process_name@ == t[i].1);
                }
            }
        }
        let found = first_app_within(name.as_str(), &lowered);
        (apps, found)
    }

    /// The capture technology of the first known application whose process
    /// name occurs, ignoring case, within `process_name`.
    pub fn detect_capture_type(&self, process_name: &str) -> (r: Option<GpuCaptureType>)
        ensures
            r == (match known_app_index(process_name@) {
                Some(i) => Some(known_gpu_apps_table()[i].2),
                None => None::<GpuCaptureType>,
            }),
    {
        let (apps, found) = Self::find_known_app(process_name);
        match found {
            Some(i) => {
                proof {
                    assert(apps@[i as int].capture_type == known_gpu_apps_table()[i as int].2);
                }
                Some(apps[i].capture_type)
            },
            None => None,
        }
    }

    /// The first known application whose process name occurs, ignoring
    /// case, within `process_name`.
    pub fn is_screenshot_app(&self, process_name: &str) -> (r: Option<ScreenshotApp>)
        ensures
            match known_app_index(process_name@) {
                Some(i) => r matches Some(a) && a.name@ == known_gpu_apps_table()[i].0
                    && a.process_name@ == known_gpu_apps_table()[i].1
                    && a.capture_type == known_gpu_apps_table()[i].2
                    && a.threat_level == known_gpu_apps_table()[i].3,
                None => r is None,
            },
    {
        let (mut apps, found) = Self::find_known_app(process_name);
        match found {
            Some(i) => {
                proof {
                    assert(apps@[i as int].name@ == known_gpu_apps_table()[i as int].0);
                }
                let app = apps.remove(i);
                Some(app)
            },
            None => None,
        }
    }
}

} // verus!
