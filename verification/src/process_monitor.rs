//! Recognizing running screenshot and recording software among the
//! processes of the machine.

use vstd::prelude::*;

use crate::screenshot_apps::{
    app_is_entry, is_known_apps, known_apps_table, known_screenshot_apps, process_names_of, ScreenshotApp, ThreatLevel,
};
use crate::text::{lowercase, str_eq, to_lowercase};

verus! {

broadcast use vstd::seq_lib::group_seq_properties, vstd::seq::group_seq_axioms;

/// A running process recognized as a known capturing application.
#[derive(Debug, Clone)]
pub struct DetectedApp {
    pub display_name: String,
    pub process_name: String,
    pub pid: u32,
    pub threat_level: String,
    pub threat_label: String,
    pub description: String,
    pub detected_at: String,
}

/// The capturing applications found by one scan.
#[derive(Debug, Clone)]
pub struct ThreatSnapshot {
    pub detected: Vec<DetectedApp>,
    pub total_count: usize,
    pub high_count: usize,
    pub medium_count: usize,
    pub scan_time_ms: u64,
}

/// The `Duration` that `Duration::from_secs` gives for `secs`.
pub uninterp spec fn duration_of_secs(secs: u64) -> std::time::Duration;

/// `Duration::from_secs`. Claimed: the result is `duration_of_secs` of
/// the argument, a function of it alone.
#[verifier::external_body]
fn duration_from_secs(secs: u64) -> (r: std::time::Duration)
    ensures
        r == duration_of_secs(secs),
{
    std::time::Duration::from_secs(secs)
}

/// What a process monitor holds: the applications it looks for and the
/// interval between background scans.
pub struct ProcessMonitorView {
    pub known_apps: Seq<ScreenshotApp>,
    pub scan_interval: std::time::Duration,
}

/// Scans processes for known screenshot and recording software.
pub struct ProcessMonitor {
    known_apps: Vec<ScreenshotApp>,
    scan_interval: std::time::Duration,
}

/// Some name of `names` is `lower`.
pub open spec fn names_match(names: Seq<Seq<char>>, lower: Seq<char>) -> bool {
    exists|k: int| 0 <= k < names.len() && names[k] == lower
}

/// The indices, among the first `n` applications, of those that have a
/// process name `lower` (`known[a]` being application `a`'s names).
pub open spec fn app_hits(lower: Seq<char>, known: Seq<Seq<Seq<char>>>, n: int) -> Seq<int>
    decreases n,
{
    if n <= 0 {
        Seq::empty()
    } else {
        app_hits(lower, known, n - 1) + (if names_match(known[n - 1], lower) {
            seq![n - 1]
        } else {
            Seq::empty()
        })
    }
}

/// The detections among the first `m` processes, as pairs of a process
/// index and an application index: by process, then by application.
pub open spec fn all_hits(procs: Seq<Seq<char>>, known: Seq<Seq<Seq<char>>>, m: int) -> Seq<(int, int)>
    decreases m,
{
    if m <= 0 {
        Seq::empty()
    } else {
        all_hits(procs, known, m - 1) + app_hits(procs[m - 1], known, known.len() as int).map_values(
            |a: int| (m - 1, a),
        )
    }
}

/// `d` reports the process `process` as the application `app`, at `at`.
pub open spec fn is_detection(d: DetectedApp, app: ScreenshotApp, process: (String, u32), at: Seq<char>) -> bool {
    &&& d.display_name@ == app.display_name@
    &&& d.process_name@ == process.0@
    &&& d.pid == process.1
    &&& d.threat_level@ == app.threat_level.key_spec()
    &&& d.threat_label@ == app.threat_level.label_spec()
    &&& d.description@ == app.description@
    &&& d.detected_at@ == at
}

/// The detections `ds` are, in order, those named by `hits`.
pub open spec fn detections_are(
    ds: Seq<DetectedApp>,
    hits: Seq<(int, int)>,
    apps: Seq<ScreenshotApp>,
    processes: Seq<(String, u32)>,
    at: Seq<char>,
) -> bool {
    &&& ds.len() == hits.len()
    &&& forall|k: int| 0 <= k < hits.len() ==> is_detection(#[trigger] ds[k], apps[hits[k].1], processes[hits[k].0], at)
}

/// How many of `ds` have the threat level `key`.
pub open spec fn count_level(ds: Seq<DetectedApp>, key: Seq<char>) -> nat
    decreases ds.len(),
{
    if ds.len() == 0 {
        0
    } else {
        count_level(ds.drop_last(), key) + (if ds.last().threat_level@ == key { 1nat } else { 0nat })
    }
}

/// The process names of each application in `apps`, in lowercase.
pub open spec fn lowered_known(apps: Seq<ScreenshotApp>) -> Seq<Seq<Seq<char>>> {
    apps.map_values(|a: ScreenshotApp| process_names_of(a).map_values(|n: Seq<char>| lowercase(n)))
}

/// The names of `processes`, in lowercase.
pub open spec fn lowered_processes(processes: Seq<(String, u32)>) -> Seq<Seq<char>> {
    processes.map_values(|p: (String, u32)| lowercase(p.0@))
}

fn any_name_is(names: &Vec<String>, lower: &String) -> (r: bool)
    ensures
        r == names_match(names@.map_values(|s: String| s@), lower@),
{
    let ghost all = names@.map_values(|s: String| s@);
    let n = names.len();
    for k in 0..n
        invariant
            n == names@.len(),
            all == names@.map_values(|s: String| s@),
            forall|j: int| 0 <= j < k ==> all[j] != lower@,
    {
        if str_eq(names[k].as_str(), lower.as_str()) {
            assert(all[k as int] == lower@);
            return true;
        }
    }
    false
}

fn detection(app: &ScreenshotApp, process: &(String, u32), at: &String) -> (d: DetectedApp)
    ensures
        is_detection(d, *app, *process, at@),
{
    DetectedApp {
        display_name: app.display_name.to_owned(),
        process_name: process.0.clone(),
        pid: process.1,
        threat_level: app.threat_level.as_str().to_owned(),
        threat_label: app.threat_level.label().to_owned(),
        description: app.description.to_owned(),
        detected_at: at.clone(),
    }
}

/// The detections for processes whose lowercase names are `lowered_procs`,
/// given each application's lowercase process names `lowered_apps`: for
/// each process, in order, each application (in order) that has a process
/// name equal to the process's name.
pub fn detect_lowered(
    apps: &Vec<ScreenshotApp>,
    processes: &Vec<(String, u32)>,
    lowered_procs: &Vec<String>,
    lowered_apps: &Vec<Vec<String>>,
    detected_at: &String,
) -> (r: Vec<DetectedApp>)
    requires
        lowered_procs@.len() == processes@.len(),
        lowered_apps@.len() == apps@.len(),
    ensures
        detections_are(
            r@,
            all_hits(
                lowered_procs@.map_values(|s: String| s@),
                lowered_apps@.map_values(|v: Vec<String>| v@.map_values(|s: String| s@)),
                processes@.len() as int,
            ),
            apps@,
            processes@,
            detected_at@,
        ),
{
    let ghost procs = lowered_procs@.map_values(|s: String| s@);
    let ghost known = lowered_apps@.map_values(|v: Vec<String>| v@.map_values(|s: String| s@));
    let mut out: Vec<DetectedApp> = Vec::new();
    let m = processes.len();
    let na = apps.len();
    for i in 0..m
        invariant
            m == processes@.len(),
            m == lowered_procs@.len(),
            na == apps@.len(),
            na == lowered_apps@.len(),
            procs == lowered_procs@.map_values(|s: String| s@),
            known == lowered_apps@.map_values(|v: Vec<String>| v@.map_values(|s: String| s@)),
            detections_are(out@, all_hits(procs, known, i as int), apps@, processes@, detected_at@),
    {
        let ghost base_hits = all_hits(procs, known, i as int);
        for a in 0..na
            invariant
                m == processes@.len(),
                m == lowered_procs@.len(),
                i < m,
                na == apps@.len(),
                na == lowered_apps@.len(),
                procs == lowered_procs@.map_values(|s: String| s@),
                known == lowered_apps@.map_values(|v: Vec<String>| v@.map_values(|s: String| s@)),
                base_hits == all_hits(procs, known, i as int),
                detections_are(
                    out@,
                    base_hits + app_hits(procs[i as int], known, a as int).map_values(|x: int| (i as int, x)),
                    apps@,
                    processes@,
                    detected_at@,
                ),
        {
            let ghost before = out@;
            let ghost hits_before = base_hits + app_hits(procs[i as int], known, a as int).map_values(|x: int| (i as int, x));
            let hit = any_name_is(&lowered_apps[a], &lowered_procs[i]);
            proof {
                assert(known[a as int] == lowered_apps@[a as int]@.map_values(|s: String| s@));
                assert(procs[i as int] == lowered_procs@[i as int]@);
            }
            if hit {
                out.push(detection(&apps[a], &processes[i], detected_at));
                proof {
                    let nh = base_hits + app_hits(procs[i as int], known, a + 1).map_values(|x: int| (i as int, x));
                    assert(app_hits(procs[i as int], known, a + 1) == app_hits(procs[i as int], known, a as int) + seq![a as int]);
                    assert(nh =~= hits_before.push((i as int, a as int)));
                    assert forall|k: int| 0 <= k < nh.len() implies is_detection(#[trigger] out@[k], apps@[nh[k].1], processes@[nh[k].0], detected_at@) by {
                        if k < hits_before.len() {
                            assert(out@[k] == before[k]);
                        }
                    }
                }
            } else {
                proof {
                    assert(app_hits(procs[i as int], known, a + 1) =~= app_hits(procs[i as int], known, a as int));
                }
            }
        }
        proof {
            assert(all_hits(procs, known, i + 1) == base_hits + app_hits(procs[i as int], known, known.len() as int).map_values(|x: int| (i as int, x)));
        }
    }
    out
}

fn lowered_names_of(app: &ScreenshotApp) -> (r: Vec<String>)
    ensures
        r@.map_values(|s: String| s@) == process_names_of(*app).map_values(|n: Seq<char>| lowercase(n)),
{
    let mut out: Vec<String> = Vec::new();
    let n = app.process_names.len();
    for k in 0..n
        invariant
            n == app.process_names@.len(),
            out@.map_values(|s: String| s@) == process_names_of(*app).map_values(|n: Seq<char>| lowercase(n)).take(k as int),
    {
        let ghost before = out@;
        out.push(to_lowercase(app.process_names[k]));
        proof {
            assert(out@.map_values(|s: String| s@) =~= before.map_values(|s: String| s@).push(lowercase(app.process_names@[k as int]@)));
            assert(process_names_of(*app).map_values(|n: Seq<char>| lowercase(n)).take(k + 1) =~= process_names_of(*app).map_values(|n: Seq<char>| lowercase(n)).take(k as int).push(lowercase(app.process_names@[k as int]@)));
        }
    }
    proof {
        assert(process_names_of(*app).map_values(|n: Seq<char>| lowercase(n)).take(n as int) =~= process_names_of(*app).map_values(|n: Seq<char>| lowercase(n)));
    }
    out
}

/// The two detections are of the same application in the same process,
/// at the same threat level (when they were made does not count).
pub open spec fn same_detection(a: DetectedApp, b: DetectedApp) -> bool {
    &&& a.display_name@ == b.display_name@
    &&& a.process_name@ == b.process_name@
    &&& a.pid == b.pid
    &&& a.threat_level@ == b.threat_level@
}

/// The two lists hold the same detections, in the same order.
pub open spec fn same_threats(a: Seq<DetectedApp>, b: Seq<DetectedApp>) -> bool {
    &&& a.len() == b.len()
    &&& forall|i: int| 0 <= i < a.len() ==> #[trigger] same_detection(a[i], b[i])
}

impl ThreatSnapshot {
    /// Whether this scan found other threats than `previous`: a
    /// different list of detections, compared by application, process,
    /// process id and threat level.
    pub fn threats_changed(&self, previous: &ThreatSnapshot) -> (r: bool)
        ensures
            r == !same_threats(self.detected@, previous.detected@),
    {
        let n = self.detected.len();
        if n != previous.detected.len() {
            return true;
        }
        for i in 0..n
            invariant
                n == self.detected@.len(),
                n == previous.detected@.len(),
                forall|j: int| 0 <= j < i ==> #[trigger] same_detection(self.detected@[j], previous.detected@[j]),
        {
            let a = &self.detected[i];
            let b = &previous.detected[i];
            let same = str_eq(a.display_name.as_str(), b.display_name.as_str())
                && str_eq(a.process_name.as_str(), b.process_name.as_str())
                && a.pid == b.pid
                && str_eq(a.threat_level.as_str(), b.threat_level.as_str());
            if !same {
                assert(!same_detection(self.detected@[i as int], previous.detected@[i as int]));
                return true;
            }
        }
        false
    }

    /// A snapshot of `detected`, with their number, how many are `"high"`
    /// and how many `"medium"`, and the time the scan took.
    pub fn from_detected(detected: Vec<DetectedApp>, scan_time_ms: u64) -> (r: ThreatSnapshot)
        ensures
            r.detected@ == detected@,
            r.total_count == detected@.len(),
            r.high_count == count_level(detected@, "high"@),
            r.medium_count == count_level(detected@, "medium"@),
            r.scan_time_ms == scan_time_ms,
    {
        let mut high: usize = 0;
        let mut medium: usize = 0;
        let n = detected.len();
        for i in 0..n
            invariant
                n == detected@.len(),
                high == count_level(detected@.take(i as int), "high"@),
                medium == count_level(detected@.take(i as int), "medium"@),
                high <= i,
                medium <= i,
        {
            proof {
                let t = detected@.take(i + 1);
                assert(t.drop_last() == detected@.take(i as int));
                assert(t.last() == detected@[i as int]);
            }
            if str_eq(detected[i].threat_level.as_str(), "high") {
                high = high + 1;
            }
            if str_eq(detected[i].threat_level.as_str(), "medium") {
                medium = medium + 1;
            }
        }
        proof {
            assert(detected@.take(n as int) == detected@);
        }
        ThreatSnapshot { detected, total_count: n, high_count: high, medium_count: medium, scan_time_ms }
    }
}

proof fn lemma_app_hits_bounds(lower: Seq<char>, known: Seq<Seq<Seq<char>>>, n: int)
    ensures
        forall|k: int| 0 <= k < app_hits(lower, known, n).len() ==> 0 <= #[trigger] app_hits(lower, known, n)[k] < n,
    decreases n,
{
    if n > 0 {
        lemma_app_hits_bounds(lower, known, n - 1);
        let a = app_hits(lower, known, n - 1);
        let b: Seq<int> = if names_match(known[n - 1], lower) { seq![n - 1] } else { Seq::empty() };
        assert forall|k: int| 0 <= k < (a + b).len() implies 0 <= #[trigger] (a + b)[k] < n by {
            if k < a.len() {
                assert((a + b)[k] == a[k]);
            } else {
                assert((a + b)[k] == b[k - a.len()]);
            }
        }
    }
}

proof fn lemma_all_hits_bounds(procs: Seq<Seq<char>>, known: Seq<Seq<Seq<char>>>, m: int)
    ensures
        forall|k: int| 0 <= k < all_hits(procs, known, m).len() ==> {
            &&& 0 <= (#[trigger] all_hits(procs, known, m)[k]).0 < m
            &&& 0 <= all_hits(procs, known, m)[k].1 < known.len()
        },
    decreases m,
{
    if m > 0 {
        lemma_all_hits_bounds(procs, known, m - 1);
        lemma_app_hits_bounds(procs[m - 1], known, known.len() as int);
        let a = all_hits(procs, known, m - 1);
        let h = app_hits(procs[m - 1], known, known.len() as int);
        let b = h.map_values(|x: int| (m - 1, x));
        assert forall|k: int| 0 <= k < (a + b).len() implies {
            &&& 0 <= (#[trigger] (a + b)[k]).0 < m
            &&& 0 <= (a + b)[k].1 < known.len()
        } by {
            if k < a.len() {
                assert((a + b)[k] == a[k]);
            } else {
                assert((a + b)[k] == b[k - a.len()]);
                assert(b[k - a.len()] == (m - 1, h[k - a.len()]));
            }
        }
    }
}

proof fn lemma_count_level_same(d1: Seq<DetectedApp>, d2: Seq<DetectedApp>, key: Seq<char>)
    requires
        d1.len() == d2.len(),
        forall|k: int| 0 <= k < d1.len() ==> (#[trigger] d1[k]).threat_level@ == d2[k].threat_level@,
    ensures
        count_level(d1, key) == count_level(d2, key),
    decreases d1.len(),
{
    if d1.len() > 0 {
        lemma_count_level_same(d1.drop_last(), d2.drop_last(), key);
        assert(d1.last().threat_level@ == d2[d1.len() - 1].threat_level@);
    }
}

/// Two scans of the same processes with the built-in list of applications
/// (whichever copy of it each monitor holds) report the same detections,
/// field by field but for the time of detection, and so the same counts.
pub proof fn lemma_scan_with_known_table(
    apps1: Seq<ScreenshotApp>,
    apps2: Seq<ScreenshotApp>,
    processes: Seq<(String, u32)>,
    at1: Seq<char>,
    at2: Seq<char>,
    d1: Seq<DetectedApp>,
    d2: Seq<DetectedApp>,
)
    requires
        is_known_apps(apps1),
        is_known_apps(apps2),
        detections_are(d1, all_hits(lowered_processes(processes), lowered_known(apps1), processes.len() as int), apps1, processes, at1),
        detections_are(d2, all_hits(lowered_processes(processes), lowered_known(apps2), processes.len() as int), apps2, processes, at2),
    ensures
        d1.len() == d2.len(),
        forall|k: int| 0 <= k < d1.len() ==> {
            &&& (#[trigger] d1[k]).display_name@ == d2[k].display_name@
            &&& d1[k].process_name@ == d2[k].process_name@
            &&& d1[k].pid == d2[k].pid
            &&& d1[k].threat_level@ == d2[k].threat_level@
            &&& d1[k].threat_label@ == d2[k].threat_label@
            &&& d1[k].description@ == d2[k].description@
        },
        count_level(d1, "high"@) == count_level(d2, "high"@),
        count_level(d1, "medium"@) == count_level(d2, "medium"@),
{
    let t = known_apps_table();
    assert(lowered_known(apps1) =~= lowered_known(apps2)) by {
        assert forall|i: int| 0 <= i < apps1.len() implies lowered_known(apps1)[i] == lowered_known(apps2)[i] by {
            assert(app_is_entry(apps1[i], t[i]));
            assert(app_is_entry(apps2[i], t[i]));
        }
    }
    let hits = all_hits(lowered_processes(processes), lowered_known(apps1), processes.len() as int);
    lemma_all_hits_bounds(lowered_processes(processes), lowered_known(apps1), processes.len() as int);
    assert forall|k: int| 0 <= k < d1.len() implies {
        &&& (#[trigger] d1[k]).display_name@ == d2[k].display_name@
        &&& d1[k].process_name@ == d2[k].process_name@
        &&& d1[k].pid == d2[k].pid
        &&& d1[k].threat_level@ == d2[k].threat_level@
        &&& d1[k].threat_label@ == d2[k].threat_label@
        &&& d1[k].description@ == d2[k].description@
    } by {
        let j = hits[k].1;
        assert(is_detection(d1[k], apps1[j], processes[hits[k].0], at1));
        assert(is_detection(d2[k], apps2[j], processes[hits[k].0], at2));
        assert(app_is_entry(apps1[j], t[j]));
        assert(app_is_entry(apps2[j], t[j]));
    }
    lemma_count_level_same(d1, d2, "high"@);
    lemma_count_level_same(d1, d2, "medium"@);
}

proof fn lemma_app_hits_contains(lower: Seq<char>, known: Seq<Seq<Seq<char>>>, n: int, i: int)
    requires
        n <= known.len(),
    ensures
        app_hits(lower, known, n).contains(i) <==> (0 <= i < n && names_match(known[i], lower)),
    decreases n,
{
    if n > 0 {
        lemma_app_hits_contains(lower, known, n - 1, i);
        let a = app_hits(lower, known, n - 1);
        let b: Seq<int> = if names_match(known[n - 1], lower) { seq![n - 1] } else { Seq::empty() };
        if (a + b).contains(i) {
            let t = choose|t: int| 0 <= t < (a + b).len() && (a + b)[t] == i;
            if t < a.len() {
                assert(a[t] == i);
            } else {
                assert(b[t - a.len()] == i);
            }
        }
        if 0 <= i < n - 1 && names_match(known[i], lower) {
            let t = choose|t: int| 0 <= t < a.len() && a[t] == i;
            assert((a + b)[t] == i);
        }
        if i == n - 1 && names_match(known[i], lower) {
            assert((a + b)[a.len() as int] == i);
        }
    } else {
        assert(app_hits(lower, known, n) =~= Seq::<int>::empty());
    }
}

proof fn lemma_all_hits_contains(procs: Seq<Seq<char>>, known: Seq<Seq<Seq<char>>>, m: int, j: int, i: int)
    requires
        0 <= j < m,
    ensures
        all_hits(procs, known, m).contains((j, i)) <==> app_hits(procs[j], known, known.len() as int).contains(i),
    decreases m,
{
    let a = all_hits(procs, known, m - 1);
    let h = app_hits(procs[m - 1], known, known.len() as int);
    let b = h.map_values(|x: int| (m - 1, x));
    lemma_all_hits_bounds(procs, known, m - 1);
    if j < m - 1 {
        lemma_all_hits_contains(procs, known, m - 1, j, i);
        if (a + b).contains((j, i)) {
            let t = choose|t: int| 0 <= t < (a + b).len() && (a + b)[t] == (j, i);
            if t < a.len() {
                assert(a[t] == (j, i));
            } else {
                assert(b[t - a.len()] == (j, i));
            }
        }
        if a.contains((j, i)) {
            let t = choose|t: int| 0 <= t < a.len() && a[t] == (j, i);
            assert((a + b)[t] == (j, i));
        }
    } else {
        if (a + b).contains((j, i)) {
            let t = choose|t: int| 0 <= t < (a + b).len() && (a + b)[t] == (j, i);
            if t < a.len() {
                assert(a[t] == (j, i));
                assert(a[t].0 < m - 1);
            } else {
                assert(b[t - a.len()] == (j, i));
                assert(h[t - a.len()] == i);
            }
        }
        if h.contains(i) {
            let t = choose|t: int| 0 <= t < h.len() && h[t] == i;
            assert((a + b)[a.len() + t] == b[t]);
        }
    }
}

/// A scan reports application `i` for process `j` exactly when one of the
/// application's process names, any of them and not only the first, equals
/// the process's name once both are in lowercase; and then the scan's
/// detections include that application for that process.
pub proof fn lemma_scan_matches_every_name(
    apps: Seq<ScreenshotApp>,
    processes: Seq<(String, u32)>,
    at: Seq<char>,
    ds: Seq<DetectedApp>,
    j: int,
    i: int,
)
    requires
        0 <= j < processes.len(),
        0 <= i < apps.len(),
        detections_are(ds, all_hits(lowered_processes(processes), lowered_known(apps), processes.len() as int), apps, processes, at),
    ensures
        all_hits(lowered_processes(processes), lowered_known(apps), processes.len() as int).contains((j, i))
            <==> exists|k: int| 0 <= k < apps[i].process_names@.len()
                && #[trigger] lowercase(apps[i].process_names@[k]@) == lowercase(processes[j].0@),
        (exists|k: int| 0 <= k < apps[i].process_names@.len()
            && #[trigger] lowercase(apps[i].process_names@[k]@) == lowercase(processes[j].0@))
            ==> exists|t: int| 0 <= t < ds.len() && is_detection(#[trigger] ds[t], apps[i], processes[j], at),
{
    let procs = lowered_processes(processes);
    let known = lowered_known(apps);
    let hits = all_hits(procs, known, processes.len() as int);
    lemma_all_hits_contains(procs, known, processes.len() as int, j, i);
    lemma_app_hits_contains(procs[j], known, known.len() as int, i);
    let names = known[i];
    assert(names == process_names_of(apps[i]).map_values(|n: Seq<char>| lowercase(n)));
    if names_match(names, procs[j]) {
        let k = choose|k: int| 0 <= k < names.len() && names[k] == procs[j];
        assert(names[k] == lowercase(apps[i].process_names@[k]@));
    }
    if exists|k: int| 0 <= k < apps[i].process_names@.len()
        && #[trigger] lowercase(apps[i].process_names@[k]@) == lowercase(processes[j].0@) {
        let k = choose|k: int| 0 <= k < apps[i].process_names@.len()
            && #[trigger] lowercase(apps[i].process_names@[k]@) == lowercase(processes[j].0@);
        assert(names[k] == procs[j]);
        assert(hits.contains((j, i)));
        let t = choose|t: int| 0 <= t < hits.len() && hits[t] == (j, i);
        assert(is_detection(ds[t], apps[hits[t].1], processes[hits[t].0], at));
    }
}

/// No scan counts more high or medium detections than it made.
pub proof fn lemma_counts_bounded(ds: Seq<DetectedApp>)
    ensures
        count_level(ds, "high"@) + count_level(ds, "medium"@) <= ds.len(),
    decreases ds.len(),
{
    reveal_strlit("high");
    reveal_strlit("medium");
    assert("high"@.len() != "medium"@.len());
    if ds.len() > 0 {
        lemma_counts_bounded(ds.drop_last());
    }
}

impl View for ProcessMonitor {
    type V = ProcessMonitorView;

    closed spec fn view(&self) -> ProcessMonitorView {
        ProcessMonitorView { known_apps: self.known_apps@, scan_interval: self.scan_interval }
    }
}

impl ProcessMonitor {
    /// A monitor for the built-in list of applications, scanning every second.
    pub fn new() -> (r: Self)
        ensures
            is_known_apps(r@.known_apps),
            r@.scan_interval == duration_of_secs(1),
    {
        ProcessMonitor { known_apps: known_screenshot_apps(), scan_interval: duration_from_secs(1) }
    }

    /// The same monitor, scanning every `interval`.
    pub fn with_interval(self, interval: std::time::Duration) -> (r: Self)
        ensures
            r@.known_apps == self@.known_apps,
            r@.scan_interval == interval,
    {
        let mut m = self;
        m.scan_interval = interval;
        m
    }

    /// The interval between background scans.
    pub fn scan_interval(&self) -> (r: std::time::Duration)
        ensures
            r == self@.scan_interval,
    {
        self.scan_interval
    }

    /// The applications this monitor looks for.
    pub fn known_apps(&self) -> (r: &[ScreenshotApp])
        ensures
            r@ == self@.known_apps,
    {
        self.known_apps.as_slice()
    }

    /// One scan of `processes` (name and process id of each running
    /// process): every process whose name equals, ignoring case, a process
    /// name of a known application is reported as that application, at
    /// `detected_at`; the snapshot counts them and records `scan_time_ms`.
    pub fn scan(&self, processes: &Vec<(String, u32)>, detected_at: &String, scan_time_ms: u64) -> (r: ThreatSnapshot)
        ensures
            detections_are(
                r.detected@,
                all_hits(lowered_processes(processes@), lowered_known(self@.known_apps), processes@.len() as int),
                self@.known_apps,
                processes@,
                detected_at@,
            ),
            r.total_count == r.detected@.len(),
            r.high_count == count_level(r.detected@, "high"@),
            r.medium_count == count_level(r.detected@, "medium"@),
            r.scan_time_ms == scan_time_ms,
    {
        let mut lowered_procs: Vec<String> = Vec::new();
        let m = processes.len();
        for i in 0..m
            invariant
                m == processes@.len(),
                lowered_procs@.map_values(|s: String| s@) == lowered_processes(processes@).take(i as int),
        {
            let ghost before = lowered_procs@;
            lowered_procs.push(to_lowercase(processes[i].0.as_str()));
            proof {
                assert(lowered_procs@.map_values(|s: String| s@) =~= before.map_values(|s: String| s@).push(lowercase(processes@[i as int].0@)));
                assert(lowered_processes(processes@).take(i + 1) =~= lowered_processes(processes@).take(i as int).push(lowercase(processes@[i as int].0@)));
            }
        }
        let mut lowered_apps: Vec<Vec<String>> = Vec::new();
        let na = self.known_apps.len();
        for a in 0..na
            invariant
                na == self.known_apps@.len(),
                lowered_apps@.map_values(|v: Vec<String>| v@.map_values(|s: String| s@)) == lowered_known(self.known_apps@).take(a as int),
        {
            let ghost before = lowered_apps@;
            let names = lowered_names_of(&self.known_apps[a]);
            lowered_apps.push(names);
            proof {
                assert(lowered_apps@.map_values(|v: Vec<String>| v@.map_values(|s: String| s@)) =~= before.map_values(|v: Vec<String>| v@.map_values(|s: String| s@)).push(lowered_known(self.known_apps@)[a as int]));
                assert(lowered_known(self.known_apps@).take(a + 1) =~= lowered_known(self.known_apps@).take(a as int).push(lowered_known(self.known_apps@)[a as int]));
            }
        }
        proof {
            assert(lowered_processes(processes@).take(m as int) =~= lowered_processes(processes@));
            assert(lowered_known(self.known_apps@).take(na as int) =~= lowered_known(self.known_apps@));
        }
        let detected = detect_lowered(&self.known_apps, processes, &lowered_procs, &lowered_apps, detected_at);
        ThreatSnapshot::from_detected(detected, scan_time_ms)
    }
}

} // verus!
