//! The monitor: the rule engine, the change history and the set of windows
//! it has protected, updated scan by scan.

use vstd::prelude::*;

use std::collections::HashSet;

use crate::affinity::AffinityOrchestrator;
use crate::config::AppConfig;
use crate::models::WindowInfo;
use crate::policy::{PolicyStore, Timestamp};
use crate::rules::{planned_changes, record_applied, ApplyResult, PlannedChange, RuleEngine};

verus! {

broadcast use vstd::seq_lib::group_seq_properties, vstd::seq::group_seq_axioms, vstd::std_specs::hash::group_hash_axioms, vstd::set::group_set_axioms, vstd::set_lib::group_set_lib_default;

#[verifier::external_type_specification]
#[verifier::external_body]
pub struct ExInstant(std::time::Instant);

/// `Instant::now`. Nothing is claimed of the result: it is the time.
#[verifier::external_body]
fn instant_now() -> std::time::Instant {
    std::time::Instant::now()
}

/// `Instant::elapsed` in whole seconds (`Duration::as_secs`). Nothing is
/// claimed of the result: it depends on the time.
#[verifier::external_body]
fn whole_secs_since(t: &std::time::Instant) -> u64 {
    t.elapsed().as_secs()
}

/// The monitor's state as reported.
#[derive(Debug, Clone, Copy)]
pub struct DaemonStatus {
    pub running: bool,
    pub protected_count: usize,
    pub rule_count: usize,
    pub last_scan_secs_ago: u64,
}

/// The monitor.
pub struct Daemon {
    config: AppConfig,
    rule_engine: RuleEngine,
    orchestrator: AffinityOrchestrator,
    store: PolicyStore,
    protected_windows: HashSet<isize>,
    last_scan: Option<std::time::Instant>,
    running: bool,
}

/// The protected windows after `results`, in order: a window a rule
/// protected is added, one it unprotected is taken out.
pub open spec fn after_results(protected: Set<isize>, results: Seq<ApplyResult>) -> Set<isize>
    decreases results.len(),
{
    if results.len() == 0 {
        protected
    } else {
        let before = after_results(protected, results.drop_last());
        let r = results.last();
        if r.protect {
            before.insert(r.hwnd)
        } else {
            before.remove(r.hwnd)
        }
    }
}

/// A whole scan keeps only open windows counted as protected: from a
/// finite protected set, after the results of the scan and the drop of the
/// windows no longer open, every window counted is open, and there are no
/// more of them than open windows.
pub proof fn lemma_scan_keeps_open_only(protected: Set<isize>, results: Seq<ApplyResult>, open: Seq<isize>)
    requires
        protected.finite(),
    ensures
        after_results(protected, results).finite(),
        forall|h: isize| #[trigger] after_results(protected, results).intersect(open.to_set()).contains(h) ==> open.contains(h),
        after_results(protected, results).intersect(open.to_set()).len() <= open.len(),
    decreases results.len(),
{
    if results.len() > 0 {
        lemma_scan_keeps_open_only(protected, results.drop_last(), open);
    }
    let after = after_results(protected, results);
    let kept = after.intersect(open.to_set());
    assert(kept.subset_of(open.to_set()));
    vstd::set_lib::lemma_len_subset(kept, open.to_set());
    open.lemma_cardinality_of_set();
}

/// The windows that `results` protected.
pub open spec fn protected_by(results: Seq<ApplyResult>) -> Set<isize> {
    Set::new(|h: isize| exists|i: int| 0 <= i < results.len() && #[trigger] results[i].hwnd == h && results[i].protect)
}

/// The windows that `results` unprotected.
pub open spec fn unprotected_by(results: Seq<ApplyResult>) -> Set<isize> {
    Set::new(|h: isize| exists|i: int| 0 <= i < results.len() && #[trigger] results[i].hwnd == h && !results[i].protect)
}

/// No window has two results.
pub open spec fn distinct_windows(results: Seq<ApplyResult>) -> bool {
    forall|i: int, j: int| 0 <= i < j < results.len() ==> #[trigger] results[i].hwnd != #[trigger] results[j].hwnd
}

/// The set formula of a scan: when no window has two results, the
/// protected windows after the results are those protected before or by a
/// result, less those a result unprotected; after the windows no longer
/// open are dropped, there are no more of them than open windows.
pub proof fn lemma_scan_set_formula(protected: Set<isize>, results: Seq<ApplyResult>, open: Seq<isize>)
    requires
        protected.finite(),
        distinct_windows(results),
    ensures
        after_results(protected, results) == protected.union(protected_by(results)).difference(unprotected_by(results)),
        after_results(protected, results).intersect(open.to_set())
            == protected.union(protected_by(results)).difference(unprotected_by(results)).intersect(open.to_set()),
        after_results(protected, results).intersect(open.to_set()).len() <= open.len(),
    decreases results.len(),
{
    if results.len() > 0 {
        let rest = results.drop_last();
        let r = results.last();
        let n = results.len() - 1;
        assert(distinct_windows(rest)) by {
            assert forall|i: int, j: int| 0 <= i < j < rest.len() implies #[trigger] rest[i].hwnd != #[trigger] rest[j].hwnd by {
                assert(rest[i] == results[i] && rest[j] == results[j]);
            }
        }
        lemma_scan_set_formula(protected, rest, open);
        let before = protected.union(protected_by(rest)).difference(unprotected_by(rest));
        let after = protected.union(protected_by(results)).difference(unprotected_by(results));
        assert forall|h: isize| #[trigger] after.contains(h) == (if r.protect { before.insert(r.hwnd) } else { before.remove(r.hwnd) }).contains(h) by {
            if h == r.hwnd {
                assert(results[n].hwnd == h);
                assert forall|i: int| 0 <= i < rest.len() implies #[trigger] rest[i].hwnd != h by {
                    assert(rest[i] == results[i]);
                    assert(results[i].hwnd != results[n].hwnd);
                }
                if r.protect {
                    assert(protected_by(results).contains(h));
                    if unprotected_by(results).contains(h) {
                        let i = choose|i: int| 0 <= i < results.len() && #[trigger] results[i].hwnd == h && !results[i].protect;
                        if i < n {
                            assert(rest[i] == results[i]);
                        }
                    }
                } else {
                    assert(unprotected_by(results).contains(h));
                }
            } else {
                if protected_by(results).contains(h) {
                    let i = choose|i: int| 0 <= i < results.len() && #[trigger] results[i].hwnd == h && results[i].protect;
                    assert(i < n);
                    assert(rest[i] == results[i]);
                    assert(protected_by(rest).contains(h));
                }
                if protected_by(rest).contains(h) {
                    let i = choose|i: int| 0 <= i < rest.len() && #[trigger] rest[i].hwnd == h && rest[i].protect;
                    assert(rest[i] == results[i]);
                    assert(protected_by(results).contains(h));
                }
                if unprotected_by(results).contains(h) {
                    let i = choose|i: int| 0 <= i < results.len() && #[trigger] results[i].hwnd == h && !results[i].protect;
                    assert(i < n);
                    assert(rest[i] == results[i]);
                    assert(unprotected_by(rest).contains(h));
                }
                if unprotected_by(rest).contains(h) {
                    let i = choose|i: int| 0 <= i < rest.len() && #[trigger] rest[i].hwnd == h && !rest[i].protect;
                    assert(rest[i] == results[i]);
                    assert(unprotected_by(results).contains(h));
                }
            }
        }
        assert(after =~= (if r.protect { before.insert(r.hwnd) } else { before.remove(r.hwnd) }));
    } else {
        assert(protected_by(results) =~= Set::<isize>::empty());
        assert(unprotected_by(results) =~= Set::<isize>::empty());
        assert(protected.union(Set::<isize>::empty()).difference(Set::<isize>::empty()) =~= protected);
    }
    lemma_scan_keeps_open_only(protected, results, open);
}

impl Daemon {
    /// The monitor's own consistency: its engine is consistent and it
    /// counts finitely many protected windows.
    pub closed spec fn wf(&self) -> bool {
        &&& self.rule_engine.wf()
        &&& self.protected_windows@.finite()
    }

    /// The settings.
    pub closed spec fn config_spec(&self) -> AppConfig {
        self.config
    }

    /// The rule engine.
    pub closed spec fn engine(&self) -> RuleEngine {
        self.rule_engine
    }

    /// The change history.
    pub closed spec fn policy(&self) -> PolicyStore {
        self.store
    }

    /// The windows the monitor has protected.
    pub closed spec fn protected(&self) -> Set<isize> {
        self.protected_windows@
    }

    /// Whether the monitor is running.
    pub closed spec fn is_running(&self) -> bool {
        self.running
    }

    /// Whether a scan has completed.
    pub closed spec fn has_scanned(&self) -> bool {
        self.last_scan is Some
    }

    /// A monitor with `config`, the rule engine and the change history that
    /// were loaded for it; stopped, with no protected window and no scan.
    pub fn new(config: AppConfig, rule_engine: RuleEngine, store: PolicyStore) -> (r: Daemon)
        requires
            rule_engine.wf(),
        ensures
            r.wf(),
            r.config_spec() == config,
            r.engine() == rule_engine,
            r.policy() == store,
            r.protected() == Set::<isize>::empty(),
            !r.is_running(),
            !r.has_scanned(),
    {
        let orchestrator = AffinityOrchestrator::new(config.helper_path.as_str());
        let d = Daemon {
            config,
            rule_engine,
            orchestrator,
            store,
            protected_windows: HashSet::new(),
            last_scan: None,
            running: false,
        };
        d
    }

    /// The changes the rules ask for on `windows`.
    pub fn plan_tick(&self, windows: &Vec<WindowInfo>) -> (r: Vec<PlannedChange>)
        requires
            self.wf(),
        ensures
            r@ == planned_changes(self.engine().order(), windows@),
    {
        self.rule_engine.plan_changes(windows)
    }

    /// The part of a scan after the planned changes were tried (`applied[i]`
    /// for `planned[i]`): records the changes made, at `timestamp`, and
    /// returns their results. The protected windows are not yet updated.
    pub fn record_tick(&mut self, planned: &Vec<PlannedChange>, applied: &Vec<bool>, timestamp: Timestamp) -> (r: Vec<ApplyResult>)
        requires
            old(self).wf(),
            planned@.len() == applied@.len(),
        ensures
            final(self).wf(),
            final(self).protected() == old(self).protected(),
            final(self).engine() == old(self).engine(),
            final(self).config_spec() == old(self).config_spec(),
            final(self).is_running() == old(self).is_running(),
            final(self).has_scanned() == old(self).has_scanned(),
            ({
                let made = crate::rules::made_changes(planned@, applied@);
                &&& r@ == made.map_values(|p: PlannedChange| crate::rules::result_of(p))
                &&& final(self).policy()@.path == old(self).policy()@.path
                &&& final(self).policy()@.changes.len() == old(self).policy()@.changes.len() + made.len()
                &&& final(self).policy()@.changes.take(old(self).policy()@.changes.len() as int) == old(self).policy()@.changes
                &&& forall|k: int| 0 <= k < made.len() ==> crate::rules::records_change(
                    #[trigger] final(self).policy()@.changes[old(self).policy()@.changes.len() + k],
                    made[k],
                    timestamp,
                )
            }),
    {
        record_applied(&mut self.store, planned, applied, timestamp)
    }

    /// Updates the protected windows from the results of a scan, in order:
    /// a window a rule protected is added, one it unprotected is taken out.
    pub fn track_results(&mut self, results: &Vec<ApplyResult>)
        requires
            old(self).wf(),
        ensures
            final(self).wf(),
            final(self).protected() == after_results(old(self).protected(), results@),
            final(self).engine() == old(self).engine(),
            final(self).policy() == old(self).policy(),
            final(self).config_spec() == old(self).config_spec(),
            final(self).is_running() == old(self).is_running(),
            final(self).has_scanned() == old(self).has_scanned(),
    {
        let ghost start = self.protected_windows@;
        let ghost engine = self.rule_engine;
        let ghost config = self.config;
        let ghost running = self.running;
        let ghost scanned = self.last_scan is Some;
        let ghost store_now = self.store;
        let n = results.len();
        for i in 0..n
            invariant
                n == results@.len(),
                self.protected_windows@.finite(),
                self.protected_windows@ == after_results(start, results@.take(i as int)),
                self.rule_engine == engine,
                engine.wf(),
                self.config == config,
                self.running == running,
                (self.last_scan is Some) == scanned,
                self.store == store_now,
        {
            proof {
                let t = results@.take(i + 1);
                assert(t.drop_last() == results@.take(i as int));
                assert(t.last() == results@[i as int]);
            }
            let x = results[i].hwnd;
            if results[i].protect {
                self.protected_windows.insert(x);
            } else {
                self.protected_windows.remove(&x);
            }
        }
        proof {
            assert(results@.take(n as int) == results@);
        }
    }

    /// The end of a scan: forgets protected windows that are no longer open
    /// (`current_hwnds` are the open ones) and notes the time of the scan.
    pub fn finish_tick(&mut self, current_hwnds: &Vec<isize>)
        requires
            old(self).wf(),
        ensures
            final(self).wf(),
            final(self).protected() == old(self).protected().intersect(current_hwnds@.to_set()),
            final(self).has_scanned(),
            final(self).engine() == old(self).engine(),
            final(self).policy() == old(self).policy(),
            final(self).config_spec() == old(self).config_spec(),
            final(self).is_running() == old(self).is_running(),
    {
        let mut kept: HashSet<isize> = HashSet::new();
        let n = current_hwnds.len();
        for i in 0..n
            invariant
                n == current_hwnds@.len(),
                kept@.finite(),
                kept@ == self.protected_windows@.intersect(current_hwnds@.take(i as int).to_set()),
        {
            let h = current_hwnds[i];
            proof {
                assert(current_hwnds@.take(i + 1) == current_hwnds@.take(i as int).push(h));
                assert(current_hwnds@.take(i + 1).to_set() =~= current_hwnds@.take(i as int).to_set().insert(h)) by {
                    current_hwnds@.take(i as int).lemma_push_to_set_commute(h);
                }
            }
            if self.protected_windows.contains(&h) {
                kept.insert(h);
            }
            proof {
                assert(kept@ =~= self.protected_windows@.intersect(current_hwnds@.take(i + 1).to_set()));
            }
        }
        proof {
            assert(current_hwnds@.take(n as int) == current_hwnds@);
        }
        self.protected_windows = kept;
        self.last_scan = Some(instant_now());
    }

    /// Marks the monitor as running.
    pub fn start(&mut self)
        ensures
            final(self).is_running(),
            final(self).wf() == old(self).wf(),
            final(self).engine() == old(self).engine(),
            final(self).policy() == old(self).policy(),
            final(self).protected() == old(self).protected(),
            final(self).config_spec() == old(self).config_spec(),
            final(self).has_scanned() == old(self).has_scanned(),
    {
        self.running = true;
    }

    /// Marks the monitor as stopped.
    pub fn stop(&mut self)
        ensures
            !final(self).is_running(),
            final(self).wf() == old(self).wf(),
            final(self).engine() == old(self).engine(),
            final(self).policy() == old(self).policy(),
            final(self).protected() == old(self).protected(),
            final(self).config_spec() == old(self).config_spec(),
            final(self).has_scanned() == old(self).has_scanned(),
    {
        self.running = false;
    }

    /// Whether it runs, how many windows it protects, how many rules it
    /// has, and how long ago the last scan was (0 before any scan).
    pub fn status(&self) -> (r: DaemonStatus)
        requires
            self.wf(),
        ensures
            r.running == self.is_running(),
            r.protected_count == self.protected().len(),
            r.rule_count == self.engine()@.rules.len(),
            !self.has_scanned() ==> r.last_scan_secs_ago == 0,
    {
        let last = match &self.last_scan {
            Some(t) => whole_secs_since(t),
            None => 0,
        };
        DaemonStatus {
            running: self.running,
            protected_count: self.protected_windows.len(),
            rule_count: self.rule_engine.rules().len(),
            last_scan_secs_ago: last,
        }
    }

    /// The settings.
    pub fn config(&self) -> (r: &AppConfig)
        ensures
            *r == self.config_spec(),
    {
        &self.config
    }

    /// The rule engine.
    pub fn rule_engine(&self) -> (r: &RuleEngine)
        ensures
            *r == self.engine(),
    {
        &self.rule_engine
    }

    /// The rule engine, to be changed.
    pub fn rule_engine_mut(&mut self) -> (r: &mut RuleEngine)
        ensures
            *r == old(self).engine(),
            final(self).engine() == *final(r),
            final(self).policy() == old(self).policy(),
            final(self).protected() == old(self).protected(),
            final(self).config_spec() == old(self).config_spec(),
            final(self).is_running() == old(self).is_running(),
            final(self).has_scanned() == old(self).has_scanned(),
            old(self).wf() ==> (final(self).wf() <==> final(r).wf()),
    {
        &mut self.rule_engine
    }

    /// The change history.
    pub fn store(&self) -> (r: &PolicyStore)
        ensures
            *r == self.policy(),
    {
        &self.store
    }

    /// The orchestrator that sets windows' affinity.
    pub fn orchestrator(&self) -> (r: &AffinityOrchestrator) {
        &self.orchestrator
    }
}

} // verus!
