//! The rule engine: rules that say, by a pattern over the process name,
//! whether a window is to be protected; rule groups; and the choice of
//! the rule that decides a window.

use vstd::prelude::*;

use crate::models::WindowInfo;
use crate::pattern::{check_pattern, pattern_is_match, regex_accepts, regex_is_match};
use crate::policy::{PolicyChange, PolicyStore, Timestamp};
use crate::sorting::{
    insert_back, lemma_stable_sort_filter, lemma_stable_sort_map, stable_sort, total_preorder,
};
use crate::text::str_eq;

verus! {

broadcast use vstd::seq_lib::group_seq_properties, vstd::seq::group_seq_axioms;

/// A named group of rules.
#[derive(Debug, Clone)]
pub struct RuleGroup {
    pub id: String,
    pub name: String,
    pub description: String,
    pub enabled: bool,
}

/// A rule: windows of processes whose name matches `process_pattern` are
/// to be protected (`protect`) or left visible. Lower `priority` values
/// are tried first.
#[derive(Debug, Clone)]
pub struct Rule {
    pub id: String,
    pub group_id: String,
    pub name: String,
    pub process_pattern: String,
    pub protect: bool,
    pub enabled: bool,
    pub priority: u32,
}

/// A window whose protection a rule changed.
#[derive(Debug, Clone)]
pub struct ApplyResult {
    pub hwnd: isize,
    pub pid: u32,
    pub title: String,
    pub rule_id: String,
    pub protect: bool,
}

/// A change of protection that a rule asks for on a window.
#[derive(Debug, Clone)]
pub struct PlannedChange {
    pub hwnd: isize,
    pub pid: u32,
    pub title: String,
    pub executable_path: String,
    pub previous_protected: bool,
    pub protect: bool,
    pub rule_id: String,
}

/// Why the rule engine refused a request.
#[derive(Debug)]
pub enum RuleError {
    /// A group with this id exists already.
    DuplicateGroup(String),
    /// The rule's pattern is not a regular expression that can be compiled.
    InvalidPattern(regex::Error),
}

/// What the rules file held, as read.
pub enum RulesFile {
    /// There is no rules file.
    Missing,
    /// The file holds groups and rules.
    Full { groups: Vec<RuleGroup>, rules: Vec<Rule> },
    /// The file holds only a list of rules (the older layout).
    RulesOnly(Vec<Rule>),
    /// The file holds neither layout.
    Unrecognized,
}

/// What a rule engine holds: where it is kept, its groups and its rules,
/// both in the order they were added.
pub struct RuleEngineView {
    pub path: Seq<char>,
    pub groups: Seq<RuleGroup>,
    pub rules: Seq<Rule>,
}

/// Rules and groups, with the rules kept also in the order in which they
/// are tried.
pub struct RuleEngine {
    path: String,
    groups: Vec<RuleGroup>,
    rules: Vec<Rule>,
    compiled: Vec<Rule>,
}

/// Rules are tried by ascending priority.
pub open spec fn priority_le() -> spec_fn(Rule, Rule) -> bool {
    |a: Rule, b: Rule| a.priority <= b.priority
}

/// The order in which rules are tried: by priority, and among rules of
/// equal priority in the order they were added.
pub open spec fn match_order(rules: Seq<Rule>) -> Seq<Rule> {
    stable_sort(rules, priority_le())
}

/// `rule` is enabled and its pattern matches the process name `name`.
pub open spec fn rule_applies(rule: Rule, name: Seq<char>) -> bool {
    rule.enabled && regex_is_match(rule.process_pattern@, name)
}

/// The first rule of `order` that applies to the process name `name`.
pub open spec fn first_applicable(order: Seq<Rule>, name: Seq<char>) -> Option<Rule>
    decreases order.len(),
{
    if order.len() == 0 {
        None
    } else if rule_applies(order[0], name) {
        Some(order[0])
    } else {
        first_applicable(order.drop_first(), name)
    }
}

/// Every rule's pattern compiles.
pub open spec fn patterns_valid(rules: Seq<Rule>) -> bool {
    forall|i: int| 0 <= i < rules.len() ==> regex_accepts(#[trigger] rules[i].process_pattern@)
}

/// Keeps the rules whose id (or, with `by_group`, group id) is not `key`.
pub open spec fn rule_kept(by_group: bool, key: Seq<char>) -> spec_fn(Rule) -> bool {
    |r: Rule| if by_group { r.group_id@ != key } else { r.id@ != key }
}

/// Sets `enabled` on the rules whose id (or, with `by_group`, group id) is `key`.
pub open spec fn rule_enabled_set(by_group: bool, key: Seq<char>, enabled: bool) -> spec_fn(Rule) -> Rule {
    |r: Rule|
        if (if by_group { r.group_id@ == key } else { r.id@ == key }) {
            Rule { enabled: enabled, ..r }
        } else {
            r
        }
}

/// Keeps the groups whose id is not `key`.
pub open spec fn group_kept(key: Seq<char>) -> spec_fn(RuleGroup) -> bool {
    |g: RuleGroup| g.id@ != key
}

/// Sets `enabled` on the groups whose id is `key`.
pub open spec fn group_enabled_set(key: Seq<char>, enabled: bool) -> spec_fn(RuleGroup) -> RuleGroup {
    |g: RuleGroup| if g.id@ == key { RuleGroup { enabled: enabled, ..g } } else { g }
}

/// Some rule has the id (or, with `by_group`, the group id) `key`.
pub open spec fn has_rule_key(rules: Seq<Rule>, by_group: bool, key: Seq<char>) -> bool {
    exists|i: int| 0 <= i < rules.len() && !#[trigger] rule_kept(by_group, key)(rules[i])
}

/// Some group has the id `key`.
pub open spec fn has_group(groups: Seq<RuleGroup>, key: Seq<char>) -> bool {
    exists|i: int| 0 <= i < groups.len() && #[trigger] groups[i].id@ == key
}

/// The change that `rule` asks for on the window `w`.
pub open spec fn plan_of(w: WindowInfo, rule: Rule) -> PlannedChange {
    PlannedChange {
        hwnd: w.hwnd,
        pid: w.pid,
        title: w.title,
        executable_path: w.executable_path,
        previous_protected: w.is_protected,
        protect: rule.protect,
        rule_id: rule.id,
    }
}

/// What the rules ask for on one window: nothing unless a rule applies
/// to its process name and wants the other protection state.
pub open spec fn planned_for(order: Seq<Rule>, w: WindowInfo) -> Seq<PlannedChange> {
    match first_applicable(order, w.app_name@) {
        Some(rule) => if w.is_protected != rule.protect {
            seq![plan_of(w, rule)]
        } else {
            Seq::empty()
        },
        None => Seq::empty(),
    }
}

/// What the rules ask for on the windows, in window order.
pub open spec fn planned_changes(order: Seq<Rule>, windows: Seq<WindowInfo>) -> Seq<PlannedChange>
    decreases windows.len(),
{
    if windows.len() == 0 {
        Seq::empty()
    } else {
        planned_changes(order, windows.drop_last()) + planned_for(order, windows.last())
    }
}

/// `c` records, at `timestamp`, the change `p` made by its rule.
pub open spec fn records_change(c: PolicyChange, p: PlannedChange, timestamp: Timestamp) -> bool {
    &&& c.timestamp == timestamp
    &&& c.hwnd == p.hwnd
    &&& c.pid == p.pid
    &&& c.title == p.title
    &&& c.executable_path == p.executable_path
    &&& c.previous_protected == p.previous_protected
    &&& c.current_protected == p.protect
    &&& c.actor@ == "rule:"@ + p.rule_id@
}

/// The result reported for the change `p` once it was made.
pub open spec fn result_of(p: PlannedChange) -> ApplyResult {
    ApplyResult { hwnd: p.hwnd, pid: p.pid, title: p.title, rule_id: p.rule_id, protect: p.protect }
}

/// The planned changes that were made (`applied[i]` for `planned[i]`).
pub open spec fn made_changes(planned: Seq<PlannedChange>, applied: Seq<bool>) -> Seq<PlannedChange>
    decreases planned.len(),
{
    if planned.len() == 0 || applied.len() == 0 {
        Seq::empty()
    } else if applied.last() {
        made_changes(planned.drop_last(), applied.drop_last()).push(planned.last())
    } else {
        made_changes(planned.drop_last(), applied.drop_last())
    }
}

/// The id of the group that rules without one belong to.
pub open spec fn default_group_id_spec() -> Seq<char> {
    "default"@
}

/// The id of the group that rules without one belong to: `"default"`.
pub fn default_group_id() -> (r: String)
    ensures
        r@ == default_group_id_spec(),
{
    "default".to_owned()
}

/// Priority order is a total preorder.
pub proof fn lemma_priority_total_preorder()
    ensures
        total_preorder(priority_le()),
{
}

proof fn lemma_patterns_valid_filter(rules: Seq<Rule>, p: spec_fn(Rule) -> bool)
    requires
        patterns_valid(rules),
    ensures
        patterns_valid(rules.filter(p)),
{
    let f = rules.filter(p);
    assert forall|i: int| 0 <= i < f.len() implies regex_accepts(#[trigger] f[i].process_pattern@) by {
        assert(f.contains(f[i]));
        rules.lemma_filter_contains_rev(p, f[i]);
    }
}

fn copy_rule(r: &Rule) -> (c: Rule)
    ensures
        c == *r,
{
    Rule {
        id: r.id.clone(),
        group_id: r.group_id.clone(),
        name: r.name.clone(),
        process_pattern: r.process_pattern.clone(),
        protect: r.protect,
        enabled: r.enabled,
        priority: r.priority,
    }
}

fn copy_group(g: &RuleGroup) -> (c: RuleGroup)
    ensures
        c == *g,
{
    RuleGroup { id: g.id.clone(), name: g.name.clone(), description: g.description.clone(), enabled: g.enabled }
}

fn copy_rules(v: &Vec<Rule>) -> (r: Vec<Rule>)
    ensures
        r@ == v@,
{
    let mut out: Vec<Rule> = Vec::new();
    let n = v.len();
    for i in 0..n
        invariant
            n == v@.len(),
            out@ == v@.take(i as int),
    {
        out.push(copy_rule(&v[i]));
        proof {
            assert(v@.take(i + 1) == v@.take(i as int).push(v@[i as int]));
        }
    }
    proof {
        assert(v@.take(n as int) == v@);
    }
    out
}

fn copy_groups(v: &Vec<RuleGroup>) -> (r: Vec<RuleGroup>)
    ensures
        r@ == v@,
{
    let mut out: Vec<RuleGroup> = Vec::new();
    let n = v.len();
    for i in 0..n
        invariant
            n == v@.len(),
            out@ == v@.take(i as int),
    {
        out.push(copy_group(&v[i]));
        proof {
            assert(v@.take(i + 1) == v@.take(i as int).push(v@[i as int]));
        }
    }
    proof {
        assert(v@.take(n as int) == v@);
    }
    out
}

fn retain_rules(v: &mut Vec<Rule>, key: &str, by_group: bool) -> (removed: bool)
    ensures
        final(v)@ == old(v)@.filter(rule_kept(by_group, key@)),
        removed == has_rule_key(old(v)@, by_group, key@),
{
    let ghost p = rule_kept(by_group, key@);
    let mut taken: Vec<Rule> = Vec::new();
    std::mem::swap(v, &mut taken);
    let ghost s = taken@;
    let mut removed = false;
    for r in it: taken.into_iter()
        invariant
            it.seq() == s,
            p == rule_kept(by_group, key@),
            v@ == s.take(it.index() as int).filter(p),
            removed == exists|k: int| 0 <= k < it.index() && !#[trigger] p(s[k]),
    {
        let ghost t = s.take(it.index() as int);
        proof {
            assert(s.take(it.index() + 1) == t.push(r));
            reveal(Seq::filter);
            assert(t.push(r).drop_last() == t);
        }
        let hit = if by_group {
            str_eq(r.group_id.as_str(), key)
        } else {
            str_eq(r.id.as_str(), key)
        };
        proof {
            assert(hit == !p(r));
            assert(s[it.index() as int] == r);
        }
        if hit {
            removed = true;
        } else {
            v.push(r);
        }
    }
    proof {
        assert(s.take(s.len() as int) == s);
    }
    removed
}

fn retain_groups(v: &mut Vec<RuleGroup>, key: &str) -> (removed: bool)
    ensures
        final(v)@ == old(v)@.filter(group_kept(key@)),
        removed == has_group(old(v)@, key@),
{
    let ghost p = group_kept(key@);
    let mut taken: Vec<RuleGroup> = Vec::new();
    std::mem::swap(v, &mut taken);
    let ghost s = taken@;
    let mut removed = false;
    for g in it: taken.into_iter()
        invariant
            it.seq() == s,
            p == group_kept(key@),
            v@ == s.take(it.index() as int).filter(p),
            removed == exists|k: int| 0 <= k < it.index() && #[trigger] s[k].id@ == key@,
    {
        let ghost t = s.take(it.index() as int);
        proof {
            assert(s.take(it.index() + 1) == t.push(g));
            reveal(Seq::filter);
            assert(t.push(g).drop_last() == t);
            assert(s[it.index() as int] == g);
        }
        if str_eq(g.id.as_str(), key) {
            removed = true;
        } else {
            v.push(g);
        }
    }
    proof {
        assert(s.take(s.len() as int) == s);
    }
    removed
}

fn set_rules_enabled(v: &mut Vec<Rule>, key: &str, by_group: bool, enabled: bool) -> (found: bool)
    ensures
        final(v)@ == old(v)@.map_values(rule_enabled_set(by_group, key@, enabled)),
        found == has_rule_key(old(v)@, by_group, key@),
{
    let ghost f = rule_enabled_set(by_group, key@, enabled);
    let ghost s = v@;
    let n = v.len();
    let mut found = false;
    for i in 0..n
        invariant
            n == s.len(),
            v@.len() == n,
            f == rule_enabled_set(by_group, key@, enabled),
            forall|k: int| 0 <= k < i ==> v@[k] == f(s[k]),
            forall|k: int| i <= k < n ==> v@[k] == s[k],
            found == exists|k: int| 0 <= k < i && !#[trigger] rule_kept(by_group, key@)(s[k]),
    {
        let hit = if by_group {
            str_eq(v[i].group_id.as_str(), key)
        } else {
            str_eq(v[i].id.as_str(), key)
        };
        proof {
            assert(v@[i as int] == s[i as int]);
            assert(hit == !rule_kept(by_group, key@)(s[i as int]));
        }
        if hit {
            v[i].enabled = enabled;
            found = true;
        }
        proof {
            assert(v@[i as int] == f(s[i as int]));
        }
    }
    proof {
        assert(v@ =~= s.map_values(f));
    }
    found
}

fn set_groups_enabled(v: &mut Vec<RuleGroup>, key: &str, enabled: bool) -> (found: bool)
    ensures
        final(v)@ == old(v)@.map_values(group_enabled_set(key@, enabled)),
        found == has_group(old(v)@, key@),
{
    let ghost f = group_enabled_set(key@, enabled);
    let ghost s = v@;
    let n = v.len();
    let mut found = false;
    for i in 0..n
        invariant
            n == s.len(),
            v@.len() == n,
            f == group_enabled_set(key@, enabled),
            forall|k: int| 0 <= k < i ==> v@[k] == f(s[k]),
            forall|k: int| i <= k < n ==> v@[k] == s[k],
            found == exists|k: int| 0 <= k < i && #[trigger] s[k].id@ == key@,
    {
        if str_eq(v[i].id.as_str(), key) {
            v[i].enabled = enabled;
            found = true;
        }
        proof {
            assert(v@[i as int] == f(s[i as int]));
        }
    }
    proof {
        assert(v@ =~= s.map_values(f));
    }
    found
}

/// Inserts `rule` into `order`, after every rule whose priority is not
/// above its own, walking from the back.
fn insert_by_priority(order: &mut Vec<Rule>, rule: Rule)
    ensures
        final(order)@ == insert_back(old(order)@, rule, priority_le()),
{
    let ghost le = priority_le();
    let ghost pre = order@;
    let prio = rule.priority;
    order.push(rule);
    let mut j: usize = order.len() - 1;
    assert(pre.take(j as int) == pre);
    assert(pre.subrange(j as int, j as int) =~= Seq::<Rule>::empty());
    while j > 0 && order[j - 1].priority > prio
        invariant
            le == priority_le(),
            order@.len() == pre.len() + 1,
            j <= pre.len(),
            prio == rule.priority,
            order@.take(j as int) == pre.take(j as int),
            order@[j as int] == rule,
            order@.subrange(j + 1, pre.len() as int + 1) == pre.subrange(j as int, pre.len() as int),
            insert_back(pre, rule, le) == insert_back(pre.take(j as int), rule, le) + pre.subrange(j as int, pre.len() as int),
        decreases j,
    {
        let ghost before = order@;
        proof {
            let pj = pre.take(j as int);
            assert(pj.drop_last() == pre.take(j - 1));
            assert(pj.last() == pre[j - 1]);
            assert(before[j - 1] == pre[j - 1]);
            assert(insert_back(pj, rule, le) == insert_back(pre.take(j - 1), rule, le).push(pre[j - 1]));
            assert(pre.subrange(j - 1, pre.len() as int) == seq![pre[j - 1]] + pre.subrange(j as int, pre.len() as int));
        }
        let mut moved = copy_rule(&order[j - 1]);
        order.set_and_swap(j, &mut moved);
        order.set(j - 1, moved);
        j = j - 1;
        proof {
            assert(order@.take(j as int) =~= pre.take(j as int));
            assert(order@.subrange(j + 1, pre.len() as int + 1) =~= pre.subrange(j as int, pre.len() as int));
        }
    }
    proof {
        let pj = pre.take(j as int);
        if j > 0 {
            assert(pj.last() == order@[j - 1]);
            assert(insert_back(pj, rule, le) == pj.push(rule));
        } else {
            assert(pj =~= Seq::<Rule>::empty());
            assert(insert_back(pj, rule, le) =~= seq![rule]);
        }
        assert(order@ =~= pj.push(rule) + pre.subrange(j as int, pre.len() as int));
    }
}

/// Checks every rule's pattern and puts the rules in the order in which
/// they are tried.
fn compile_rules(rules: &Vec<Rule>) -> (r: Result<Vec<Rule>, RuleError>)
    ensures
        r is Ok <==> patterns_valid(rules@),
        r matches Ok(order) ==> order@ == match_order(rules@),
        r matches Err(e) ==> e is InvalidPattern,
{
    let mut order: Vec<Rule> = Vec::new();
    let n = rules.len();
    for i in 0..n
        invariant
            n == rules@.len(),
            order@ == match_order(rules@.take(i as int)),
            patterns_valid(rules@.take(i as int)),
    {
        match check_pattern(rules[i].process_pattern.as_str()) {
            Ok(()) => {},
            Err(e) => {
                proof {
                    assert(!regex_accepts(rules@[i as int].process_pattern@));
                }
                return Err(RuleError::InvalidPattern(e));
            },
        }
        proof {
            let t = rules@.take(i + 1);
            assert(t.drop_last() == rules@.take(i as int));
            assert(t.last() == rules@[i as int]);
            assert(patterns_valid(t)) by {
                assert forall|k: int| 0 <= k < t.len() implies regex_accepts(#[trigger] t[k].process_pattern@) by {
                    if k < i {
                        assert(t[k] == rules@.take(i as int)[k]);
                    }
                }
            }
        }
        insert_by_priority(&mut order, copy_rule(&rules[i]));
    }
    proof {
        assert(rules@.take(n as int) == rules@);
    }
    Ok(order)
}

impl View for RuleEngine {
    type V = RuleEngineView;

    closed spec fn view(&self) -> RuleEngineView {
        RuleEngineView { path: self.path@, groups: self.groups@, rules: self.rules@ }
    }
}

impl RuleEngine {
    /// The engine's own consistency: its match order is the priority order
    /// of its rules, and every pattern compiles.
    pub closed spec fn wf(&self) -> bool {
        &&& self.compiled@ == match_order(self.rules@)
        &&& patterns_valid(self.rules@)
    }

    /// The rules in the order in which they are tried.
    pub open spec fn order(&self) -> Seq<Rule> {
        match_order(self@.rules)
    }

    /// An engine kept at `path` with what the rules file held: the groups
    /// and rules of the file; with the older layout, its rules and one
    /// default group; with no file or an unrecognized one, nothing. Fails
    /// on the first rule whose pattern does not compile.
    pub fn from_rules_file(path: String, file: RulesFile) -> (r: Result<RuleEngine, RuleError>)
        ensures
            match file {
                RulesFile::Full { groups, rules } => match r {
                    Ok(e) => e.wf() && patterns_valid(rules@) && e@.path == path@ && e@.groups == groups@ && e@.rules == rules@,
                    Err(err) => err is InvalidPattern && !patterns_valid(rules@),
                },
                RulesFile::RulesOnly(rules) => match r {
                    Ok(e) => {
                        &&& e.wf()
                        &&& patterns_valid(rules@)
                        &&& e@.path == path@
                        &&& e@.rules == rules@
                        &&& e@.groups.len() == 1
                        &&& e@.groups[0].id@ == "default"@
                        &&& e@.groups[0].name@ == "默认规则"@
                        &&& e@.groups[0].description@ == "系统默认规则组"@
                        &&& e@.groups[0].enabled
                    },
                    Err(err) => err is InvalidPattern && !patterns_valid(rules@),
                },
                _ => match r {
                    Ok(e) => e.wf() && e@.path == path@ && e@.groups.len() == 0 && e@.rules.len() == 0,
                    Err(_) => false,
                },
            },
    {
        let (groups, rules) = match file {
            RulesFile::Full { groups, rules } => (groups, rules),
            RulesFile::RulesOnly(rules) => {
                let default_group = RuleGroup {
                    id: default_group_id(),
                    name: "默认规则".to_owned(),
                    description: "系统默认规则组".to_owned(),
                    enabled: true,
                };
                let mut groups: Vec<RuleGroup> = Vec::new();
                groups.push(default_group);
                (groups, rules)
            },
            _ => (Vec::new(), Vec::new()),
        };
        let compiled = match compile_rules(&rules) {
            Ok(c) => c,
            Err(e) => {
                return Err(e);
            },
        };
        Ok(RuleEngine { path, groups, rules, compiled })
    }

    /// The rules of a consistent engine all compile.
    pub proof fn lemma_rules_compile(&self)
        requires
            self.wf(),
        ensures
            patterns_valid(self@.rules),
    {
    }

    /// What the engine's file is to hold: its groups and its rules, in the
    /// order they were added.
    pub fn to_rules_file(&self) -> (r: RulesFile)
        ensures
            r matches RulesFile::Full { groups, rules } && groups@ == self@.groups && rules@ == self@.rules,
    {
        RulesFile::Full { groups: copy_groups(&self.groups), rules: copy_rules(&self.rules) }
    }

    /// The file the engine is kept in.
    pub fn path(&self) -> (r: &str)
        ensures
            r@ == self@.path,
    {
        self.path.as_str()
    }

    /// The rules, in the order they were added.
    pub fn rules(&self) -> (r: &[Rule])
        ensures
            r@ == self@.rules,
    {
        self.rules.as_slice()
    }

    /// The groups, in the order they were added.
    pub fn groups(&self) -> (r: &[RuleGroup])
        ensures
            r@ == self@.groups,
    {
        self.groups.as_slice()
    }

    /// Adds `group`, unless a group with its id exists.
    pub fn add_group(&mut self, group: RuleGroup) -> (r: Result<(), RuleError>)
        requires
            old(self).wf(),
        ensures
            final(self).wf(),
            r is Ok <==> !has_group(old(self)@.groups, group.id@),
            r is Ok ==> final(self)@.groups == old(self)@.groups.push(group),
            r matches Err(e) ==> final(self)@.groups == old(self)@.groups
                && (e matches RuleError::DuplicateGroup(id) && id@ == group.id@),
            final(self)@.rules == old(self)@.rules,
            final(self)@.path == old(self)@.path,
    {
        let n = self.groups.len();
        for i in 0..n
            invariant
                n == self.groups@.len(),
                self.wf(),
                self@.groups == old(self)@.groups,
                self@.rules == old(self)@.rules,
                self@.path == old(self)@.path,
                forall|k: int| 0 <= k < i ==> #[trigger] self.groups@[k].id@ != group.id@,
        {
            if self.groups[i].id == group.id {
                return Err(RuleError::DuplicateGroup(group.id));
            }
        }
        self.groups.push(group);
        Ok(())
    }

    /// Removes the group `id` and every rule of that group. Tells whether
    /// such a group existed.
    pub fn remove_group(&mut self, id: &str) -> (r: bool)
        requires
            old(self).wf(),
        ensures
            final(self).wf(),
            r == has_group(old(self)@.groups, id@),
            final(self)@.groups == old(self)@.groups.filter(group_kept(id@)),
            final(self)@.rules == old(self)@.rules.filter(rule_kept(true, id@)),
            final(self)@.path == old(self)@.path,
    {
        let ghost old_rules = self.rules@;
        let removed = retain_groups(&mut self.groups, id);
        retain_rules(&mut self.rules, id, true);
        retain_rules(&mut self.compiled, id, true);
        proof {
            lemma_priority_total_preorder();
            lemma_stable_sort_filter(old_rules, priority_le(), rule_kept(true, id@));
            lemma_patterns_valid_filter(old_rules, rule_kept(true, id@));
        }
        removed
    }

    /// Enables or disables the group `id` and every rule of that group.
    /// Tells whether such a group exists.
    pub fn toggle_group(&mut self, id: &str, enabled: bool) -> (r: bool)
        requires
            old(self).wf(),
        ensures
            final(self).wf(),
            r == has_group(old(self)@.groups, id@),
            final(self)@.groups == old(self)@.groups.map_values(group_enabled_set(id@, enabled)),
            final(self)@.rules == old(self)@.rules.map_values(rule_enabled_set(true, id@, enabled)),
            final(self)@.path == old(self)@.path,
    {
        let ghost old_rules = self.rules@;
        let found = set_groups_enabled(&mut self.groups, id, enabled);
        set_rules_enabled(&mut self.rules, id, true, enabled);
        set_rules_enabled(&mut self.compiled, id, true, enabled);
        proof {
            let f = rule_enabled_set(true, id@, enabled);
            lemma_stable_sort_map(old_rules, priority_le(), f, priority_le());
            let nr = old_rules.map_values(f);
            assert forall|i: int| 0 <= i < nr.len() implies regex_accepts(#[trigger] nr[i].process_pattern@) by {
                assert(nr[i].process_pattern == old_rules[i].process_pattern);
            }
        }
        found
    }

    /// The rules of the group `group_id`, in the order they were added.
    pub fn rules_by_group(&self, group_id: &str) -> (r: Vec<&Rule>)
        ensures
            r@.map_values(|x: &Rule| *x) == self@.rules.filter(|x: Rule| x.group_id@ == group_id@),
    {
        let ghost p = |x: Rule| x.group_id@ == group_id@;
        let ghost s = self.rules@;
        let mut out: Vec<&Rule> = Vec::new();
        let n = self.rules.len();
        for i in 0..n
            invariant
                n == s.len(),
                s == self.rules@,
                p == (|x: Rule| x.group_id@ == group_id@),
                out@.map_values(|x: &Rule| *x) == s.take(i as int).filter(p),
        {
            let ghost t = s.take(i as int);
            proof {
                assert(s.take(i + 1) == t.push(s[i as int]));
                reveal(Seq::filter);
                assert(t.push(s[i as int]).drop_last() == t);
            }
            let ghost before = out@;
            if str_eq(self.rules[i].group_id.as_str(), group_id) {
                out.push(&self.rules[i]);
                proof {
                    assert(out@.map_values(|x: &Rule| *x) =~= before.map_values(|x: &Rule| *x).push(s[i as int]));
                }
            }
        }
        proof {
            assert(s.take(n as int) == s);
        }
        out
    }

    /// Adds `rule` if its pattern compiles; otherwise leaves the engine as
    /// it is and reports the pattern's error.
    pub fn add(&mut self, rule: Rule) -> (r: Result<(), RuleError>)
        requires
            old(self).wf(),
        ensures
            final(self).wf(),
            r is Ok <==> regex_accepts(rule.process_pattern@),
            r is Ok ==> final(self)@.rules == old(self)@.rules.push(rule),
            r matches Err(e) ==> e is InvalidPattern && final(self)@.rules == old(self)@.rules,
            final(self)@.groups == old(self)@.groups,
            final(self)@.path == old(self)@.path,
    {
        match check_pattern(rule.process_pattern.as_str()) {
            Ok(()) => {},
            Err(e) => {
                return Err(RuleError::InvalidPattern(e));
            },
        }
        let ghost old_rules = self.rules@;
        insert_by_priority(&mut self.compiled, copy_rule(&rule));
        self.rules.push(rule);
        proof {
            assert(self.rules@.drop_last() == old_rules);
            assert(patterns_valid(self.rules@)) by {
                assert forall|k: int| 0 <= k < self.rules@.len() implies regex_accepts(#[trigger] self.rules@[k].process_pattern@) by {
                    if k < old_rules.len() {
                        assert(self.rules@[k] == old_rules[k]);
                    }
                }
            }
        }
        Ok(())
    }

    /// Removes every rule with the id `id`. Tells whether there was one.
    pub fn remove(&mut self, id: &str) -> (r: bool)
        requires
            old(self).wf(),
        ensures
            final(self).wf(),
            r == has_rule_key(old(self)@.rules, false, id@),
            final(self)@.rules == old(self)@.rules.filter(rule_kept(false, id@)),
            final(self)@.groups == old(self)@.groups,
            final(self)@.path == old(self)@.path,
    {
        let ghost old_rules = self.rules@;
        let removed = retain_rules(&mut self.rules, id, false);
        retain_rules(&mut self.compiled, id, false);
        proof {
            lemma_priority_total_preorder();
            lemma_stable_sort_filter(old_rules, priority_le(), rule_kept(false, id@));
            lemma_patterns_valid_filter(old_rules, rule_kept(false, id@));
        }
        removed
    }

    /// Enables or disables every rule with the id `id`. Tells whether there
    /// was one.
    pub fn enable(&mut self, id: &str, enabled: bool) -> (r: bool)
        requires
            old(self).wf(),
        ensures
            final(self).wf(),
            r == has_rule_key(old(self)@.rules, false, id@),
            final(self)@.rules == old(self)@.rules.map_values(rule_enabled_set(false, id@, enabled)),
            final(self)@.groups == old(self)@.groups,
            final(self)@.path == old(self)@.path,
    {
        let ghost old_rules = self.rules@;
        let found = set_rules_enabled(&mut self.rules, id, false, enabled);
        set_rules_enabled(&mut self.compiled, id, false, enabled);
        proof {
            let f = rule_enabled_set(false, id@, enabled);
            lemma_stable_sort_map(old_rules, priority_le(), f, priority_le());
            let nr = old_rules.map_values(f);
            assert forall|i: int| 0 <= i < nr.len() implies regex_accepts(#[trigger] nr[i].process_pattern@) by {
                assert(nr[i].process_pattern == old_rules[i].process_pattern);
            }
        }
        found
    }

    /// The rule that decides a window of the process `process_name`: the
    /// first enabled rule, in the order rules are tried, whose pattern
    /// matches the name.
    pub fn match_window(&self, process_name: &str) -> (r: Option<&Rule>)
        requires
            self.wf(),
        ensures
            match first_applicable(self.order(), process_name@) {
                Some(rule) => r is Some && *r.unwrap() == rule,
                None => r is None,
            },
    {
        let ghost order = self.compiled@;
        let n = self.compiled.len();
        for i in 0..n
            invariant
                n == order.len(),
                order == self.compiled@,
                order == self.order(),
                patterns_valid(self.rules@),
                first_applicable(order, process_name@) == first_applicable(order.skip(i as int), process_name@),
        {
            proof {
                crate::sorting::lemma_stable_sort_permutation(self.rules@, priority_le());
                let c = order[i as int];
                assert(order.to_multiset().count(c) > 0) by {
                    order.to_multiset_ensures();
                    assert(order.contains(c));
                }
                self.rules@.to_multiset_ensures();
                assert(self.rules@.contains(c));
                let k = choose|k: int| 0 <= k < self.rules@.len() && self.rules@[k] == c;
                assert(regex_accepts(self.rules@[k].process_pattern@));
                assert(order.skip(i as int)[0] == c);
                assert(order.skip(i as int).drop_first() == order.skip(i + 1));
            }
            let rule = &self.compiled[i];
            if rule.enabled && pattern_is_match(rule.process_pattern.as_str(), process_name) {
                return Some(rule);
            }
        }
        proof {
            assert(order.skip(n as int) =~= Seq::<Rule>::empty());
        }
        None
    }

    /// The changes the rules ask for on `windows`, in window order: for each
    /// window whose deciding rule wants the other protection state.
    pub fn plan_changes(&self, windows: &Vec<WindowInfo>) -> (r: Vec<PlannedChange>)
        requires
            self.wf(),
        ensures
            r@ == planned_changes(self.order(), windows@),
    {
        let mut out: Vec<PlannedChange> = Vec::new();
        let n = windows.len();
        for i in 0..n
            invariant
                n == windows@.len(),
                self.wf(),
                out@ == planned_changes(self.order(), windows@.take(i as int)),
        {
            proof {
                let t = windows@.take(i + 1);
                assert(t.drop_last() == windows@.take(i as int));
                assert(t.last() == windows@[i as int]);
            }
            let w = &windows[i];
            match self.match_window(w.app_name.as_str()) {
                Some(rule) => {
                    if w.is_protected != rule.protect {
                        let p = PlannedChange {
                            hwnd: w.hwnd,
                            pid: w.pid,
                            title: w.title.clone(),
                            executable_path: w.executable_path.clone(),
                            previous_protected: w.is_protected,
                            protect: rule.protect,
                            rule_id: rule.id.clone(),
                        };
                        let ghost before = out@;
                        out.push(p);
                        proof {
                            assert(out@ =~= before + seq![plan_of(windows@[i as int], *rule)]);
                        }
                    } else {
                        proof {
                            assert(out@ =~= out@ + Seq::<PlannedChange>::empty());
                        }
                    }
                },
                None => {
                    proof {
                        assert(out@ =~= out@ + Seq::<PlannedChange>::empty());
                    }
                },
            }
        }
        proof {
            assert(windows@.take(n as int) == windows@);
        }
        out
    }
}


/// Saving an engine and building one again from what was saved succeeds
/// and gives the same groups and rules: what a consistent engine saves
/// compiles, and the rebuilt engine decides every window as the first one
/// did.
pub proof fn lemma_saved_engine_reloads(e: RuleEngine, file: RulesFile, e2: RuleEngine)
    requires
        e.wf(),
        file matches RulesFile::Full { groups, rules } && groups@ == e@.groups && rules@ == e@.rules,
        e2@.groups == e@.groups,
        e2@.rules == e@.rules,
    ensures
        file matches RulesFile::Full { rules, .. } && patterns_valid(rules@),
        e2.order() == e.order(),
        forall|name: Seq<char>| #[trigger] first_applicable(e2.order(), name) == first_applicable(e.order(), name),
{
    e.lemma_rules_compile();
}

/// Removing a rule by its id undoes adding it, when no rule had that id.
pub proof fn lemma_remove_undoes_add(rules: Seq<Rule>, rule: Rule)
    requires
        !has_rule_key(rules, false, rule.id@),
    ensures
        rules.push(rule).filter(rule_kept(false, rule.id@)) == rules,
{
    let p = rule_kept(false, rule.id@);
    reveal(Seq::filter);
    assert(rules.push(rule).drop_last() == rules);
    assert(rules.filter(p) == rules) by {
        lemma_filter_keeps_all(rules, p);
    }
}

proof fn lemma_filter_keeps_all(s: Seq<Rule>, p: spec_fn(Rule) -> bool)
    requires
        forall|i: int| 0 <= i < s.len() ==> #[trigger] p(s[i]),
    ensures
        s.filter(p) == s,
    decreases s.len(),
{
    reveal(Seq::filter);
    if s.len() > 0 {
        let t = s.drop_last();
        assert forall|i: int| 0 <= i < t.len() implies #[trigger] p(t[i]) by {
            assert(p(s[i]));
        }
        lemma_filter_keeps_all(t, p);
        assert(p(s[s.len() - 1]));
        assert(t.push(s.last()) == s);
    }
}

/// After removing by an id (or a group id), no rule with it is left.
pub proof fn lemma_removed_key_absent(rules: Seq<Rule>, by_group: bool, key: Seq<char>)
    ensures
        !has_rule_key(rules.filter(rule_kept(by_group, key)), by_group, key),
{
    let f = rules.filter(rule_kept(by_group, key));
    assert forall|i: int| 0 <= i < f.len() implies #[trigger] rule_kept(by_group, key)(f[i]) by {
        rules.lemma_filter_pred(rule_kept(by_group, key), i);
    }
}

/// After removing a group, no group with its id is left.
pub proof fn lemma_removed_group_absent(groups: Seq<RuleGroup>, key: Seq<char>)
    ensures
        !has_group(groups.filter(group_kept(key)), key),
{
    let f = groups.filter(group_kept(key));
    assert forall|i: int| 0 <= i < f.len() implies #[trigger] f[i].id@ != key by {
        groups.lemma_filter_pred(group_kept(key), i);
    }
}

/// Enabling or disabling by id (or group) sets exactly the matching rules
/// and leaves every other field of every rule as it was.
pub proof fn lemma_enabled_set_effect(rules: Seq<Rule>, by_group: bool, key: Seq<char>, enabled: bool)
    ensures
        ({
            let after = rules.map_values(rule_enabled_set(by_group, key, enabled));
            &&& after.len() == rules.len()
            &&& forall|i: int| 0 <= i < rules.len() ==> {
                &&& (#[trigger] after[i]).id == rules[i].id
                &&& after[i].group_id == rules[i].group_id
                &&& after[i].process_pattern == rules[i].process_pattern
                &&& after[i].protect == rules[i].protect
                &&& after[i].priority == rules[i].priority
                &&& after[i].enabled == if !rule_kept(by_group, key)(rules[i]) { enabled } else { rules[i].enabled }
            }
        }),
{
}

/// Enabling or disabling a group sets `enabled` on exactly the groups with
/// that id, whatever it was before, and leaves every other field of every
/// group as it was.
pub proof fn lemma_group_enabled_set_effect(groups: Seq<RuleGroup>, key: Seq<char>, enabled: bool)
    ensures
        ({
            let after = groups.map_values(group_enabled_set(key, enabled));
            &&& after.len() == groups.len()
            &&& forall|i: int| 0 <= i < groups.len() ==> {
                &&& (#[trigger] after[i]).id == groups[i].id
                &&& after[i].name == groups[i].name
                &&& after[i].description == groups[i].description
                &&& after[i].enabled == if groups[i].id@ == key { enabled } else { groups[i].enabled }
            }
        }),
{
}

/// Toggling a group off and then on again leaves it enabled, with all its
/// rules enabled.
pub proof fn lemma_toggle_group_off_on(groups: Seq<RuleGroup>, rules: Seq<Rule>, key: Seq<char>)
    ensures
        ({
            let g = groups.map_values(group_enabled_set(key, false)).map_values(group_enabled_set(key, true));
            let r = rules.map_values(rule_enabled_set(true, key, false)).map_values(rule_enabled_set(true, key, true));
            &&& g.len() == groups.len()
            &&& r.len() == rules.len()
            &&& forall|i: int| 0 <= i < g.len() && groups[i].id@ == key ==> (#[trigger] g[i]).enabled
            &&& forall|i: int| 0 <= i < r.len() && rules[i].group_id@ == key ==> (#[trigger] r[i]).enabled
        }),
{
}

/// Setting `enabled` twice is the same as setting it once.
pub proof fn lemma_enabled_set_idempotent(rules: Seq<Rule>, by_group: bool, key: Seq<char>, enabled: bool)
    ensures
        rules.map_values(rule_enabled_set(by_group, key, enabled)).map_values(rule_enabled_set(by_group, key, enabled))
            == rules.map_values(rule_enabled_set(by_group, key, enabled)),
{
    let f = rule_enabled_set(by_group, key, enabled);
    assert(rules.map_values(f).map_values(f) =~= rules.map_values(f));
}

/// The order in which rules are tried holds every rule, as often as it was
/// added, ordered by priority.
pub proof fn lemma_match_order_sorted_permutation(rules: Seq<Rule>)
    ensures
        crate::sorting::sorted_by(match_order(rules), priority_le()),
        match_order(rules).to_multiset() =~= rules.to_multiset(),
        match_order(rules).len() == rules.len(),
{
    lemma_priority_total_preorder();
    crate::sorting::lemma_stable_sort_sorted(rules, priority_le());
    crate::sorting::lemma_stable_sort_permutation(rules, priority_le());
    crate::sorting::lemma_stable_sort_len(rules, priority_le());
}

/// The rule that decides is one of the rules tried, it applies, and no
/// rule tried before it applies; when none decides, none applies.
pub proof fn lemma_first_applicable_is_first(order: Seq<Rule>, name: Seq<char>)
    ensures
        match first_applicable(order, name) {
            Some(rule) => exists|i: int| 0 <= i < order.len() && order[i] == rule && rule_applies(rule, name)
                && forall|j: int| 0 <= j < i ==> !rule_applies(#[trigger] order[j], name),
            None => forall|j: int| 0 <= j < order.len() ==> !rule_applies(#[trigger] order[j], name),
        },
    decreases order.len(),
{
    if order.len() > 0 {
        let rest = order.drop_first();
        lemma_first_applicable_is_first(rest, name);
        if !rule_applies(order[0], name) {
            match first_applicable(rest, name) {
                Some(rule) => {
                    let i = choose|i: int| 0 <= i < rest.len() && rest[i] == rule && rule_applies(rule, name)
                        && forall|j: int| 0 <= j < i ==> !rule_applies(#[trigger] rest[j], name);
                    assert(order[i + 1] == rule);
                    assert forall|j: int| 0 <= j < i + 1 implies !rule_applies(#[trigger] order[j], name) by {
                        if j > 0 {
                            assert(order[j] == rest[j - 1]);
                        }
                    }
                },
                None => {
                    assert forall|j: int| 0 <= j < order.len() implies !rule_applies(#[trigger] order[j], name) by {
                        if j > 0 {
                            assert(order[j] == rest[j - 1]);
                        }
                    }
                },
            }
        } else {
            assert(order[0] == order[0]);
        }
    }
}

/// The rule at position `i` of `order` decides the process name `name`:
/// it is enabled and its pattern matches the name as given, and no rule
/// before it is enabled with a matching pattern.
pub open spec fn decides_at(order: Seq<Rule>, i: int, name: Seq<char>) -> bool {
    &&& 0 <= i < order.len()
    &&& order[i].enabled
    &&& regex_is_match(order[i].process_pattern@, name)
    &&& forall|j: int| 0 <= j < i ==> !(#[trigger] order[j].enabled && regex_is_match(order[j].process_pattern@, name))
}

/// Planning one more window keeps the changes planned for the others and
/// adds at most one: a change exactly when a rule decides the window's
/// process name, as given, and wants the other protection state; the
/// change is that rule's, on that window. The same rule is the one that
/// `match_window` reports for that name.
pub proof fn lemma_plan_for_window(order: Seq<Rule>, windows: Seq<WindowInfo>, w: WindowInfo)
    ensures
        ({
            let before = planned_changes(order, windows);
            let after = planned_changes(order, windows.push(w));
            let added = after.skip(before.len() as int);
            &&& after.len() >= before.len()
            &&& after.take(before.len() as int) == before
            &&& added.len() <= 1
            &&& (added.len() == 1 <==> exists|i: int| #[trigger] decides_at(order, i, w.app_name@) && order[i].protect != w.is_protected)
            &&& forall|i: int| #[trigger] decides_at(order, i, w.app_name@) && order[i].protect != w.is_protected ==> added == seq![
                PlannedChange {
                    hwnd: w.hwnd,
                    pid: w.pid,
                    title: w.title,
                    executable_path: w.executable_path,
                    previous_protected: w.is_protected,
                    protect: order[i].protect,
                    rule_id: order[i].id,
                },
            ]
            &&& forall|i: int| #[trigger] decides_at(order, i, w.app_name@) ==> first_applicable(order, w.app_name@) == Some(order[i])
            &&& (first_applicable(order, w.app_name@) is None <==> forall|i: int| !#[trigger] decides_at(order, i, w.app_name@))
        }),
{
    let name = w.app_name@;
    let before = planned_changes(order, windows);
    let all = windows.push(w);
    assert(all.drop_last() == windows);
    assert(all.last() == w);
    let after = planned_changes(order, all);
    let extra = planned_for(order, w);
    assert(after == before + extra);
    assert(after.take(before.len() as int) =~= before);
    assert(after.skip(before.len() as int) =~= extra);
    lemma_first_applicable_is_first(order, name);
    assert forall|i: int| #[trigger] decides_at(order, i, name) implies first_applicable(order, name) == Some(order[i]) by {
        match first_applicable(order, name) {
            Some(rule) => {
                let i0 = choose|i0: int| 0 <= i0 < order.len() && order[i0] == rule && rule_applies(rule, name)
                    && forall|j: int| 0 <= j < i0 ==> !rule_applies(#[trigger] order[j], name);
                if i0 < i {
                    assert(!(order[i0].enabled && regex_is_match(order[i0].process_pattern@, name)));
                } else if i < i0 {
                    assert(!rule_applies(order[i], name));
                }
            },
            None => {
                assert(!rule_applies(order[i], name));
            },
        }
    }
    match first_applicable(order, name) {
        Some(rule) => {
            let i0 = choose|i0: int| 0 <= i0 < order.len() && order[i0] == rule && rule_applies(rule, name)
                && forall|j: int| 0 <= j < i0 ==> !rule_applies(#[trigger] order[j], name);
            assert forall|j: int| 0 <= j < i0 implies !(#[trigger] order[j].enabled && regex_is_match(order[j].process_pattern@, name)) by {
                assert(!rule_applies(order[j], name));
            }
            assert(decides_at(order, i0, name));
        },
        None => {
            assert forall|i: int| !#[trigger] decides_at(order, i, name) by {
                if 0 <= i < order.len() {
                    assert(!rule_applies(order[i], name));
                }
            }
        },
    }
}

/// Every planned change turns a window's protection the other way.
pub proof fn lemma_planned_changes_flip(order: Seq<Rule>, windows: Seq<WindowInfo>)
    ensures
        forall|k: int| 0 <= k < planned_changes(order, windows).len() ==>
            (#[trigger] planned_changes(order, windows)[k]).protect != planned_changes(order, windows)[k].previous_protected,
    decreases windows.len(),
{
    if windows.len() > 0 {
        lemma_planned_changes_flip(order, windows.drop_last());
        let a = planned_changes(order, windows.drop_last());
        let b = planned_for(order, windows.last());
        assert forall|k: int| 0 <= k < (a + b).len() implies (#[trigger] (a + b)[k]).protect != (a + b)[k].previous_protected by {
            if k < a.len() {
                assert((a + b)[k] == a[k]);
            } else {
                assert((a + b)[k] == b[k - a.len()]);
            }
        }
    }
}

impl PlannedChange {
    /// The history entry for this change, made at `timestamp` by its rule.
    pub fn to_policy_change(&self, timestamp: Timestamp) -> (c: PolicyChange)
        ensures
            records_change(c, *self, timestamp),
    {
        let mut actor = "rule:".to_owned();
        actor.append(self.rule_id.as_str());
        PolicyChange {
            timestamp,
            hwnd: self.hwnd,
            pid: self.pid,
            title: self.title.clone(),
            executable_path: self.executable_path.clone(),
            previous_protected: self.previous_protected,
            current_protected: self.protect,
            actor,
        }
    }

    /// The result reported once this change was made.
    pub fn to_apply_result(&self) -> (r: ApplyResult)
        ensures
            r == result_of(*self),
    {
        ApplyResult {
            hwnd: self.hwnd,
            pid: self.pid,
            title: self.title.clone(),
            rule_id: self.rule_id.clone(),
            protect: self.protect,
        }
    }
}

/// Records in `store`, at `timestamp`, each planned change that was made
/// (`applied[i]` for `planned[i]`), in order, and returns their results.
/// Changes that could not be made are passed over.
pub fn record_applied(
    store: &mut PolicyStore,
    planned: &Vec<PlannedChange>,
    applied: &Vec<bool>,
    timestamp: Timestamp,
) -> (r: Vec<ApplyResult>)
    requires
        planned@.len() == applied@.len(),
    ensures
        ({
            let made = made_changes(planned@, applied@);
            &&& r@ == made.map_values(|p: PlannedChange| result_of(p))
            &&& final(store)@.path == old(store)@.path
            &&& final(store)@.changes.len() == old(store)@.changes.len() + made.len()
            &&& final(store)@.changes.take(old(store)@.changes.len() as int) == old(store)@.changes
            &&& forall|k: int| 0 <= k < made.len() ==> records_change(
                #[trigger] final(store)@.changes[old(store)@.changes.len() + k],
                made[k],
                timestamp,
            )
        }),
{
    let ghost base = store@.changes;
    let mut results: Vec<ApplyResult> = Vec::new();
    let n = planned.len();
    for i in 0..n
        invariant
            n == planned@.len(),
            n == applied@.len(),
            ({
                let made = made_changes(planned@.take(i as int), applied@.take(i as int));
                &&& results@ == made.map_values(|p: PlannedChange| result_of(p))
                &&& store@.path == old(store)@.path
                &&& store@.changes.len() == base.len() + made.len()
                &&& store@.changes.take(base.len() as int) == base
                &&& forall|k: int| 0 <= k < made.len() ==> records_change(
                    #[trigger] store@.changes[base.len() + k],
                    made[k],
                    timestamp,
                )
            }),
            base == old(store)@.changes,
    {
        let ghost made_before = made_changes(planned@.take(i as int), applied@.take(i as int));
        let ghost changes_before = store@.changes;
        proof {
            let tp = planned@.take(i + 1);
            let ta = applied@.take(i + 1);
            assert(tp.drop_last() == planned@.take(i as int));
            assert(ta.drop_last() == applied@.take(i as int));
            assert(tp.last() == planned@[i as int]);
            assert(ta.last() == applied@[i as int]);
        }
        if applied[i] {
            let p = &planned[i];
            store.record(p.to_policy_change(timestamp));
            results.push(p.to_apply_result());
            proof {
                let made = made_before.push(planned@[i as int]);
                assert(results@ =~= made.map_values(|p: PlannedChange| result_of(p)));
                assert(store@.changes.take(base.len() as int) =~= base) by {
                    assert(store@.changes == changes_before.push(store@.changes.last()));
                }
                assert forall|k: int| 0 <= k < made.len() implies records_change(
                    #[trigger] store@.changes[base.len() + k],
                    made[k],
                    timestamp,
                ) by {
                    if k < made_before.len() {
                        assert(store@.changes[base.len() + k] == changes_before[base.len() + k]);
                    }
                }
            }
        }
    }
    proof {
        assert(planned@.take(n as int) == planned@);
        assert(applied@.take(n as int) == applied@);
    }
    results
}

} // verus!
