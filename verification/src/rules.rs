//! The rules context: an ordered list of per-path file-disposition rules,
//! with the overwrite and break flags consulted during rendering and action
//! execution.

use vstd::prelude::*;
use crate::strings::{str_to_chars, chars_to_string};
use crate::template::find_char;

verus! {

broadcast use vstd::std_specs::vec::axiom_spec_len;

/// What the renderer does with a source file: expand it as a template, copy
/// its bytes, or leave it out.
#[derive(Clone, Copy, Debug, PartialEq, Eq, Structural)]
pub enum RuleAction {
    RENDER,
    COPY,
    SKIP,
}

/// One file-disposition rule: a glob pattern, the action taken on matching
/// paths, and whether the match extends to descendants.
pub struct PathRule {
    pub pattern: String,
    pub action: RuleAction,
    pub recursive: bool,
}

/// The mathematical model of a rule.
#[verifier::ext_equal]
pub struct RuleModel {
    pub pattern: Seq<char>,
    pub action: RuleAction,
    pub recursive: bool,
}

impl View for PathRule {
    type V = RuleModel;

    open spec fn view(&self) -> RuleModel {
        RuleModel { pattern: self.pattern@, action: self.action, recursive: self.recursive }
    }
}

/// Whether glob pattern `p` matches the text `s`: `*` matches any run of
/// characters, `?` any single character, anything else itself.
pub open spec fn glob_match(p: Seq<char>, s: Seq<char>) -> bool
    decreases p.len() + s.len(),
{
    if p.len() == 0 {
        s.len() == 0
    } else if p[0] == '*' {
        glob_match(p.subrange(1, p.len() as int), s) || (s.len() > 0 && glob_match(
            p,
            s.subrange(1, s.len() as int),
        ))
    } else {
        s.len() > 0 && (p[0] == '?' || p[0] == s[0]) && glob_match(
            p.subrange(1, p.len() as int),
            s.subrange(1, s.len() as int),
        )
    }
}

/// The final `/`-separated component of a path.
pub open spec fn last_component(s: Seq<char>) -> Seq<char>
    decreases s.len(),
{
    match find_char(s, 0, '/') {
        None => s,
        Some(k) => {
            if 0 <= k && k + 1 <= s.len() {
                last_component(s.subrange(k + 1, s.len() as int))
            } else {
                s
            }
        },
    }
}

/// The path without its trailing `/` separators.
pub open spec fn strip_trailing_slashes(s: Seq<char>) -> Seq<char>
    decreases s.len(),
{
    if s.len() > 0 && s.last() == '/' {
        strip_trailing_slashes(s.drop_last())
    } else {
        s
    }
}

/// The file name a path names: its final component, ignoring trailing `/`
/// separators.
pub open spec fn file_name(s: Seq<char>) -> Seq<char> {
    last_component(strip_trailing_slashes(s))
}

/// Whether the pattern matches any `/`-separated component of the path.
pub open spec fn any_component_matches(p: Seq<char>, s: Seq<char>) -> bool
    decreases s.len(),
{
    match find_char(s, 0, '/') {
        None => glob_match(p, s),
        Some(k) => {
            if 0 <= k && k + 1 <= s.len() {
                glob_match(p, s.subrange(0, k)) || any_component_matches(
                    p,
                    s.subrange(k + 1, s.len() as int),
                )
            } else {
                glob_match(p, s)
            }
        },
    }
}

/// Whether a rule applies to a source path: its pattern matches the path's
/// final component, or, for a recursive rule, any component.
pub open spec fn rule_matches(r: RuleModel, path: Seq<char>) -> bool {
    if r.recursive {
        any_component_matches(r.pattern, path)
    } else {
        glob_match(r.pattern, last_component(path))
    }
}

/// The disposition chosen by an ordered rule list for a path: the default is
/// `RENDER`; the last matching rule wins.
pub open spec fn rules_disposition(rules: Seq<RuleModel>, path: Seq<char>) -> RuleAction
    decreases rules.len(),
{
    if rules.len() == 0 {
        RuleAction::RENDER
    } else if rule_matches(rules.last(), path) {
        rules.last().action
    } else {
        rules_disposition(rules.drop_last(), path)
    }
}

/// With no rules, every path gets the default disposition, `RENDER`.
pub proof fn lemma_disposition_default(path: Seq<char>)
    ensures
        rules_disposition(Seq::<RuleModel>::empty(), path) == RuleAction::RENDER,
{
}

/// When the last rule matches a path, it decides the disposition, whatever
/// the earlier rules say.
pub proof fn lemma_last_matching_rule_wins(rules: Seq<RuleModel>, path: Seq<char>)
    requires
        rules.len() > 0,
        rule_matches(rules.last(), path),
    ensures
        rules_disposition(rules, path) == rules.last().action,
{
}

/// A rule that no later rule overrides decides the disposition.
pub proof fn lemma_rule_wins_over_earlier(rules: Seq<RuleModel>, path: Seq<char>, i: int)
    requires
        0 <= i < rules.len(),
        rule_matches(rules[i], path),
        forall|j: int| i < j < rules.len() ==> !rule_matches(rules[j], path),
    ensures
        rules_disposition(rules, path) == rules[i].action,
    decreases rules.len(),
{
    if rules.len() > 0 && i < rules.len() - 1 {
        assert(rules.drop_last()[i] == rules[i]);
        lemma_rule_wins_over_earlier(rules.drop_last(), path, i);
    }
}

/// Executable glob matching, on pattern and text suffixes.
fn exec_glob_from(p: &Vec<char>, pi: usize, s: &Vec<char>, si: usize) -> (r: bool)
    requires
        pi <= p@.len(),
        si <= s@.len(),
    ensures
        r == glob_match(
            p@.subrange(pi as int, p@.len() as int),
            s@.subrange(si as int, s@.len() as int),
        ),
    decreases p@.len() - pi + s@.len() - si,
{
    let ghost ps = p@.subrange(pi as int, p@.len() as int);
    let ghost ss = s@.subrange(si as int, s@.len() as int);
    if pi == p.len() {
        return si == s.len();
    }
    proof {
        assert(ps[0] == p@[pi as int]);
        assert(ps.subrange(1, ps.len() as int) =~= p@.subrange(pi + 1 as int, p@.len() as int));
    }
    if p[pi] == '*' {
        let first = exec_glob_from(p, pi + 1, s, si);
        if first {
            return true;
        }
        if si < s.len() {
            proof {
                assert(ss.subrange(1, ss.len() as int) =~= s@.subrange(
                    si + 1 as int,
                    s@.len() as int,
                ));
            }
            return exec_glob_from(p, pi, s, si + 1);
        }
        return false;
    }
    if si == s.len() {
        return false;
    }
    proof {
        assert(ss[0] == s@[si as int]);
        assert(ss.subrange(1, ss.len() as int) =~= s@.subrange(si + 1 as int, s@.len() as int));
    }
    if p[pi] == '?' || p[pi] == s[si] {
        return exec_glob_from(p, pi + 1, s, si + 1);
    }
    false
}

/// Executable glob matching over whole sequences.
pub fn exec_glob(p: &Vec<char>, s: &Vec<char>) -> (r: bool)
    ensures
        r == glob_match(p@, s@),
{
    proof {
        assert(p@.subrange(0, p@.len() as int) =~= p@);
        assert(s@.subrange(0, s@.len() as int) =~= s@);
    }
    exec_glob_from(p, 0, s, 0)
}

/// Executable counterpart of `rule_matches`.
fn exec_rule_matches(pattern: &Vec<char>, recursive: bool, path: &Vec<char>, from: usize) -> (r:
    bool)
    requires
        from <= path@.len(),
    ensures
        ({
            let sub = path@.subrange(from as int, path@.len() as int);
            if recursive {
                r == any_component_matches(pattern@, sub)
            } else {
                r == glob_match(pattern@, last_component(sub))
            }
        }),
    decreases path@.len() - from,
{
    let ghost sub = path@.subrange(from as int, path@.len() as int);
    let slash = crate::template::exec_find_char(path, from, '/');
    proof {
        lemma_find_char_offset(path@, from as int, '/');
    }
    match slash {
        None => {
            proof {
                assert(last_component(sub) == sub);
            }
            let tail = crate::template::copy_range(path, from, path.len());
            exec_glob(pattern, &tail)
        },
        Some(k) => {
            proof {
                assert(path@.len() == path.len());
                assert(sub.subrange(k - from + 1, sub.len() as int) =~= path@.subrange(
                    k + 1 as int,
                    path@.len() as int,
                ));
            }
            if recursive {
                proof {
                    assert(sub.subrange(0, k - from) =~= path@.subrange(from as int, k as int));
                }
                let head = crate::template::copy_range(path, from, k);
                if exec_glob(pattern, &head) {
                    return true;
                }
                exec_rule_matches(pattern, recursive, path, k + 1)
            } else {
                exec_rule_matches(pattern, recursive, path, k + 1)
            }
        },
    }
}

/// One mutation applied to the rules context by a `rules` action.
pub enum RuleType {
    AddRule(PathRule),
    Overwrite(bool),
}

/// The mathematical model of a rules-context mutation.
#[verifier::ext_equal]
pub enum RuleTypeModel {
    AddRule(RuleModel),
    Overwrite(bool),
}

impl View for RuleType {
    type V = RuleTypeModel;

    open spec fn view(&self) -> RuleTypeModel {
        match self {
            RuleType::AddRule(rule) => RuleTypeModel::AddRule(rule@),
            RuleType::Overwrite(value) => RuleTypeModel::Overwrite(*value),
        }
    }
}

/// One mutation applied to a rules-context model.
pub open spec fn apply_one(mutation: RuleTypeModel, m: RulesModel) -> RulesModel {
    match mutation {
        RuleTypeModel::AddRule(rule) => RulesModel { rules: m.rules.push(rule), ..m },
        RuleTypeModel::Overwrite(value) => RulesModel { overwrite: value, ..m },
    }
}

/// The mutations `i..` applied to a rules-context model, in order.
pub open spec fn apply_mutations_from(
    mutations: &Vec<RuleType>,
    i: int,
    m: RulesModel,
) -> RulesModel
    decreases mutations@.len() - i,
{
    if i < 0 || i >= mutations@.len() {
        m
    } else {
        apply_mutations_from(mutations, i + 1, apply_one(mutations[i]@, m))
    }
}

impl RuleType {
    /// A deep copy of the mutation.
    pub fn duplicate(&self) -> (r: RuleType)
        ensures
            r@ == self@,
    {
        match self {
            RuleType::AddRule(a) => RuleType::AddRule(
                PathRule {
                    pattern: a.pattern.clone(),
                    action: a.action,
                    recursive: a.recursive,
                },
            ),
            RuleType::Overwrite(v) => RuleType::Overwrite(*v),
        }
    }
}

/// The mathematical model of a rules context.
#[verifier::ext_equal]
pub struct RulesModel {
    pub rules: Seq<RuleModel>,
    pub overwrite: bool,
    pub break_triggered: bool,
}

/// The models of the rules `i..` of a rule vector.
pub open spec fn rule_models_from(rules: &Vec<PathRule>, i: int) -> Seq<RuleModel>
    decreases rules@.len() - i,
{
    if i < 0 || i >= rules@.len() {
        Seq::empty()
    } else {
        seq![rules[i]@] + rule_models_from(rules, i + 1)
    }
}

/// The models of rules `i..` are the rules' models, in order.
pub proof fn lemma_rule_models_index(rules: &Vec<PathRule>, i: int)
    requires
        0 <= i <= rules@.len(),
    ensures
        rule_models_from(rules, i).len() == rules@.len() - i,
        forall|j: int| i <= j < rules@.len() ==> rule_models_from(rules, i)[j - i] == rules@[j]@,
    decreases rules@.len() - i,
{
    if i < rules@.len() {
        lemma_rule_models_index(rules, i + 1);
    }
}

/// The hierarchical rule state consulted during rendering: the ordered rule
/// list, the overwrite flag, and the loop-break flag.
pub struct RulesContext {
    rules: Vec<PathRule>,
    overwrite: bool,
    break_triggered: bool,
}

impl View for RulesContext {
    type V = RulesModel;

    closed spec fn view(&self) -> RulesModel {
        RulesModel {
            rules: rule_models_from(&self.rules, 0),
            overwrite: self.overwrite,
            break_triggered: self.break_triggered,
        }
    }
}

impl RulesContext {
    /// A fresh context: no rules, no overwriting, no pending break.
    pub fn new() -> (r: RulesContext)
        ensures
            r@ == (RulesModel {
                rules: Seq::<RuleModel>::empty(),
                overwrite: false,
                break_triggered: false,
            }),
    {
        RulesContext { rules: Vec::new(), overwrite: false, break_triggered: false }
    }

    /// Whether an existing destination file may be overwritten.
    pub fn overwrite(&self) -> (r: bool)
        ensures
            r == self@.overwrite,
    {
        self.overwrite
    }

    /// Sets the overwrite flag.
    pub fn set_overwrite(&mut self, value: bool)
        ensures
            final(self)@ == (RulesModel { overwrite: value, ..old(self)@ }),
    {
        self.overwrite = value;
    }

    /// Whether a `break` has been observed and not yet consumed.
    pub fn break_triggered(&self) -> (r: bool)
        ensures
            r == self@.break_triggered,
    {
        self.break_triggered
    }

    /// Sets or clears the break flag.
    pub fn set_break_triggered(&mut self, value: bool)
        ensures
            final(self)@ == (RulesModel { break_triggered: value, ..old(self)@ }),
    {
        self.break_triggered = value;
    }

    /// Appends a rule; later rules take precedence over earlier ones.
    pub fn add_rule(&mut self, rule: PathRule)
        ensures
            final(self)@ == (RulesModel { rules: old(self)@.rules.push(rule@), ..old(self)@ }),
    {
        proof {
            lemma_rule_models_index(&self.rules, 0);
        }
        let ghost old_rules = self.rules;
        let ghost pushed = rule@;
        self.rules.push(rule);
        proof {
            lemma_rule_models_index(&old_rules, 0);
            lemma_rule_models_index(&self.rules, 0);
            let a = rule_models_from(&old_rules, 0);
            let b = rule_models_from(&self.rules, 0);
            assert forall|j: int| 0 <= j < b.len() implies b[j] == a.push(pushed)[j] by {
                assert(b[j - 0] == self.rules@[j]@);
                if j < a.len() {
                    assert(a[j - 0] == old_rules@[j]@);
                    assert(self.rules@[j] == old_rules@[j]);
                }
            }
            assert(b =~= a.push(pushed));
        }
    }

    /// Applies one rules-action mutation.
    pub fn apply(&mut self, mutation: RuleType)
        ensures
            final(self)@ == apply_one(mutation@, old(self)@),
    {
        match mutation {
            RuleType::AddRule(rule) => self.add_rule(rule),
            RuleType::Overwrite(value) => self.set_overwrite(value),
        }
    }

    /// The disposition for a source path: the default is `RENDER`, and the
    /// last matching rule wins.
    pub fn get_source_action(&self, path: &str) -> (r: RuleAction)
        ensures
            r == rules_disposition(self@.rules, path@),
    {
        proof {
            lemma_rule_models_index(&self.rules, 0);
            assert(self@.rules.subrange(0, self@.rules.len() as int) =~= self@.rules);
        }
        let pathv = str_to_chars(path);
        let mut i = self.rules.len();
        while i > 0
            invariant
                i <= self.rules@.len(),
                pathv@ == path@,
                self@.rules == rule_models_from(&self.rules, 0),
                self@.rules.len() == self.rules@.len(),
                forall|j: int| 0 <= j < self.rules@.len() ==> self@.rules[j] == self.rules@[j]@,
                rules_disposition(self@.rules.subrange(0, i as int), path@) == rules_disposition(
                    self@.rules,
                    path@,
                ),
            decreases i,
        {
            i = i - 1;
            let rule = &self.rules[i];
            let patv = str_to_chars(rule.pattern.as_str());
            let matched = exec_rule_matches(&patv, rule.recursive, &pathv, 0);
            proof {
                assert(pathv@.subrange(0, pathv@.len() as int) =~= pathv@);
                assert(self@.rules.subrange(0, i + 1 as int).last() == self.rules@[i as int]@);
                assert(self@.rules.subrange(0, i + 1 as int).drop_last() =~= self@.rules.subrange(
                    0,
                    i as int,
                ));
            }
            if matched {
                return rule.action;
            }
        }
        proof {
            assert(self@.rules.subrange(0, 0) =~= Seq::<RuleModel>::empty());
        }
        RuleAction::RENDER
    }

    /// A deep copy of the rules context, with the same model.
    pub fn duplicate(&self) -> (r: RulesContext)
        ensures
            r@ == self@,
    {
        let n = self.rules.len();
        let mut out: Vec<PathRule> = Vec::new();
        for j in 0..n
            invariant
                n == self.rules@.len(),
                out@.len() == j,
                forall|k: int| 0 <= k < j ==> out@[k]@ == self.rules@[k]@,
        {
            let rule = &self.rules[j];
            out.push(
                PathRule {
                    pattern: rule.pattern.clone(),
                    action: rule.action,
                    recursive: rule.recursive,
                },
            );
        }
        proof {
            lemma_rule_models_index(&out, 0);
            lemma_rule_models_index(&self.rules, 0);
            assert forall|j: int|
                0 <= j < out@.len() implies rule_models_from(&out, 0)[j] == rule_models_from(
                &self.rules,
                0,
            )[j] by {
                assert(rule_models_from(&out, 0)[j - 0] == out@[j]@);
                assert(rule_models_from(&self.rules, 0)[j - 0] == self.rules@[j]@);
            }
            assert(rule_models_from(&out, 0) =~= rule_models_from(&self.rules, 0));
        }
        RulesContext {
            rules: out,
            overwrite: self.overwrite,
            break_triggered: self.break_triggered,
        }
    }
}

/// The index where the final `/`-separated component of `path[from..]`
/// starts, as an index into `path`.
pub fn exec_last_component_start(path: &Vec<char>, from: usize) -> (r: usize)
    requires
        from <= path@.len(),
    ensures
        from <= r <= path@.len(),
        path@.subrange(r as int, path@.len() as int) == last_component(
            path@.subrange(from as int, path@.len() as int),
        ),
    decreases path@.len() - from,
{
    let ghost sub = path@.subrange(from as int, path@.len() as int);
    let slash = crate::template::exec_find_char(path, from, '/');
    proof {
        lemma_find_char_offset(path@, from as int, '/');
    }
    match slash {
        None => {
            proof {
                assert(last_component(sub) == sub);
            }
            from
        },
        Some(k) => {
            proof {
                assert(path@.len() == path.len());
                assert(sub.subrange(k - from + 1, sub.len() as int) =~= path@.subrange(
                    k + 1 as int,
                    path@.len() as int,
                ));
            }
            exec_last_component_start(path, k + 1)
        },
    }
}

/// `find_char` from `from` on `s` mirrors `find_char` on the suffix of `s`
/// that starts at `from`.
proof fn lemma_find_char_offset(s: Seq<char>, from: int, c: char)
    requires
        0 <= from <= s.len(),
    ensures
        find_char(s, from, c) == ({
            let sub = s.subrange(from, s.len() as int);
            match find_char(sub, 0, c) {
                None => None::<int>,
                Some(k) => Some(k + from),
            }
        }),
    decreases s.len() - from,
{
    let sub = s.subrange(from, s.len() as int);
    if from < s.len() {
        if s[from] == c {
            assert(sub[0] == c);
        } else {
            assert(sub[0] != c);
            lemma_find_char_offset(s, from + 1, c);
            lemma_find_char_offset(sub, 1, c);
            assert(sub.subrange(1, sub.len() as int) =~= s.subrange(from + 1, s.len() as int));
        }
    }
}

} // verus!
