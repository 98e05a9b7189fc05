//! The action engine: the tagged action tree of an archetype, and its
//! interpreter. Executing an action mutates the rendering and rules contexts
//! and appends the outward effects (output, subprocess runs, render
//! requests) to an effect list that the caller performs.

use vstd::prelude::*;
use vstd::string::*;
use crate::context::{Context, Value, ValueModel, dup_value};
use crate::engine::Archetect;
use crate::error::{ArchetectError, ArchetypeError, RenderError};
use crate::rules::{RulesContext, RulesModel, RuleType};
use crate::source::Source;
use crate::render::TreeEntry;
use crate::strings::str_to_chars;
use crate::template::{render_template, exec_eval_value, exec_eval_condition};

verus! {

broadcast use vstd::std_specs::vec::axiom_spec_len, vstd::std_specs::vec::axiom_vec_index_decreases;

/// The loop variable inserted by a `loop` action: a one-based and a
/// zero-based iteration index.
pub struct LoopContext {
    pub index: i64,
    pub index0: i64,
}

impl LoopContext {
    /// The state before the first iteration.
    pub fn new() -> (r: LoopContext)
        ensures
            r.index == 1 && r.index0 == 0,
    {
        LoopContext { index: 1, index0: 0 }
    }

    /// Steps both indices to the next iteration.
    pub fn increment(&mut self)
        requires
            old(self).index < i64::MAX,
            old(self).index0 < i64::MAX,
        ensures
            final(self).index == old(self).index + 1,
            final(self).index0 == old(self).index0 + 1,
    {
        self.index = self.index + 1;
        self.index0 = self.index0 + 1;
    }
}

/// A declared variable: an optional prompt text and an optional default
/// expression, rendered against the current context.
pub struct VariableInfo {
    pub prompt: Option<String>,
    pub default: Option<String>,
}

/// One answer: an optional value (a template) and an optional prompt
/// override.
pub struct AnswerInfo {
    pub value: Option<String>,
    pub prompt: Option<String>,
}

/// The mathematical model of an answer.
#[verifier::ext_equal]
pub struct AnswerModel {
    pub value: Option<Seq<char>>,
    pub prompt: Option<Seq<char>>,
}

impl View for AnswerInfo {
    type V = AnswerModel;

    open spec fn view(&self) -> AnswerModel {
        AnswerModel {
            value: match self.value {
                Some(v) => Some(v@),
                None => None,
            },
            prompt: match self.prompt {
                Some(p) => Some(p@),
                None => None,
            },
        }
    }
}

impl AnswerInfo {
    /// Starts building an answer holding the given value.
    pub fn with_value(value: &str) -> (r: AnswerInfoBuilder)
        ensures
            r.value matches Some(v) && v@ == value@,
            r.prompt is None,
    {
        AnswerInfoBuilder { value: Some(value.to_owned()), prompt: None }
    }

    /// A deep copy of the answer.
    pub fn duplicate(&self) -> (r: AnswerInfo)
        ensures
            r@ == self@,
    {
        AnswerInfo {
            value: match &self.value {
                Some(v) => Some(v.clone()),
                None => None,
            },
            prompt: match &self.prompt {
                Some(p) => Some(p.clone()),
                None => None,
            },
        }
    }
}

/// A builder for an answer.
pub struct AnswerInfoBuilder {
    pub value: Option<String>,
    pub prompt: Option<String>,
}

impl AnswerInfoBuilder {
    /// The finished answer.
    pub fn build(self) -> (r: AnswerInfo)
        ensures
            r@ == (AnswerModel {
                value: match self.value {
                    Some(v) => Some(v@),
                    None => None,
                },
                prompt: match self.prompt {
                    Some(p) => Some(p@),
                    None => None,
                },
            }),
    {
        AnswerInfo { value: self.value, prompt: self.prompt }
    }
}

/// The model of answer entries `i..`.
pub open spec fn answers_model_from(entries: &Vec<(String, AnswerInfo)>, i: int) -> Seq<
    (Seq<char>, AnswerModel),
>
    decreases entries@.len() - i,
{
    if i < 0 || i >= entries@.len() {
        Seq::empty()
    } else {
        seq![(entries[i].0@, entries[i].1@)] + answers_model_from(entries, i + 1)
    }
}

/// The model of answer entries `i..`, elementwise.
pub proof fn lemma_answers_model_index(entries: &Vec<(String, AnswerInfo)>, i: int)
    requires
        0 <= i <= entries@.len(),
    ensures
        answers_model_from(entries, i).len() == entries@.len() - i,
        forall|j: int|
            i <= j < entries@.len() ==> answers_model_from(entries, i)[j - i] == (
                entries@[j].0@,
                entries@[j].1@,
            ),
    decreases entries@.len() - i,
{
    if i < entries@.len() {
        lemma_answers_model_index(entries, i + 1);
    }
}

/// Model-level lookup among answers: the last entry with a matching key
/// wins.
pub open spec fn answer_lookup(m: Seq<(Seq<char>, AnswerModel)>, key: Seq<char>) -> Option<
    AnswerModel,
>
    decreases m.len(),
{
    if m.len() == 0 {
        None
    } else if m.last().0 == key {
        Some(m.last().1)
    } else {
        answer_lookup(m.drop_last(), key)
    }
}

/// The answer map: an insertion-ordered association from identifiers to
/// answers. Later entries for the same key shadow earlier ones.
pub struct AnswerMap {
    entries: Vec<(String, AnswerInfo)>,
}

impl View for AnswerMap {
    type V = Seq<(Seq<char>, AnswerModel)>;

    closed spec fn view(&self) -> Seq<(Seq<char>, AnswerModel)> {
        answers_model_from(&self.entries, 0)
    }
}

impl AnswerMap {
    /// An empty answer map.
    pub fn new() -> (r: AnswerMap)
        ensures
            r@ == Seq::<(Seq<char>, AnswerModel)>::empty(),
    {
        AnswerMap { entries: Vec::new() }
    }

    /// The number of entries.
    pub fn len(&self) -> (r: usize)
        ensures
            r == self@.len(),
    {
        proof {
            lemma_answers_model_index(&self.entries, 0);
        }
        self.entries.len()
    }

    /// The entry at an index, in insertion order.
    pub fn entry_at(&self, i: usize) -> (r: (&String, &AnswerInfo))
        requires
            i < self@.len(),
        ensures
            (r.0@, r.1@) == self@[i as int],
    {
        proof {
            lemma_answers_model_index(&self.entries, 0);
        }
        let pair = &self.entries[i];
        (&pair.0, &pair.1)
    }

    /// Binds `key` to `answer`, shadowing any earlier binding.
    pub fn insert(&mut self, key: &str, answer: AnswerInfo)
        ensures
            final(self)@ == old(self)@.push((key@, answer@)),
    {
        let ghost old_entries = self.entries;
        let ghost pushed = (key@, answer@);
        self.entries.push((key.to_owned(), answer));
        proof {
            lemma_answers_model_index(&old_entries, 0);
            lemma_answers_model_index(&self.entries, 0);
            let a = answers_model_from(&old_entries, 0);
            let b = answers_model_from(&self.entries, 0);
            assert forall|j: int| 0 <= j < b.len() implies b[j] == a.push(pushed)[j] by {
                assert(b[j - 0] == (self.entries@[j].0@, self.entries@[j].1@));
                if j < a.len() {
                    assert(a[j - 0] == (old_entries@[j].0@, old_entries@[j].1@));
                    assert(self.entries@[j] == old_entries@[j]);
                }
            }
            assert(b =~= a.push(pushed));
        }
    }

    /// Looks `key` up; the last binding wins.
    pub fn get<'a>(&'a self, key: &str) -> (r: Option<&'a AnswerInfo>)
        ensures
            match r {
                Some(a) => answer_lookup(self@, key@) == Some(a@),
                None => answer_lookup(self@, key@) is None,
            },
    {
        proof {
            lemma_answers_model_index(&self.entries, 0);
            assert(self@.subrange(0, self@.len() as int) =~= self@);
        }
        let mut i = self.entries.len();
        while i > 0
            invariant
                i <= self.entries@.len(),
                self@ == answers_model_from(&self.entries, 0),
                self@.len() == self.entries@.len(),
                forall|j: int|
                    0 <= j < self.entries@.len() ==> self@[j] == (
                        self.entries@[j].0@,
                        self.entries@[j].1@,
                    ),
                answer_lookup(self@.subrange(0, i as int), key@) == answer_lookup(self@, key@),
            decreases i,
        {
            i = i - 1;
            if crate::strings::str_eq(self.entries[i].0.as_str(), key) {
                proof {
                    assert(self@.subrange(0, i + 1 as int).last() == (
                        self.entries@[i as int].0@,
                        self.entries@[i as int].1@,
                    ));
                }
                return Some(&self.entries[i].1);
            }
            proof {
                assert(self@.subrange(0, i + 1 as int).drop_last() =~= self@.subrange(0, i as int));
            }
        }
        proof {
            assert(self@.subrange(0, 0) =~= Seq::<(Seq<char>, AnswerModel)>::empty());
        }
        None
    }

    /// A deep copy of the answer map, with the same model.
    pub fn duplicate(&self) -> (r: AnswerMap)
        ensures
            r@ == self@,
    {
        let n = self.entries.len();
        let mut out: Vec<(String, AnswerInfo)> = Vec::new();
        for j in 0..n
            invariant
                n == self.entries@.len(),
                out@.len() == j,
                forall|k: int|
                    0 <= k < j ==> out@[k].0@ == self.entries@[k].0@ && out@[k].1@
                        == self.entries@[k].1@,
        {
            let key = self.entries[j].0.clone();
            let val = self.entries[j].1.duplicate();
            out.push((key, val));
        }
        proof {
            lemma_answers_model_index(&out, 0);
            lemma_answers_model_index(&self.entries, 0);
            assert forall|j: int|
                0 <= j < out@.len() implies answers_model_from(&out, 0)[j] == answers_model_from(
                &self.entries,
                0,
            )[j] by {
                assert(answers_model_from(&out, 0)[j - 0] == (out@[j].0@, out@[j].1@));
                assert(answers_model_from(&self.entries, 0)[j - 0] == (
                    self.entries@[j].0@,
                    self.entries@[j].1@,
                ));
            }
            assert(answers_model_from(&out, 0) =~= answers_model_from(&self.entries, 0));
        }
        AnswerMap { entries: out }
    }
}

/// The answers a child archetype starts from: for each inherited name, in
/// order, the parent's answer under that name (names the parent does not
/// answer are left out), followed by the explicit answers.
pub open spec fn spec_inherited(
    parent: Seq<(Seq<char>, AnswerModel)>,
    inherit: Seq<Seq<char>>,
) -> Seq<(Seq<char>, AnswerModel)>
    decreases inherit.len(),
{
    if inherit.len() == 0 {
        Seq::empty()
    } else {
        spec_inherited(parent, inherit.drop_last()) + (match answer_lookup(
            parent,
            inherit.last(),
        ) {
            Some(info) => seq![(inherit.last(), info)],
            None => Seq::empty(),
        })
    }
}

/// Derives the answer map handed to a child archetype: the inherited
/// answers, then the explicit ones.
pub fn derive_answers(parent: &AnswerMap, inherit: &Vec<String>, explicit: &AnswerMap) -> (r:
    AnswerMap)
    ensures
        r@ == spec_inherited(parent@, crate::render::paths_model(inherit@)) + explicit@,
{
    let ghost names = crate::render::paths_model(inherit@);
    let mut r = AnswerMap::new();
    let n = inherit.len();
    proof {
        assert(names.subrange(0, 0) =~= Seq::<Seq<char>>::empty());
        assert(r@ =~= spec_inherited(parent@, names.subrange(0, 0)));
    }
    for k in 0..n
        invariant
            n == inherit@.len(),
            names == crate::render::paths_model(inherit@),
            names.len() == n,
            r@ == spec_inherited(parent@, names.subrange(0, k as int)),
        decreases n - k,
    {
        proof {
            assert(names.subrange(0, k + 1 as int).drop_last() =~= names.subrange(0, k as int));
            assert(names.subrange(0, k + 1 as int).last() == inherit@[k as int]@);
        }
        match parent.get(inherit[k].as_str()) {
            Some(info) => {
                let copy = info.duplicate();
                r.insert(inherit[k].as_str(), copy);
            },
            None => {},
        }
    }
    proof {
        assert(names.subrange(0, n as int) =~= names);
    }
    let m = explicit.len();
    let ghost inherited = r@;
    for j in 0..m
        invariant
            m == explicit@.len(),
            r@ == inherited + explicit@.subrange(0, j as int),
        decreases m - j,
    {
        let entry = explicit.entry_at(j);
        let copy = entry.1.duplicate();
        r.insert(entry.0.as_str(), copy);
        proof {
            assert(inherited + explicit@.subrange(0, j + 1 as int) =~= (inherited
                + explicit@.subrange(0, j as int)).push(explicit@[j as int]));
        }
    }
    proof {
        assert(explicit@.subrange(0, m as int) =~= explicit@);
    }
    r
}

/// A prompt capability: asks the user for a value. The engine calls it only
/// when not headless.
pub trait Prompter {
    fn prompt(&mut self, message: &str) -> String;
}

/// A prompter answering from a fixed script, in order; an exhausted script
/// answers with the empty string.
pub struct ScriptedPrompter {
    pub answers: Vec<String>,
    pub next: usize,
}

impl ScriptedPrompter {
    /// A prompter that will hand out the given answers in order.
    pub fn new(answers: Vec<String>) -> (r: ScriptedPrompter) {
        ScriptedPrompter { answers, next: 0 }
    }
}

impl Prompter for ScriptedPrompter {
    fn prompt(&mut self, message: &str) -> String {
        if self.next < self.answers.len() {
            let r = self.answers[self.next].clone();
            self.next = self.next + 1;
            r
        } else {
            String::new()
        }
    }
}

/// The severity of a log effect.
#[derive(Clone, Copy, Debug, PartialEq, Eq, Structural)]
pub enum LogLevel {
    Trace,
    Debug,
    Info,
    Warn,
    Error,
}

/// One outward effect of executing actions, performed by the caller in
/// order: a log or output line, a subprocess to run, or a render request.
pub enum Effect {
    Log { level: LogLevel, message: String },
    Print { message: String },
    Display { message: String },
    Exec { command: String, args: Vec<String>, working_dir: String },
    RenderDirRequest { source: String, destination: String, context: Context, rules: RulesContext },
    RenderArchetypeRequest {
        source: String,
        destination: String,
        answers: AnswerMap,
        context: Context,
    },
}

/// The mathematical model of an effect.
#[verifier::ext_equal]
pub enum EffectModel {
    Log { level: LogLevel, message: Seq<char> },
    Print { message: Seq<char> },
    Display { message: Seq<char> },
    Exec { command: Seq<char>, args: Seq<Seq<char>>, working_dir: Seq<char> },
    RenderDirRequest {
        source: Seq<char>,
        destination: Seq<char>,
        context: Seq<(Seq<char>, ValueModel)>,
        rules: RulesModel,
    },
    RenderArchetypeRequest {
        source: Seq<char>,
        destination: Seq<char>,
        answers: Seq<(Seq<char>, AnswerModel)>,
        context: Seq<(Seq<char>, ValueModel)>,
    },
}

impl View for Effect {
    type V = EffectModel;

    open spec fn view(&self) -> EffectModel {
        match self {
            Effect::Log { level, message } => EffectModel::Log { level: *level, message: message@ },
            Effect::Print { message } => EffectModel::Print { message: message@ },
            Effect::Display { message } => EffectModel::Display { message: message@ },
            Effect::Exec { command, args, working_dir } => EffectModel::Exec {
                command: command@,
                args: Seq::new(args@.len(), |i: int| args[i]@),
                working_dir: working_dir@,
            },
            Effect::RenderDirRequest { source, destination, context, rules } => EffectModel::RenderDirRequest {
                source: source@,
                destination: destination@,
                context: context@,
                rules: rules@,
            },
            Effect::RenderArchetypeRequest {
                source,
                destination,
                answers,
                context,
            } => EffectModel::RenderArchetypeRequest {
                source: source@,
                destination: destination@,
                answers: answers@,
                context: context@,
            },
        }
    }
}

/// An inline directory render: a source directory, relative to the
/// archetype's root.
pub struct DirectoryOptions {
    pub source: String,
}

impl DirectoryOptions {
    /// Options rendering the given directory.
    pub fn new(source: &str) -> (r: DirectoryOptions)
        ensures
            r.source@ == source@,
    {
        DirectoryOptions { source: source.to_owned() }
    }
}

/// A nested archetype render: a location string, the names of answers
/// inherited from the parent, and explicit answers.
pub struct ArchetypeOptions {
    pub source: String,
    pub inherit_answers: Vec<String>,
    pub answers: AnswerMap,
}

impl ArchetypeOptions {
    /// Options rendering the archetype at the given location.
    pub fn new(source: &str) -> (r: ArchetypeOptions)
        ensures
            r.source@ == source@,
            r.inherit_answers@.len() == 0,
            r.answers@ == Seq::<(Seq<char>, AnswerModel)>::empty(),
    {
        ArchetypeOptions {
            source: source.to_owned(),
            inherit_answers: Vec::new(),
            answers: AnswerMap::new(),
        }
    }

    /// Also inherits the parent's answer under `name`.
    pub fn with_inherited_answer(self, name: String) -> (r: ArchetypeOptions) {
        let mut inherit = self.inherit_answers;
        inherit.push(name);
        ArchetypeOptions { inherit_answers: inherit, ..self }
    }

    /// Also answers `name` explicitly.
    pub fn with_answer(self, name: String, answer: AnswerInfo) -> (r: ArchetypeOptions) {
        let mut answers = self.answers;
        answers.insert(name.as_str(), answer);
        ArchetypeOptions { answers, ..self }
    }
}

/// What a `render` action renders: an inline directory or a nested
/// archetype.
pub enum RenderAction {
    Directory(DirectoryOptions),
    Archetype(ArchetypeOptions),
}

/// A conditional: a condition expression, a branch taken when it holds, and
/// an optional branch for when it does not.
pub struct IfAction {
    pub condition: String,
    pub then_actions: Vec<ActionId>,
    pub else_actions: Option<Vec<ActionId>>,
}

/// Iteration over the elements of a sequence-valued expression.
pub struct ForEachAction {
    pub name: String,
    pub in_expr: String,
    pub actions: Vec<ActionId>,
}

/// Inclusive integer range iteration.
pub struct ForAction {
    pub name: String,
    pub from: i64,
    pub to: i64,
    pub actions: Vec<ActionId>,
}

/// A shell command: the command and its arguments are templates, rendered
/// at execution time; the working directory is the destination.
pub struct ExecAction {
    pub command: String,
    pub args: Vec<String>,
}

/// One node of the action tree.
pub enum ActionId {
    SetVariables(Vec<(String, VariableInfo)>),
    Scope(Vec<ActionId>),
    Actions(Vec<ActionId>),
    Render(RenderAction),
    ForEach(ForEachAction),
    For(ForAction),
    Loop(Vec<ActionId>),
    Break,
    If(IfAction),
    Rules(Vec<RuleType>),
    Exec(ExecAction),
    LogTrace(String),
    LogDebug(String),
    LogInfo(String),
    LogWarn(String),
    LogError(String),
    Print(String),
    Display(String),
}

/// The manifest of an archetype: its description, engine requirements, root
/// action program, and content tree.
pub struct ArchetypeManifest {
    pub description: Option<String>,
    pub requirements: Option<String>,
    pub actions: Vec<ActionId>,
    pub tree: Vec<TreeEntry>,
}

/// A resolved source paired with its parsed manifest.
pub struct Archetype {
    pub source: Source,
    pub manifest: ArchetypeManifest,
}

impl Archetype {
    /// An archetype from a resolved source and its manifest.
    pub fn new(source: Source, manifest: ArchetypeManifest) -> (r: Archetype)
        ensures
            r.source == source,
            r.manifest == manifest,
    {
        Archetype { source, manifest }
    }

    /// The local path of the archetype's content.
    pub fn local_path(&self) -> (r: &str)
        ensures
            r@ == self.source.spec_local_path(),
    {
        self.source.local_path()
    }
}

impl Archetect {
    /// Loads an archetype: resolves the location to a local source, checks
    /// the engine requirements the caller read from that source, and pairs
    /// the source with the manifest. A git-shaped location must first be
    /// materialized by the git driver, which `ArchetypeError::RemoteSource`
    /// reports.
    pub fn load_archetype(
        &self,
        source: &str,
        relative_to: Option<&Source>,
        requirements: Option<&str>,
        manifest: ArchetypeManifest,
    ) -> (r: Result<Archetype, ArchetypeError>)
        ensures
            r matches Ok(a) ==> (a.source matches Source::LocalDirectory { .. } || a.source matches
                Source::LocalFile { .. }) && a.manifest == manifest && (match requirements {
                None => true,
                Some(c) => crate::source::semver_req_match(
                    c@,
                    crate::engine::engine_version_text(),
                ) == Some(true),
            }),
            !self.spec_offline() && crate::source::git_shaped(source@) ==> r matches Err(
                ArchetypeError::RemoteSource { .. },
            ),
            r matches Err(ArchetypeError::RemoteSource { url, .. }) ==> url@ == source@,
    {
        match Source::detect(self, source, relative_to) {
            Ok(crate::source::SourceResolution::Resolved(src)) => {
                match crate::source::verify_requirements(self, source, requirements) {
                    Ok(()) => Ok(Archetype::new(src, manifest)),
                    Err(e) => Err(crate::error::ArchetypeError::Source(e)),
                }
            },
            Ok(
                crate::source::SourceResolution::NeedsGit { url, clone_url: _, cache_path, gitref },
            ) => Err(crate::error::ArchetypeError::RemoteSource { url, cache_path, gitref }),
            Err(e) => Err(crate::error::ArchetypeError::Source(e)),
        }
    }
}

/// The value a matching answer supplies for a name, when one does.
pub open spec fn answer_value(m: Seq<(Seq<char>, AnswerModel)>, name: Seq<char>) -> Option<
    Seq<char>,
> {
    match answer_lookup(m, name) {
        Some(am) => am.value,
        None => None,
    }
}

/// Headless variable resolution, a pure function of its inputs: each
/// declared variable, in order, takes its matching answer's value, rendered
/// against the context so far, or else its default expression, rendered;
/// `None` when a variable has neither or a rendering fails.
pub open spec fn spec_populate_headless(
    variables: &Vec<(String, VariableInfo)>,
    i: int,
    answers: Seq<(Seq<char>, AnswerModel)>,
    ctx: Seq<(Seq<char>, ValueModel)>,
) -> Option<Seq<(Seq<char>, ValueModel)>>
    decreases variables@.len() - i,
{
    if i < 0 || i >= variables@.len() {
        Some(ctx)
    } else {
        let name = variables[i].0@;
        match answer_value(answers, name) {
            Some(v) => match crate::template::template_output(v, ctx) {
                None => None,
                Some(s) => spec_populate_headless(
                    variables,
                    i + 1,
                    answers,
                    ctx.push((name, ValueModel::Str(s))),
                ),
            },
            None => match variables[i].1.default {
                Some(d) => match crate::template::template_output(d@, ctx) {
                    None => None,
                    Some(s) => spec_populate_headless(
                        variables,
                        i + 1,
                        answers,
                        ctx.push((name, ValueModel::Str(s))),
                    ),
                },
                None => None,
            },
        }
    }
}

/// Resolves the declared variables into the context, in declaration order,
/// so later variables may reference earlier ones. Each variable takes, in
/// order: a matching answer's value, rendered; when headless, the default
/// expression, rendered, or a headless failure; otherwise a prompted value.
pub fn populate_context<P: Prompter>(
    archetect: &Archetect,
    variables: &Vec<(String, VariableInfo)>,
    answers: &AnswerMap,
    context: &mut Context,
    prompter: &mut P,
) -> (r: Result<(), ArchetectError>)
    ensures
        final(context)@.len() >= old(context)@.len(),
        final(context)@.subrange(0, old(context)@.len() as int) == old(context)@,
        r is Ok ==> final(context)@.len() == old(context)@.len() + variables@.len(),
        r is Ok ==> forall|j: int|
            0 <= j < variables@.len() ==> (#[trigger] final(context)@[old(context)@.len() + j]).0
                == variables@[j].0@,
        r is Ok ==> forall|j: int|
            0 <= j < variables@.len() ==> (#[trigger] final(context)@[old(context)@.len() + j]).1
                is Str && (match answer_value(answers@, variables@[j].0@) {
                Some(v) => final(context)@[old(context)@.len() + j].1 matches ValueModel::Str(sv)
                    && crate::template::template_output(
                    v,
                    final(context)@.subrange(0, old(context)@.len() + j),
                ) == Some(sv),
                None => true,
            }),
        archetect.spec_headless() ==> ((r is Ok <==> spec_populate_headless(
            variables,
            0,
            answers@,
            old(context)@,
        ) is Some) && (r is Ok ==> spec_populate_headless(variables, 0, answers@, old(context)@)
            == Some(final(context)@))),
        r matches Err(ArchetectError::Headless(missing)) ==> archetect.spec_headless() && exists|
            j: int,
        |
            0 <= j < variables@.len() && (#[trigger] variables@[j]).0@ == missing@
                && variables@[j].1.default is None && answer_value(answers@, missing@) is None,
        !archetect.spec_headless() ==> !(r matches Err(ArchetectError::Headless(_))),
{
    let n = variables.len();
    for j in 0..n
        invariant
            n == variables@.len(),
            context@.len() == old(context)@.len() + j,
            context@.subrange(0, old(context)@.len() as int) == old(context)@,
            forall|k: int|
                0 <= k < j ==> (#[trigger] context@[old(context)@.len() + k]).0
                    == variables@[k].0@,
            forall|k: int|
                0 <= k < j ==> (#[trigger] context@[old(context)@.len() + k]).1 is Str && (match
                answer_value(answers@, variables@[k].0@) {
                    Some(v) => context@[old(context)@.len() + k].1 matches ValueModel::Str(sv)
                        && crate::template::template_output(
                        v,
                        context@.subrange(0, old(context)@.len() + k),
                    ) == Some(sv),
                    None => true,
                }),
            archetect.spec_headless() ==> spec_populate_headless(
                variables,
                j as int,
                answers@,
                context@,
            ) == spec_populate_headless(variables, 0, answers@, old(context)@),
        decreases n - j,
    {
        let name = &variables[j].0;
        let info = &variables[j].1;
        let ghost pre = context@;
        let ghost vname = variables@[j as int].0@;
        let mut resolved: Option<String> = None;
        match answers.get(name.as_str()) {
            Some(answer) => {
                match &answer.value {
                    Some(v) => {
                        match render_template(v.as_str(), context) {
                            Some(s) => {
                                resolved = Some(s);
                            },
                            None => {
                                return Err(
                                    ArchetectError::Render(
                                        RenderError::StringRenderError {
                                            string: v.clone(),
                                            message: "the answer failed to render".to_owned(),
                                        },
                                    ),
                                );
                            },
                        }
                    },
                    None => {},
                }
            },
            None => {},
        }
        let value: String = match resolved {
            Some(s) => s,
            None => {
                proof {
                    assert(answer_value(answers@, vname) is None);
                }
                if archetect.headless() {
                    match &info.default {
                        Some(d) => {
                            match render_template(d.as_str(), context) {
                                Some(s) => s,
                                None => {
                                    return Err(
                                        ArchetectError::Render(
                                            RenderError::StringRenderError {
                                                string: d.clone(),
                                                message: "the default failed to render".to_owned(),
                                            },
                                        ),
                                    );
                                },
                            }
                        },
                        None => {
                            proof {
                                assert(variables@[j as int].0@ == name@);
                                assert(variables@[j as int].1.default is None);
                            }
                            return Err(ArchetectError::Headless(name.clone()));
                        },
                    }
                } else {
                    let text: &String = match &info.prompt {
                        Some(p) => p,
                        None => name,
                    };
                    prompter.prompt(text.as_str())
                }
            },
        };
        let ghost added: (Seq<char>, ValueModel) = (vname, ValueModel::Str(value@));
        context.insert(name.as_str(), Value::Str(value));
        proof {
            assert(context@ =~= pre.push(added));
            assert(context@.subrange(0, old(context)@.len() as int) =~= pre.subrange(
                0,
                old(context)@.len() as int,
            ));
            assert(pre =~= context@.subrange(0, old(context)@.len() + j));
            assert forall|k: int|
                #![trigger pre.subrange(0, old(context)@.len() + k)]
                0 <= k < j implies context@.subrange(0, old(context)@.len() + k) =~= pre.subrange(
                0,
                old(context)@.len() + k,
            ) by {}
            if archetect.spec_headless() {
                assert(spec_populate_headless(variables, j + 1, answers@, context@)
                    == spec_populate_headless(variables, j as int, answers@, pre));
            }
        }
    }
    Ok(())
}

/// The renderings of the arguments `i..` against a context; `None` when any
/// fails to render.
pub open spec fn rendered_args_from(
    args: &Vec<String>,
    i: int,
    ctx: Seq<(Seq<char>, ValueModel)>,
) -> Option<Seq<Seq<char>>>
    decreases args@.len() - i,
{
    if i < 0 || i >= args@.len() {
        Some(Seq::empty())
    } else {
        match crate::template::template_output(args[i]@, ctx) {
            None => None,
            Some(a) => match rendered_args_from(args, i + 1, ctx) {
                None => None,
                Some(rest) => Some(seq![a] + rest),
            },
        }
    }
}

/// The level and message template of a logging action; `None` for any other
/// action.
pub open spec fn log_parts(a: &ActionId) -> Option<(LogLevel, Seq<char>)> {
    match a {
        ActionId::LogTrace(m) => Some((LogLevel::Trace, m@)),
        ActionId::LogDebug(m) => Some((LogLevel::Debug, m@)),
        ActionId::LogInfo(m) => Some((LogLevel::Info, m@)),
        ActionId::LogWarn(m) => Some((LogLevel::Warn, m@)),
        ActionId::LogError(m) => Some((LogLevel::Error, m@)),
        _ => None,
    }
}

impl ActionId {
    /// Executes the action against the frame: the engine, the enclosing
    /// archetype, the destination, the rules and rendering contexts, the
    /// ambient answers, and the effect list. `fuel` bounds the iterations a
    /// `loop` action may run without a `break`. A `scope` or `loop` leaves
    /// both contexts as they were (a `scope` forwards a `break` observed
    /// inside it up to the enclosing frame).
    pub fn execute<P: Prompter>(
        &self,
        archetect: &Archetect,
        archetype: &Archetype,
        destination: &str,
        rules_context: &mut RulesContext,
        answers: &AnswerMap,
        context: &mut Context,
        prompter: &mut P,
        effects: &mut Vec<Effect>,
        fuel: u32,
    ) -> (r: Result<(), ArchetectError>)
        ensures
            final(context)@.len() >= old(context)@.len(),
            final(context)@.subrange(0, old(context)@.len() as int) == old(context)@,
            old(rules_context)@.break_triggered ==> final(rules_context)@.break_triggered,
            self matches ActionId::Scope(_) ==> final(context)@ == old(context)@
                && final(rules_context)@.rules == old(rules_context)@.rules
                && final(rules_context)@.overwrite == old(rules_context)@.overwrite,
            self matches ActionId::Loop(_) ==> final(context)@ == old(context)@
                && final(rules_context)@ == old(rules_context)@,
            self matches ActionId::ForEach(_) ==> final(context)@ == old(context)@,
            self matches ActionId::For(_) ==> final(context)@ == old(context)@,
            self matches ActionId::Break ==> final(rules_context)@ == (RulesModel {
                break_triggered: true,
                ..old(rules_context)@
            }) && final(context)@ == old(context)@ && final(effects)@ == old(effects)@ && r is Ok,
            self matches ActionId::Print(m) ==> final(context)@ == old(context)@ && (match r {
                Ok(_) => crate::template::template_output(m@, old(context)@) matches Some(out)
                    && final(effects)@.len() == old(effects)@.len() + 1
                    && final(effects)@.last()@ == (EffectModel::Print { message: out })
                    && final(effects)@.drop_last() == old(effects)@,
                Err(_) => crate::template::template_output(m@, old(context)@) is None
                    && final(effects)@ == old(effects)@,
            }),
            self matches ActionId::ForEach(a) ==> (r is Ok
                ==> crate::template::eval_value(a.in_expr@, old(context)@) matches Some(
                ValueModel::List(_),
            )),
            self matches ActionId::SetVariables(vars) ==> final(rules_context)@ == old(rules_context)@ && final(effects)@ == old(effects)@ && (r is Ok ==> final(context)@.len() == old(
                context,
            )@.len() + vars@.len() && (forall|j: int|
                0 <= j < vars@.len() ==> (#[trigger] final(context)@[old(context)@.len() + j]).0
                    == vars@[j].0@)) && (archetect.spec_headless() ==> ((r is Ok <==>
                spec_populate_headless(vars, 0, answers@, old(context)@) is Some) && (r is Ok
                ==> spec_populate_headless(vars, 0, answers@, old(context)@) == Some(
                final(context)@,
            )))),
            self matches ActionId::Display(m) ==> final(context)@ == old(context)@ && final(rules_context)@ == old(rules_context)@ && (match r {
                Ok(_) => crate::template::template_output(m@, old(context)@) matches Some(out)
                    && final(effects)@.len() == old(effects)@.len() + 1
                    && final(effects)@.last()@ == (EffectModel::Display { message: out })
                    && final(effects)@.drop_last() == old(effects)@,
                Err(_) => crate::template::template_output(m@, old(context)@) is None
                    && final(effects)@ == old(effects)@,
            }),
            log_parts(self) matches Some(lp) ==> final(context)@ == old(context)@ && final(rules_context)@ == old(rules_context)@ && (match r {
                Ok(_) => crate::template::template_output(lp.1, old(context)@) matches Some(out)
                    && final(effects)@.len() == old(effects)@.len() + 1
                    && final(effects)@.last()@ == (EffectModel::Log { level: lp.0, message: out })
                    && final(effects)@.drop_last() == old(effects)@,
                Err(_) => crate::template::template_output(lp.1, old(context)@) is None
                    && final(effects)@ == old(effects)@,
            }),
            self matches ActionId::Exec(a) ==> final(context)@ == old(context)@ && final(rules_context)@ == old(rules_context)@ && (match r {
                Ok(_) => crate::template::template_output(a.command@, old(context)@) matches Some(
                    cmd,
                ) && rendered_args_from(&a.args, 0, old(context)@) matches Some(ras) && final(effects)@.len() == old(effects)@.len() + 1 && final(effects)@.last()@ == (EffectModel::Exec {
                    command: cmd,
                    args: ras,
                    working_dir: destination@,
                }) && final(effects)@.drop_last() == old(effects)@,
                Err(_) => (crate::template::template_output(a.command@, old(context)@) is None
                    || rendered_args_from(&a.args, 0, old(context)@) is None) && final(effects)@
                    == old(effects)@,
            }),
            self matches ActionId::Render(ra) ==> final(context)@ == old(context)@ && final(rules_context)@ == old(rules_context)@ && r is Ok && final(effects)@.len() == old(effects)@.len() + 1
                && final(effects)@.drop_last() == old(effects)@ && (match ra {
                RenderAction::Directory(opts) => final(effects)@.last()@
                    == (EffectModel::RenderDirRequest {
                    source: crate::source::join_paths(archetype.source.spec_directory(), opts.source@),
                    destination: destination@,
                    context: old(context)@,
                    rules: old(rules_context)@,
                }),
                RenderAction::Archetype(opts) => final(effects)@.last()@
                    == (EffectModel::RenderArchetypeRequest {
                    source: opts.source@,
                    destination: destination@,
                    answers: spec_inherited(
                        answers@,
                        crate::render::paths_model(opts.inherit_answers@),
                    ) + opts.answers@,
                    context: old(context)@,
                }),
            }),
            self matches ActionId::Rules(muts) ==> final(context)@ == old(context)@ && final(effects)@ == old(effects)@ && r is Ok && final(rules_context)@
                == crate::rules::apply_mutations_from(muts, 0, old(rules_context)@),
            self matches ActionId::If(a) ==> (crate::template::eval_condition(
                a.condition@,
                old(context)@,
            ) is None ==> r is Err),
            self matches ActionId::If(a) ==> ((crate::template::eval_condition(
                a.condition@,
                old(context)@,
            ) == Some(false) && a.else_actions is None) ==> r is Ok && final(context)@ == old(context)@ && final(effects)@ == old(effects)@ && final(rules_context)@ == old(rules_context)@),
            self matches ActionId::Actions(l) ==> (l@.len() == 0 ==> r is Ok && final(context)@
                == old(context)@ && final(effects)@ == old(effects)@ && final(rules_context)@
                == old(rules_context)@),
        decreases fuel, self, 0int,
    {
        match self {
            ActionId::SetVariables(variables) => {
                populate_context(archetect, variables, answers, context, prompter)
            },
            ActionId::Render(action) => {
                match action {
                    RenderAction::Directory(opts) => {
                        let root = archetype.source.directory();
                        let spath = crate::source::exec_join_paths(
                            root.as_str(),
                            opts.source.as_str(),
                        );
                        let ghost pre = effects@;
                        effects.push(
                            Effect::RenderDirRequest {
                                source: spath,
                                destination: destination.to_owned(),
                                context: context.duplicate(),
                                rules: rules_context.duplicate(),
                            },
                        );
                        proof {
                            assert(effects@.drop_last() =~= pre);
                        }
                        Ok(())
                    },
                    RenderAction::Archetype(opts) => {
                        let derived = derive_answers(answers, &opts.inherit_answers, &opts.answers);
                        let ghost pre = effects@;
                        effects.push(
                            Effect::RenderArchetypeRequest {
                                source: opts.source.clone(),
                                destination: destination.to_owned(),
                                answers: derived,
                                context: context.duplicate(),
                            },
                        );
                        proof {
                            assert(effects@.drop_last() =~= pre);
                        }
                        Ok(())
                    },
                }
            },
            ActionId::Actions(action_ids) => {
                execute_list(
                    action_ids,
                    archetect,
                    archetype,
                    destination,
                    rules_context,
                    answers,
                    context,
                    prompter,
                    effects,
                    fuel,
                )
            },
            ActionId::LogTrace(message) => {
                log_effect(archetect, LogLevel::Trace, message, context, effects)
            },
            ActionId::LogDebug(message) => {
                log_effect(archetect, LogLevel::Debug, message, context, effects)
            },
            ActionId::LogInfo(message) => {
                log_effect(archetect, LogLevel::Info, message, context, effects)
            },
            ActionId::LogWarn(message) => {
                log_effect(archetect, LogLevel::Warn, message, context, effects)
            },
            ActionId::LogError(message) => {
                log_effect(archetect, LogLevel::Error, message, context, effects)
            },
            ActionId::Print(message) => {
                match render_template(message.as_str(), context) {
                    Some(out) => {
                        effects.push(Effect::Print { message: out });
                        Ok(())
                    },
                    None => Err(
                        ArchetectError::Render(
                            RenderError::StringRenderError {
                                string: message.clone(),
                                message: "the message failed to render".to_owned(),
                            },
                        ),
                    ),
                }
            },
            ActionId::Display(message) => {
                match render_template(message.as_str(), context) {
                    Some(out) => {
                        effects.push(Effect::Display { message: out });
                        Ok(())
                    },
                    None => Err(
                        ArchetectError::Render(
                            RenderError::StringRenderError {
                                string: message.clone(),
                                message: "the message failed to render".to_owned(),
                            },
                        ),
                    ),
                }
            },
            ActionId::Scope(actions) => {
                let mut scope_rules = rules_context.duplicate();
                let mut scope_context = context.duplicate();
                let outcome = execute_list(
                    actions,
                    archetect,
                    archetype,
                    destination,
                    &mut scope_rules,
                    answers,
                    &mut scope_context,
                    prompter,
                    effects,
                    fuel,
                );
                if scope_rules.break_triggered() {
                    rules_context.set_break_triggered(true);
                }
                outcome
            },
            ActionId::If(action) => {
                let condv = str_to_chars(action.condition.as_str());
                match exec_eval_condition(&condv, context) {
                    None => Err(
                        ArchetectError::Render(
                            RenderError::StringRenderError {
                                string: action.condition.clone(),
                                message: "the condition failed to evaluate".to_owned(),
                            },
                        ),
                    ),
                    Some(truth) => {
                        if truth {
                            execute_list(
                                &action.then_actions,
                                archetect,
                                archetype,
                                destination,
                                rules_context,
                                answers,
                                context,
                                prompter,
                                effects,
                                fuel,
                            )
                        } else {
                            match &action.else_actions {
                                Some(else_actions) => {
                                    execute_list(
                                        else_actions,
                                        archetect,
                                        archetype,
                                        destination,
                                        rules_context,
                                        answers,
                                        context,
                                        prompter,
                                        effects,
                                        fuel,
                                    )
                                },
                                None => Ok(()),
                            }
                        }
                    },
                }
            },
            ActionId::Rules(mutations) => {
                let n = mutations.len();
                for i in 0..n
                    invariant
                        n == mutations@.len(),
                        self matches ActionId::Rules(_),
                        context@ == old(context)@,
                        effects@ == old(effects)@,
                        old(rules_context)@.break_triggered
                            ==> rules_context@.break_triggered,
                        crate::rules::apply_mutations_from(mutations, i as int, rules_context@)
                            == crate::rules::apply_mutations_from(
                            mutations,
                            0,
                            old(rules_context)@,
                        ),
                    decreases n - i,
                {
                    let mutation = mutations[i].duplicate();
                    proof {
                        assert(mutation@ == mutations@[i as int]@);
                    }
                    rules_context.apply(mutation);
                }
                Ok(())
            },
            ActionId::ForEach(action) => {
                let exprv = str_to_chars(action.in_expr.as_str());
                match exec_eval_value(&exprv, context) {
                    None => Err(
                        ArchetectError::Render(
                            RenderError::StringRenderError {
                                string: action.in_expr.clone(),
                                message: "the expression failed to evaluate".to_owned(),
                            },
                        ),
                    ),
                    Some(value) => {
                        match value {
                            Value::List(items) => {
                                let mut scoped = context.duplicate();
                                let n = items.len();
                                #[verifier::loop_isolation(false)]
                                for idx in 0..n
                                    invariant
                                        n == items@.len(),
                                        context@ == old(context)@,
                                        old(rules_context)@.break_triggered
                                            ==> rules_context@.break_triggered,
                                    decreases n - idx,
                                {
                                    if rules_context.break_triggered() {
                                        break ;
                                    }
                                    proof {
                                        vstd::std_specs::vec::axiom_vec_index_decreases(
                                            items,
                                            idx as int,
                                        );
                                    }
                                    scoped.insert(
                                        action.name.as_str(),
                                        dup_value(&items[idx]),
                                    );
                                    let outcome = execute_list(
                                        &action.actions,
                                        archetect,
                                        archetype,
                                        destination,
                                        rules_context,
                                        answers,
                                        &mut scoped,
                                        prompter,
                                        effects,
                                        fuel,
                                    );
                                    match outcome {
                                        Ok(()) => {},
                                        Err(err) => {
                                            return Err(err);
                                        },
                                    }
                                }
                                Ok(())
                            },
                            _ => Err(
                                ArchetectError::Render(
                                    RenderError::StringRenderError {
                                        string: action.in_expr.clone(),
                                        message: "the expression is not a sequence".to_owned(),
                                    },
                                ),
                            ),
                        }
                    },
                }
            },
            ActionId::For(action) => {
                let mut scoped = context.duplicate();
                let mut cur = action.from;
                #[verifier::loop_isolation(false)]
                while cur <= action.to
                    invariant
                        context@ == old(context)@,
                        old(rules_context)@.break_triggered ==> rules_context@.break_triggered,
                        action.from <= cur,
                    decreases action.to - cur + 1,
                {
                    if rules_context.break_triggered() {
                        break ;
                    }
                    scoped.insert(action.name.as_str(), Value::Int(cur));
                    let outcome = execute_list(
                        &action.actions,
                        archetect,
                        archetype,
                        destination,
                        rules_context,
                        answers,
                        &mut scoped,
                        prompter,
                        effects,
                        fuel,
                    );
                    match outcome {
                        Ok(()) => {},
                        Err(err) => {
                            return Err(err);
                        },
                    }
                    if cur == action.to {
                        break ;
                    }
                    cur = cur + 1;
                }
                Ok(())
            },
            ActionId::Loop(actions) => {
                let mut loop_context = context.duplicate();
                let mut loop_rules = rules_context.duplicate();
                loop_rules.set_break_triggered(false);
                let lc = LoopContext::new();
                execute_loop(
                    actions,
                    archetect,
                    archetype,
                    destination,
                    &mut loop_rules,
                    answers,
                    &mut loop_context,
                    prompter,
                    effects,
                    lc,
                    fuel,
                )
            },
            ActionId::Break => {
                rules_context.set_break_triggered(true);
                Ok(())
            },
            ActionId::Exec(action) => {
                let command = match render_template(action.command.as_str(), context) {
                    Some(c) => c,
                    None => {
                        return Err(
                            ArchetectError::Render(
                                RenderError::StringRenderError {
                                    string: action.command.clone(),
                                    message: "the command failed to render".to_owned(),
                                },
                            ),
                        );
                    },
                };
                let mut rendered_args: Vec<String> = Vec::new();
                let n = action.args.len();
                for i in 0..n
                    invariant
                        n == action.args@.len(),
                        self matches ActionId::Exec(aa) && aa == action,
                        context@ == old(context)@,
                        rules_context@ == old(rules_context)@,
                        effects@ == old(effects)@,
                        crate::template::template_output(action.command@, old(context)@) == Some(
                            command@,
                        ),
                        ({
                            let full = rendered_args_from(&action.args, 0, old(context)@);
                            match rendered_args_from(&action.args, i as int, old(context)@) {
                                None => full is None,
                                Some(tail) => full == Some(
                                    crate::render::paths_model(rendered_args@) + tail,
                                ),
                            }
                        }),
                    decreases n - i,
                {
                    match render_template(action.args[i].as_str(), context) {
                        Some(a) => {
                            let ghost prev = rendered_args@;
                            rendered_args.push(a);
                            proof {
                                assert(crate::render::paths_model(rendered_args@)
                                    =~= crate::render::paths_model(prev).push(a@));
                                assert forall|t: int|
                                    0 <= t < rendered_args@.len() implies crate::render::paths_model(
                                    rendered_args@,
                                )[t] == (crate::render::paths_model(prev) + seq![a@])[t] by {}
                                assert(crate::render::paths_model(rendered_args@)
                                    =~= crate::render::paths_model(prev) + seq![a@]);
                            }
                        },
                        None => {
                            proof {
                                assert(crate::template::template_output(
                                    action.args@[i as int]@,
                                    old(context)@,
                                ) is None);
                                assert(rendered_args_from(
                                    &action.args,
                                    i as int,
                                    old(context)@,
                                ) is None);
                            }
                            return Err(
                                ArchetectError::Render(
                                    RenderError::StringRenderError {
                                        string: action.args[i].clone(),
                                        message: "an argument failed to render".to_owned(),
                                    },
                                ),
                            );
                        },
                    }
                }
                proof {
                    assert(crate::render::paths_model(rendered_args@) + Seq::<Seq<char>>::empty()
                        =~= crate::render::paths_model(rendered_args@));
                }
                let ghost pre = effects@;
                effects.push(
                    Effect::Exec {
                        command,
                        args: rendered_args,
                        working_dir: destination.to_owned(),
                    },
                );
                proof {
                    assert(effects@.drop_last() =~= pre);
                }
                Ok(())
            },
        }
    }
}

/// Renders a log message and appends the log effect.
fn log_effect(
    archetect: &Archetect,
    level: LogLevel,
    message: &String,
    context: &Context,
    effects: &mut Vec<Effect>,
) -> (r: Result<(), ArchetectError>)
    ensures
        match r {
            Ok(()) => crate::template::template_output(message@, context@) matches Some(out)
                && final(effects)@.len() == old(effects)@.len() + 1 && final(effects)@.last()@ == (
            EffectModel::Log { level, message: out }) && final(effects)@.drop_last() == old(effects)@,
            Err(_) => crate::template::template_output(message@, context@) is None && final(effects)@ == old(effects)@,
        },
{
    match render_template(message.as_str(), context) {
        Some(out) => {
            let ghost pre = effects@;
            effects.push(Effect::Log { level, message: out });
            proof {
                assert(effects@.drop_last() =~= pre);
            }
            Ok(())
        },
        None => Err(
            ArchetectError::Render(
                RenderError::StringRenderError {
                    string: message.clone(),
                    message: "the message failed to render".to_owned(),
                },
            ),
        ),
    }
}

/// Executes a list of actions in order, stopping early once a `break` has
/// been observed.
pub fn execute_list<P: Prompter>(
    action_ids: &Vec<ActionId>,
    archetect: &Archetect,
    archetype: &Archetype,
    destination: &str,
    rules_context: &mut RulesContext,
    answers: &AnswerMap,
    context: &mut Context,
    prompter: &mut P,
    effects: &mut Vec<Effect>,
    fuel: u32,
) -> (r: Result<(), ArchetectError>)
    ensures
        final(context)@.len() >= old(context)@.len(),
        final(context)@.subrange(0, old(context)@.len() as int) == old(context)@,
        old(rules_context)@.break_triggered ==> final(rules_context)@.break_triggered,
        action_ids@.len() == 0 ==> r is Ok && final(context)@ == old(context)@ && final(effects)@
            == old(effects)@ && final(rules_context)@ == old(rules_context)@,
    decreases fuel, action_ids, 1int,
{
    if action_ids.len() == 0 {
        proof {
            assert(context@.subrange(0, context@.len() as int) =~= context@);
        }
        return Ok(());
    }
    let n = action_ids.len();
    proof {
        assert(context@.subrange(0, old(context)@.len() as int) =~= old(context)@);
    }
    for i in 0..n
        invariant
            n == action_ids@.len(),
            old(rules_context)@.break_triggered ==> rules_context@.break_triggered,
            context@.len() >= old(context)@.len(),
            context@.subrange(0, old(context)@.len() as int) == old(context)@,
        decreases n - i,
    {
        proof {
            vstd::std_specs::vec::axiom_vec_index_decreases(*action_ids, i as int);
        }
        let ghost before_child = context@;
        let outcome = action_ids[i].execute(
            archetect,
            archetype,
            destination,
            rules_context,
            answers,
            context,
            prompter,
            effects,
            fuel,
        );
        proof {
            lemma_prefix_chain(old(context)@, before_child, context@);
        }
        match outcome {
            Ok(()) => {},
            Err(err) => {
                return Err(err);
            },
        }
        if rules_context.break_triggered() {
            break ;
        }
    }
    Ok(())
}

/// Prefix preservation is transitive: a sequence that extends `b`, which
/// itself extends `a`, still extends `a`.
pub proof fn lemma_prefix_chain(a: Seq<(Seq<char>, ValueModel)>, b: Seq<(Seq<char>, ValueModel)>, c: Seq<(Seq<char>, ValueModel)>)
    requires
        a.len() <= b.len() <= c.len(),
        b.subrange(0, a.len() as int) == a,
        c.subrange(0, b.len() as int) == b,
    ensures
        c.subrange(0, a.len() as int) == a,
{
    assert forall|i: int| 0 <= i < a.len() implies c.subrange(0, a.len() as int)[i] == a[i] by {
        assert(c.subrange(0, b.len() as int)[i] == c[i]);
        assert(b.subrange(0, a.len() as int)[i] == b[i]);
    }
    assert(c.subrange(0, a.len() as int) =~= a);
}

/// Runs a `loop` action's body repeatedly against the loop's own contexts,
/// inserting the `loop` variable before each iteration, until a `break` is
/// observed. Returns without error only when a `break` executed within the
/// iteration budget.
pub fn execute_loop<P: Prompter>(
    body: &Vec<ActionId>,
    archetect: &Archetect,
    archetype: &Archetype,
    destination: &str,
    rules_context: &mut RulesContext,
    answers: &AnswerMap,
    context: &mut Context,
    prompter: &mut P,
    effects: &mut Vec<Effect>,
    lc: LoopContext,
    fuel: u32,
) -> (r: Result<(), ArchetectError>)
    ensures
        r is Ok ==> final(rules_context)@.break_triggered,
        old(rules_context)@.break_triggered ==> final(rules_context)@.break_triggered,
        final(context)@.len() >= old(context)@.len(),
        final(context)@.subrange(0, old(context)@.len() as int) == old(context)@,
        !old(rules_context)@.break_triggered && fuel > 0 ==> final(context)@.len() > old(
            context,
        )@.len() && final(context)@[old(context)@.len() as int] == (
            "loop"@,
            ValueModel::Dict(
                seq![
                    ("index"@, ValueModel::Int(lc.index as int)),
                    ("index0"@, ValueModel::Int(lc.index0 as int)),
                ],
            ),
        ),
    decreases fuel, body, 2int,
{
    if rules_context.break_triggered() {
        proof {
            assert(context@.subrange(0, context@.len() as int) =~= context@);
        }
        return Ok(());
    }
    if fuel == 0 {
        proof {
            assert(context@.subrange(0, context@.len() as int) =~= context@);
        }
        return Err(ArchetectError::IterationLimit);
    }
    let mut loop_var: Vec<(String, Value)> = Vec::new();
    loop_var.push(("index".to_owned(), Value::Int(lc.index)));
    loop_var.push(("index0".to_owned(), Value::Int(lc.index0)));
    let ghost binding = (
        "loop"@,
        ValueModel::Dict(
            seq![
                ("index"@, ValueModel::Int(lc.index as int)),
                ("index0"@, ValueModel::Int(lc.index0 as int)),
            ],
        ),
    );
    proof {
        crate::context::lemma_dict_model_index(&loop_var, 0);
        assert(crate::context::dict_model_from(&loop_var, 0)[0 - 0] == (
            loop_var@[0].0@,
            crate::context::value_model(&loop_var@[0].1),
        ));
        assert(crate::context::dict_model_from(&loop_var, 0)[1 - 0] == (
            loop_var@[1].0@,
            crate::context::value_model(&loop_var@[1].1),
        ));
        assert(crate::context::dict_model_from(&loop_var, 0) =~= seq![
            ("index"@, ValueModel::Int(lc.index as int)),
            ("index0"@, ValueModel::Int(lc.index0 as int)),
        ]);
    }
    let ghost ctx0 = context@;
    context.insert("loop", Value::Dict(loop_var));
    proof {
        assert(context@ =~= ctx0.push(binding));
        assert(context@.subrange(0, ctx0.len() as int) =~= ctx0);
    }
    let ghost ctx1 = context@;
    let outcome = execute_list(
        body,
        archetect,
        archetype,
        destination,
        rules_context,
        answers,
        context,
        prompter,
        effects,
        fuel,
    );
    proof {
        lemma_prefix_chain(ctx0, ctx1, context@);
        assert(context@[ctx0.len() as int] == binding) by {
            assert(context@.subrange(0, ctx1.len() as int)[ctx0.len() as int] == context@[ctx0.len() as int]);
        }
    }
    match outcome {
        Ok(()) => {},
        Err(err) => {
            return Err(err);
        },
    }
    let mut next = lc;
    if next.index < i64::MAX && next.index0 < i64::MAX {
        next.increment();
    }
    let ghost ctx2 = context@;
    let result = execute_loop(
        body,
        archetect,
        archetype,
        destination,
        rules_context,
        answers,
        context,
        prompter,
        effects,
        next,
        fuel - 1,
    );
    proof {
        lemma_prefix_chain(ctx0, ctx2, context@);
        assert(context@[ctx0.len() as int] == binding) by {
            assert(context@.subrange(0, ctx2.len() as int)[ctx0.len() as int] == context@[ctx0.len() as int]);
            assert(ctx2.subrange(0, ctx1.len() as int)[ctx0.len() as int] == ctx2[ctx0.len() as int]);
        }
    }
    result
}

} // verus!
