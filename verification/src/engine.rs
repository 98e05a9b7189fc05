//! The engine: an `Archetect` value built once per scaffolding invocation,
//! holding the layout, the template engine and the offline / headless
//! switches, with the string, path and content rendering entry points.

use vstd::prelude::*;
use vstd::string::*;
use crate::context::Context;
use crate::error::{ArchetectError, RenderError, SystemError};
use crate::rules::{file_name, strip_trailing_slashes};
use crate::source::{exec_join_paths, join_paths, shell_expand_tilde};
use crate::strings::{str_to_chars, chars_to_string};
use crate::template::{template_output, copy_range};

verus! {

broadcast use vstd::std_specs::vec::axiom_spec_len;

/// The version of this engine, against which archetype requirements are
/// checked.
pub open spec fn engine_version_text() -> Seq<char> {
    "0.1.0"@
}

/// A provider of the on-disk layout: where configuration, the git cache and
/// the catalog cache live. Callers may supply their own.
pub trait SystemLayout {
    fn configs_dir(&self) -> String;

    fn git_cache_dir(&self) -> String;

    fn catalog_cache_dir(&self) -> String;
}

/// The layout directories, captured once at engine build time.
pub struct StoredLayout {
    configs: String,
    git_cache: String,
    catalog_cache: String,
}

/// The mathematical model of a captured layout: its three directories.
#[verifier::ext_equal]
pub struct LayoutModel {
    pub configs: Seq<char>,
    pub git_cache: Seq<char>,
    pub catalog_cache: Seq<char>,
}

impl View for StoredLayout {
    type V = LayoutModel;

    closed spec fn view(&self) -> LayoutModel {
        LayoutModel {
            configs: self.configs@,
            git_cache: self.git_cache@,
            catalog_cache: self.catalog_cache@,
        }
    }
}

impl SystemLayout for StoredLayout {
    fn configs_dir(&self) -> String {
        self.configs.clone()
    }

    fn git_cache_dir(&self) -> String {
        self.git_cache.clone()
    }

    fn catalog_cache_dir(&self) -> String {
        self.catalog_cache.clone()
    }
}

/// A layout rooted at a caller-supplied directory.
pub struct RootedSystemLayout {
    root: String,
}

impl RootedSystemLayout {
    /// A layout under the given root directory.
    pub fn new(root: &str) -> (r: Result<RootedSystemLayout, SystemError>)
        ensures
            r is Ok,
    {
        Ok(RootedSystemLayout { root: root.to_owned() })
    }
}

impl SystemLayout for RootedSystemLayout {
    fn configs_dir(&self) -> String {
        exec_join_paths(self.root.as_str(), "etc")
    }

    fn git_cache_dir(&self) -> String {
        exec_join_paths(self.root.as_str(), "git")
    }

    fn catalog_cache_dir(&self) -> String {
        exec_join_paths(self.root.as_str(), "catalogs")
    }
}

/// A layout following the platform's conventions, under the user's home
/// directory.
pub struct NativeSystemLayout {
    root: String,
}

impl NativeSystemLayout {
    /// A layout under the user's home directory.
    pub fn new() -> (r: Result<NativeSystemLayout, SystemError>)
        ensures
            r is Ok,
    {
        Ok(NativeSystemLayout { root: shell_expand_tilde("~/.archetect") })
    }
}

impl SystemLayout for NativeSystemLayout {
    fn configs_dir(&self) -> String {
        exec_join_paths(self.root.as_str(), "etc")
    }

    fn git_cache_dir(&self) -> String {
        exec_join_paths(self.root.as_str(), "git")
    }

    fn catalog_cache_dir(&self) -> String {
        exec_join_paths(self.root.as_str(), "catalogs")
    }
}

/// The kinds of layout an engine can be built with.
pub enum LayoutType {
    Native,
    DotHome,
    Temp,
}

/// The default layout, under `~/.archetect`.
pub fn dot_home_layout() -> (r: Result<RootedSystemLayout, SystemError>)
    ensures
        r is Ok,
{
    RootedSystemLayout::new(shell_expand_tilde("~/.archetect").as_str())
}

/// A layout under the system's temporary directory.
pub fn temp_layout() -> (r: Result<RootedSystemLayout, SystemError>)
    ensures
        r is Ok,
{
    RootedSystemLayout::new("/tmp/archetect")
}

/// The stateless template engine façade.
pub struct TemplateEngine {}

impl TemplateEngine {
    /// Renders a template string against a context.
    pub fn render_str(&self, template: &str, context: &Context) -> (r: Result<String, RenderError>)
        ensures
            match r {
                Ok(out) => template_output(template@, context@) == Some(out@),
                Err(e) => template_output(template@, context@) is None && (e matches
                    RenderError::StringRenderError { string, .. } && string@ == template@),
            },
    {
        match crate::template::render_template(template, context) {
            Some(out) => Ok(out),
            None => Err(
                RenderError::StringRenderError {
                    string: template.to_owned(),
                    message: "the template is malformed or an expression failed".to_owned(),
                },
            ),
        }
    }
}

/// The engine: layout, template engine, offline and headless flags, and the
/// set of enabled switches.
pub struct Archetect {
    tera: TemplateEngine,
    paths: StoredLayout,
    offline: bool,
    headless: bool,
    switches: Vec<String>,
}

impl Archetect {
    /// Whether the engine runs offline.
    pub closed spec fn spec_offline(&self) -> bool {
        self.offline
    }

    /// Whether the engine runs headless.
    pub closed spec fn spec_headless(&self) -> bool {
        self.headless
    }

    /// The enabled switch names.
    pub closed spec fn spec_switches(&self) -> Seq<Seq<char>> {
        Seq::new(self.switches@.len(), |i: int| self.switches@[i]@)
    }

    /// Whether a switch is enabled.
    pub open spec fn spec_has_switch(&self, name: Seq<char>) -> bool {
        exists|i: int| 0 <= i < self.spec_switches().len() && self.spec_switches()[i] == name
    }

    /// The layout captured when the engine was built.
    pub closed spec fn spec_layout(&self) -> LayoutModel {
        self.paths@
    }

    /// The layout captured when the engine was built.
    pub fn layout(&self) -> (r: &StoredLayout)
        ensures
            r@ == self.spec_layout(),
    {
        &self.paths
    }

    /// The git cache directory of the captured layout.
    pub fn git_cache_dir(&self) -> (r: String)
        ensures
            r@ == self.spec_layout().git_cache,
    {
        self.paths.git_cache.clone()
    }

    /// Whether the engine runs offline.
    pub fn offline(&self) -> (r: bool)
        ensures
            r == self.spec_offline(),
    {
        self.offline
    }

    /// Whether the engine runs headless.
    pub fn headless(&self) -> (r: bool)
        ensures
            r == self.spec_headless(),
    {
        self.headless
    }

    /// A builder for an engine.
    pub fn builder() -> (r: ArchetectBuilder)
        ensures
            !r.spec_offline() && !r.spec_headless(),
            r.spec_layout() is None,
            r.spec_switches() == Seq::<Seq<char>>::empty(),
    {
        ArchetectBuilder::new()
    }

    /// An engine with the default layout and flags: online, interactive, no
    /// switches enabled.
    pub fn build() -> (r: Result<Archetect, ArchetectError>)
        ensures
            r is Ok,
            r matches Ok(a) ==> !a.spec_offline() && !a.spec_headless() && a.spec_switches()
                == Seq::<Seq<char>>::empty(),
    {
        ArchetectBuilder::new().build()
    }

    /// The template engine.
    pub fn template_engine(&self) -> (r: &TemplateEngine) {
        &self.tera
    }

    /// Enables a switch; enabling one twice is the same as enabling it once.
    pub fn enable_switch(&mut self, switch: &str)
        ensures
            final(self).spec_switches() == (if old(self).spec_has_switch(switch@) {
                old(self).spec_switches()
            } else {
                old(self).spec_switches().push(switch@)
            }),
            final(self).spec_offline() == old(self).spec_offline(),
            final(self).spec_headless() == old(self).spec_headless(),
    {
        let n = self.switches.len();
        for i in 0..n
            invariant
                n == self.switches@.len(),
                forall|j: int| 0 <= j < i ==> self.spec_switches()[j] != switch@,
                self == old(self),
        {
            if crate::strings::str_eq(self.switches[i].as_str(), switch) {
                proof {
                    assert(self.spec_switches()[i as int] == switch@);
                }
                return ;
            }
        }
        proof {
            assert(!self.spec_has_switch(switch@));
        }
        let ghost before = self.spec_switches();
        self.switches.push(switch.to_owned());
        proof {
            assert forall|j: int|
                0 <= j < self.spec_switches().len() implies self.spec_switches()[j] == before.push(
                switch@,
            )[j] by {}
            assert(self.spec_switches() =~= before.push(switch@));
        }
    }

    /// The enabled switches, in the order they were first enabled.
    pub fn switches(&self) -> (r: &Vec<String>)
        ensures
            r@.len() == self.spec_switches().len(),
            forall|i: int| 0 <= i < r@.len() ==> r@[i]@ == self.spec_switches()[i],
    {
        &self.switches
    }

    /// Whether a switch is enabled.
    pub fn has_switch(&self, name: &str) -> (r: bool)
        ensures
            r == self.spec_has_switch(name@),
    {
        let n = self.switches.len();
        for i in 0..n
            invariant
                n == self.switches@.len(),
                forall|j: int| 0 <= j < i ==> self.spec_switches()[j] != name@,
        {
            if crate::strings::str_eq(self.switches[i].as_str(), name) {
                proof {
                    assert(self.spec_switches()[i as int] == name@);
                }
                return true;
            }
        }
        false
    }

    /// The engine's version.
    pub fn version(&self) -> (r: String)
        ensures
            r@ == engine_version_text(),
    {
        "0.1.0".to_owned()
    }

    /// Renders a template string against a context.
    pub fn render_string(&self, template: &str, context: &Context) -> (r: Result<
        String,
        RenderError,
    >)
        ensures
            match r {
                Ok(out) => template_output(template@, context@) == Some(out@),
                Err(e) => template_output(template@, context@) is None && (e matches
                    RenderError::StringRenderError { string, .. } && string@ == template@),
            },
    {
        self.tera.render_str(template, context)
    }

    /// Renders file contents (read by the caller) against a context; the
    /// path only labels errors.
    pub fn render_contents(&self, path: &str, contents: &str, context: &Context) -> (r: Result<
        String,
        RenderError,
    >)
        ensures
            match r {
                Ok(out) => template_output(contents@, context@) == Some(out@),
                Err(e) => template_output(contents@, context@) is None && (e matches
                    RenderError::FileRenderError { path: p, .. } && p@ == path@),
            },
    {
        match crate::template::render_template(contents, context) {
            Some(out) => Ok(out),
            None => Err(
                RenderError::FileRenderError {
                    path: path.to_owned(),
                    message: "the file's contents failed to render".to_owned(),
                },
            ),
        }
    }

    /// Renders the file name a path names (its final component, ignoring
    /// trailing separators) against a context, leaving the leading
    /// directories out.
    pub fn render_path(&self, path: &str, context: &Context) -> (r: Result<String, RenderError>)
        ensures
            match r {
                Ok(out) => template_output(file_name(path@), context@) == Some(out@),
                Err(e) => template_output(file_name(path@), context@) is None && (e matches
                    RenderError::PathRenderError { path: p, .. } && p@ == path@),
            },
    {
        let mut v = str_to_chars(path);
        while v.len() > 0 && v[v.len() - 1] == '/'
            invariant
                strip_trailing_slashes(v@) == strip_trailing_slashes(path@),
            decreases v@.len(),
        {
            proof {
                assert(v@.drop_last() =~= v@.subrange(0, v@.len() - 1));
            }
            v.pop();
        }
        proof {
            assert(strip_trailing_slashes(v@) == v@);
            assert(v@.subrange(0, v@.len() as int) =~= v@);
        }
        let start = crate::rules::exec_last_component_start(&v, 0);
        let comp = chars_to_string(&copy_range(&v, start, v.len()));
        match crate::template::render_template(comp.as_str(), context) {
            Some(out) => Ok(out),
            None => Err(
                RenderError::PathRenderError {
                    path: path.to_owned(),
                    message: "the path component failed to render".to_owned(),
                },
            ),
        }
    }

    /// The destination for a source entry: the parent destination joined
    /// with the entry's rendered file name.
    pub fn render_destination(&self, parent: &str, child: &str, context: &Context) -> (r: Result<
        String,
        RenderError,
    >)
        ensures
            match r {
                Ok(d) => template_output(file_name(child@), context@) matches Some(name) && d@
                    == join_paths(parent@, name),
                Err(e) => template_output(file_name(child@), context@) is None,
            },
    {
        match self.render_path(child, context) {
            Ok(name) => Ok(exec_join_paths(parent, name.as_str())),
            Err(e) => Err(e),
        }
    }
}

/// Rendering a path component that holds no expression marker yields the
/// component unchanged, whatever the context supplies.
pub proof fn lemma_path_render_identity(
    path: Seq<char>,
    ctx: Seq<(Seq<char>, crate::context::ValueModel)>,
)
    requires
        crate::template::find_two(file_name(path), 0, '{', '{') is None,
    ensures
        template_output(file_name(path), ctx) == Some(file_name(path)),
{
    crate::template::lemma_render_no_marker(file_name(path), ctx);
}

/// A builder collecting the engine's layout and flags.
pub struct ArchetectBuilder {
    layout: Option<StoredLayout>,
    offline: bool,
    headless: bool,
    switches: Vec<String>,
}

impl ArchetectBuilder {
    /// Whether the built engine will run offline.
    pub closed spec fn spec_offline(&self) -> bool {
        self.offline
    }

    /// Whether the built engine will run headless.
    pub closed spec fn spec_headless(&self) -> bool {
        self.headless
    }

    /// The explicitly supplied layout, when one was.
    pub closed spec fn spec_layout(&self) -> Option<LayoutModel> {
        match self.layout {
            Some(l) => Some(l@),
            None => None,
        }
    }

    /// The switch names the built engine will start with.
    pub closed spec fn spec_switches(&self) -> Seq<Seq<char>> {
        Seq::new(self.switches@.len(), |i: int| self.switches@[i]@)
    }

    /// A builder with the default flags: online, interactive, no switches,
    /// no explicit layout.
    pub fn new() -> (r: ArchetectBuilder)
        ensures
            !r.spec_offline() && !r.spec_headless(),
            r.spec_layout() is None,
            r.spec_switches() == Seq::<Seq<char>>::empty(),
    {
        ArchetectBuilder { layout: None, offline: false, headless: false, switches: Vec::new() }
    }

    /// Builds the engine, carrying the flags, the switches, and the supplied
    /// layout; without an explicit layout, the dot-home layout is captured.
    pub fn build(self) -> (r: Result<Archetect, ArchetectError>)
        ensures
            r is Ok,
            r matches Ok(a) ==> a.spec_offline() == self.spec_offline() && a.spec_headless()
                == self.spec_headless() && a.spec_switches() == self.spec_switches() && (
            self.spec_layout() matches Some(m) ==> a.spec_layout() == m),
    {
        let paths: StoredLayout = match self.layout {
            Some(layout) => layout,
            None => {
                match dot_home_layout() {
                    Ok(layout) => StoredLayout {
                        configs: layout.configs_dir(),
                        git_cache: layout.git_cache_dir(),
                        catalog_cache: layout.catalog_cache_dir(),
                    },
                    Err(e) => {
                        return Err(ArchetectError::System(e));
                    },
                }
            },
        };
        Ok(
            Archetect {
                tera: TemplateEngine {  },
                paths,
                offline: self.offline,
                headless: self.headless,
                switches: self.switches,
            },
        )
    }

    /// Uses the given layout provider, captured immediately. The captured
    /// directories are whatever the provider's methods return; the provider
    /// is caller-supplied, so nothing more can be said of them.
    pub fn with_layout<P: SystemLayout>(self, layout: P) -> (r: ArchetectBuilder)
        ensures
            r.spec_offline() == self.spec_offline(),
            r.spec_headless() == self.spec_headless(),
            r.spec_switches() == self.spec_switches(),
            r.spec_layout() is Some,
    {
        let stored = StoredLayout {
            configs: layout.configs_dir(),
            git_cache: layout.git_cache_dir(),
            catalog_cache: layout.catalog_cache_dir(),
        };
        ArchetectBuilder {
            layout: Some(stored),
            offline: self.offline,
            headless: self.headless,
            switches: self.switches,
        }
    }

    /// Uses one of the conventional layouts.
    pub fn with_layout_type(self, layout: LayoutType) -> (r: Result<ArchetectBuilder, SystemError>)
        ensures
            r is Ok,
            r matches Ok(b) ==> b.spec_offline() == self.spec_offline() && b.spec_headless()
                == self.spec_headless() && b.spec_switches() == self.spec_switches()
                && b.spec_layout() is Some,
    {
        match layout {
            LayoutType::Native => {
                match NativeSystemLayout::new() {
                    Ok(l) => Ok(self.with_layout(l)),
                    Err(e) => Err(e),
                }
            },
            LayoutType::DotHome => {
                match dot_home_layout() {
                    Ok(l) => Ok(self.with_layout(l)),
                    Err(e) => Err(e),
                }
            },
            LayoutType::Temp => {
                match temp_layout() {
                    Ok(l) => Ok(self.with_layout(l)),
                    Err(e) => Err(e),
                }
            },
        }
    }

    /// Sets the offline flag; everything else is kept.
    pub fn with_offline(self, offline: bool) -> (r: ArchetectBuilder)
        ensures
            r.spec_offline() == offline,
            r.spec_headless() == self.spec_headless(),
            r.spec_layout() == self.spec_layout(),
            r.spec_switches() == self.spec_switches(),
    {
        ArchetectBuilder { offline, ..self }
    }

    /// Sets the headless flag; everything else is kept.
    pub fn with_headless(self, headless: bool) -> (r: ArchetectBuilder)
        ensures
            r.spec_offline() == self.spec_offline(),
            r.spec_headless() == headless,
            r.spec_layout() == self.spec_layout(),
            r.spec_switches() == self.spec_switches(),
    {
        ArchetectBuilder { headless, ..self }
    }
}

} // verus!
