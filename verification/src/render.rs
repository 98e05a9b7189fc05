//! The path/file renderer: walks a source tree, resolves each entry's
//! disposition from the rules context, renders names and contents, and
//! produces the list of filesystem operations to perform.

use vstd::prelude::*;
use crate::context::{Context, ValueModel};
use crate::engine::Archetect;
use crate::error::RenderError;
use crate::rules::{RuleModel, RulesContext, RuleAction, rules_disposition};
use crate::source::{join_paths, exec_join_paths};
use crate::template::template_output;

verus! {

broadcast use vstd::std_specs::vec::axiom_spec_len, vstd::std_specs::vec::axiom_vec_index_decreases;

/// The contents of a source file: template text, or raw bytes for files
/// that are not text (the copy disposition moves them byte for byte).
pub enum FileBody {
    Text(String),
    Binary(Vec<u8>),
}

/// The mathematical model of file contents.
#[verifier::ext_equal]
pub enum FileBodyModel {
    Text(Seq<char>),
    Binary(Seq<u8>),
}

impl View for FileBody {
    type V = FileBodyModel;

    open spec fn view(&self) -> FileBodyModel {
        match self {
            FileBody::Text(t) => FileBodyModel::Text(t@),
            FileBody::Binary(b) => FileBodyModel::Binary(b@),
        }
    }
}

/// A deep copy of file contents, with the same model.
pub fn dup_body(body: &FileBody) -> (r: FileBody)
    ensures
        r@ == body@,
{
    match body {
        FileBody::Text(t) => FileBody::Text(t.clone()),
        FileBody::Binary(b) => {
            let n = b.len();
            let mut out: Vec<u8> = Vec::new();
            for i in 0..n
                invariant
                    n == b@.len(),
                    out@ =~= b@.subrange(0, i as int),
            {
                out.push(b[i]);
                proof {
                    assert(out@ =~= b@.subrange(0, i + 1 as int));
                }
            }
            proof {
                assert(b@.subrange(0, n as int) =~= b@);
            }
            FileBody::Binary(out)
        },
    }
}

/// One entry of a source tree, read into memory: a file with its contents,
/// or a directory with its entries.
pub enum TreeEntry {
    File { name: String, contents: FileBody },
    Directory { name: String, entries: Vec<TreeEntry> },
}

/// One filesystem operation produced by rendering: make a directory, write
/// rendered contents, or copy contents verbatim.
pub enum RenderOp {
    MakeDir { path: String },
    WriteFile { path: String, contents: String },
    CopyFile { path: String, contents: FileBody },
}

/// The mathematical model of a filesystem operation.
#[verifier::ext_equal]
pub enum RenderOpModel {
    MakeDir { path: Seq<char> },
    WriteFile { path: Seq<char>, contents: Seq<char> },
    CopyFile { path: Seq<char>, contents: FileBodyModel },
}

impl View for RenderOp {
    type V = RenderOpModel;

    open spec fn view(&self) -> RenderOpModel {
        match self {
            RenderOp::MakeDir { path } => RenderOpModel::MakeDir { path: path@ },
            RenderOp::WriteFile { path, contents } => RenderOpModel::WriteFile {
                path: path@,
                contents: contents@,
            },
            RenderOp::CopyFile { path, contents } => RenderOpModel::CopyFile {
                path: path@,
                contents: contents@,
            },
        }
    }
}

/// The models of a vector of operations.
pub open spec fn ops_model(v: Seq<RenderOp>) -> Seq<RenderOpModel> {
    Seq::new(v.len(), |i: int| v[i]@)
}

/// The views of a vector of path strings.
pub open spec fn paths_model(v: Seq<String>) -> Seq<Seq<char>> {
    Seq::new(v.len(), |i: int| v[i]@)
}

/// Whether a path occurs in a path list.
pub open spec fn path_in(m: Seq<Seq<char>>, x: Seq<char>) -> bool {
    exists|i: int| 0 <= i < m.len() && m[i] == x
}

/// The operations produced for one tree entry. `None` when a name or file
/// contents fail to render.
pub open spec fn spec_render_entry(
    e: &TreeEntry,
    ctx: Seq<(Seq<char>, ValueModel)>,
    rules: Seq<RuleModel>,
    overwrite: bool,
    sprefix: Seq<char>,
    dprefix: Seq<char>,
    existing: Seq<Seq<char>>,
) -> Option<Seq<RenderOpModel>>
    decreases e, 0int, 0int,
{
    match e {
        TreeEntry::File { name, contents } => {
            let spath = join_paths(sprefix, name@);
            match template_output(name@, ctx) {
                None => None,
                Some(rname) => {
                    let dest = join_paths(dprefix, rname);
                    match rules_disposition(rules, spath) {
                        RuleAction::RENDER => {
                            if !path_in(existing, dest) || overwrite {
                                match contents@ {
                                    FileBodyModel::Text(t) => match template_output(t, ctx) {
                                        None => None,
                                        Some(rc) => Some(
                                            seq![
                                                RenderOpModel::WriteFile {
                                                    path: dest,
                                                    contents: rc,
                                                },
                                            ],
                                        ),
                                    },
                                    FileBodyModel::Binary(_) => None,
                                }
                            } else {
                                Some(Seq::empty())
                            }
                        },
                        RuleAction::COPY => Some(
                            seq![RenderOpModel::CopyFile { path: dest, contents: contents@ }],
                        ),
                        RuleAction::SKIP => Some(Seq::empty()),
                    }
                },
            }
        },
        TreeEntry::Directory { name, entries } => {
            let spath = join_paths(sprefix, name@);
            match template_output(name@, ctx) {
                None => None,
                Some(rname) => {
                    let dest = join_paths(dprefix, rname);
                    match spec_render_entries(entries, 0, ctx, rules, overwrite, spath, dest,
                        existing) {
                        None => None,
                        Some(rest) => Some(seq![RenderOpModel::MakeDir { path: dest }] + rest),
                    }
                },
            }
        },
    }
}

/// The operations produced for the entries `i..` of a directory.
pub open spec fn spec_render_entries(
    v: &Vec<TreeEntry>,
    i: int,
    ctx: Seq<(Seq<char>, ValueModel)>,
    rules: Seq<RuleModel>,
    overwrite: bool,
    sprefix: Seq<char>,
    dprefix: Seq<char>,
    existing: Seq<Seq<char>>,
) -> Option<Seq<RenderOpModel>>
    decreases v, v@.len() - i, 1int,
{
    if i < 0 || i >= v@.len() {
        Some(Seq::empty())
    } else {
        match spec_render_entry(&v[i], ctx, rules, overwrite, sprefix, dprefix, existing) {
            None => None,
            Some(ops) => match spec_render_entries(
                v,
                i + 1,
                ctx,
                rules,
                overwrite,
                sprefix,
                dprefix,
                existing,
            ) {
                None => None,
                Some(rest) => Some(ops + rest),
            },
        }
    }
}

/// With overwriting disabled, rendering never writes over an existing
/// destination: every write targets a path that was not there before.
/// Copies are exempt, as the copy disposition overwrites unconditionally.
pub proof fn lemma_render_entry_preserves_existing(
    e: &TreeEntry,
    ctx: Seq<(Seq<char>, ValueModel)>,
    rules: Seq<RuleModel>,
    sprefix: Seq<char>,
    dprefix: Seq<char>,
    existing: Seq<Seq<char>>,
    ops: Seq<RenderOpModel>,
)
    requires
        spec_render_entry(e, ctx, rules, false, sprefix, dprefix, existing) == Some(ops),
    ensures
        forall|k: int|
            0 <= k < ops.len() ==> ((#[trigger] ops[k]) matches RenderOpModel::WriteFile {
                path,
                ..
            } ==> !path_in(existing, path)),
    decreases e, 0int, 0int,
{
    match e {
        TreeEntry::File { .. } => {
        },
        TreeEntry::Directory { name, entries } => {
            let spath = join_paths(sprefix, name@);
            match template_output(name@, ctx) {
                None => {},
                Some(rname) => {
                    let dest = join_paths(dprefix, rname);
                    match spec_render_entries(entries, 0, ctx, rules, false, spath, dest,
                        existing) {
                        None => {},
                        Some(rest) => {
                            lemma_render_entries_preserve_existing(
                                entries,
                                0,
                                ctx,
                                rules,
                                spath,
                                dest,
                                existing,
                                rest,
                            );
                        },
                    }
                },
            }
        },
    }
}

/// The entries' operations never write over an existing destination when
/// overwriting is disabled.
pub proof fn lemma_render_entries_preserve_existing(
    v: &Vec<TreeEntry>,
    i: int,
    ctx: Seq<(Seq<char>, ValueModel)>,
    rules: Seq<RuleModel>,
    sprefix: Seq<char>,
    dprefix: Seq<char>,
    existing: Seq<Seq<char>>,
    ops: Seq<RenderOpModel>,
)
    requires
        spec_render_entries(v, i, ctx, rules, false, sprefix, dprefix, existing) == Some(ops),
    ensures
        forall|k: int|
            0 <= k < ops.len() ==> ((#[trigger] ops[k]) matches RenderOpModel::WriteFile {
                path,
                ..
            } ==> !path_in(existing, path)),
    decreases v, v@.len() - i, 1int,
{
    if 0 <= i < v@.len() {
        match spec_render_entry(&v[i], ctx, rules, false, sprefix, dprefix, existing) {
            None => {},
            Some(head) => {
                lemma_render_entry_preserves_existing(
                    &v[i],
                    ctx,
                    rules,
                    sprefix,
                    dprefix,
                    existing,
                    head,
                );
                match spec_render_entries(v, i + 1, ctx, rules, false, sprefix, dprefix,
                    existing) {
                    None => {},
                    Some(rest) => {
                        lemma_render_entries_preserve_existing(
                            v,
                            i + 1,
                            ctx,
                            rules,
                            sprefix,
                            dprefix,
                            existing,
                            rest,
                        );
                    },
                }
            },
        }
    }
}

/// Whether `x` occurs in the path list.
pub fn contains_path(existing: &Vec<String>, x: &str) -> (r: bool)
    ensures
        r == path_in(paths_model(existing@), x@),
{
    let n = existing.len();
    for i in 0..n
        invariant
            n == existing@.len(),
            forall|j: int| 0 <= j < i ==> paths_model(existing@)[j] != x@,
    {
        if crate::strings::str_eq(existing[i].as_str(), x) {
            proof {
                assert(paths_model(existing@)[i as int] == x@);
            }
            return true;
        }
    }
    false
}

/// Renders one tree entry into filesystem operations.
pub fn render_entry(
    e: &TreeEntry,
    context: &Context,
    rules: &RulesContext,
    source_prefix: &str,
    dest_prefix: &str,
    existing: &Vec<String>,
) -> (r: Result<Vec<RenderOp>, RenderError>)
    ensures
        match r {
            Ok(ops) => spec_render_entry(
                e,
                context@,
                rules@.rules,
                rules@.overwrite,
                source_prefix@,
                dest_prefix@,
                paths_model(existing@),
            ) == Some(ops_model(ops@)),
            Err(_) => spec_render_entry(
                e,
                context@,
                rules@.rules,
                rules@.overwrite,
                source_prefix@,
                dest_prefix@,
                paths_model(existing@),
            ) is None,
        },
    decreases e, 0int, 0int,
{
    match e {
        TreeEntry::File { name, contents } => {
            let spath = exec_join_paths(source_prefix, name.as_str());
            match crate::template::render_template(name.as_str(), context) {
                None => Err(
                    RenderError::PathRenderError {
                        path: spath,
                        message: "the entry's name failed to render".to_owned(),
                    },
                ),
                Some(rname) => {
                    let dest = exec_join_paths(dest_prefix, rname.as_str());
                    match rules.get_source_action(spath.as_str()) {
                        RuleAction::RENDER => {
                            if !contains_path(existing, dest.as_str()) || rules.overwrite() {
                                match contents {
                                    FileBody::Text(text) => {
                                        match crate::template::render_template(
                                            text.as_str(),
                                            context,
                                        ) {
                                            None => Err(
                                                RenderError::FileRenderError {
                                                    path: spath,
                                                    message: "the file's contents failed to render".to_owned(),
                                                },
                                            ),
                                            Some(rc) => {
                                                let mut ops: Vec<RenderOp> = Vec::new();
                                                ops.push(
                                                    RenderOp::WriteFile {
                                                        path: dest,
                                                        contents: rc,
                                                    },
                                                );
                                                proof {
                                                    assert(ops_model(ops@) =~= seq![
                                                        RenderOpModel::WriteFile {
                                                            path: dest@,
                                                            contents: rc@,
                                                        },
                                                    ]);
                                                }
                                                Ok(ops)
                                            },
                                        }
                                    },
                                    FileBody::Binary(_) => Err(
                                        RenderError::FileRenderError {
                                            path: spath,
                                            message: "the file is not text and cannot be rendered".to_owned(),
                                        },
                                    ),
                                }
                            } else {
                                let ops: Vec<RenderOp> = Vec::new();
                                proof {
                                    assert(ops_model(ops@) =~= Seq::<RenderOpModel>::empty());
                                }
                                Ok(ops)
                            }
                        },
                        RuleAction::COPY => {
                            let mut ops: Vec<RenderOp> = Vec::new();
                            ops.push(RenderOp::CopyFile { path: dest, contents: dup_body(contents) });
                            proof {
                                assert(ops_model(ops@) =~= seq![
                                    RenderOpModel::CopyFile { path: dest@, contents: contents@ },
                                ]);
                            }
                            Ok(ops)
                        },
                        RuleAction::SKIP => {
                            let ops: Vec<RenderOp> = Vec::new();
                            proof {
                                assert(ops_model(ops@) =~= Seq::<RenderOpModel>::empty());
                            }
                            Ok(ops)
                        },
                    }
                },
            }
        },
        TreeEntry::Directory { name, entries } => {
            let spath = exec_join_paths(source_prefix, name.as_str());
            match crate::template::render_template(name.as_str(), context) {
                None => Err(
                    RenderError::PathRenderError {
                        path: spath,
                        message: "the directory's name failed to render".to_owned(),
                    },
                ),
                Some(rname) => {
                    let dest = exec_join_paths(dest_prefix, rname.as_str());
                    match render_entries(
                        entries,
                        context,
                        rules,
                        spath.as_str(),
                        dest.as_str(),
                        existing,
                    ) {
                        Err(err) => Err(err),
                        Ok(rest) => {
                            let mut ops: Vec<RenderOp> = Vec::new();
                            ops.push(RenderOp::MakeDir { path: dest });
                            let ghost head = ops@;
                            let mut rest_ops = rest;
                            ops.append(&mut rest_ops);
                            proof {
                                assert(ops_model(ops@) =~= ops_model(head) + ops_model(
                                    rest@,
                                ));
                                assert(ops_model(head) =~= seq![
                                    RenderOpModel::MakeDir { path: dest@ },
                                ]);
                            }
                            Ok(ops)
                        },
                    }
                },
            }
        },
    }
}

/// Renders a directory's entries, in order, into filesystem operations.
pub fn render_entries(
    entries: &Vec<TreeEntry>,
    context: &Context,
    rules: &RulesContext,
    source_prefix: &str,
    dest_prefix: &str,
    existing: &Vec<String>,
) -> (r: Result<Vec<RenderOp>, RenderError>)
    ensures
        match r {
            Ok(ops) => spec_render_entries(
                entries,
                0,
                context@,
                rules@.rules,
                rules@.overwrite,
                source_prefix@,
                dest_prefix@,
                paths_model(existing@),
            ) == Some(ops_model(ops@)),
            Err(_) => spec_render_entries(
                entries,
                0,
                context@,
                rules@.rules,
                rules@.overwrite,
                source_prefix@,
                dest_prefix@,
                paths_model(existing@),
            ) is None,
        },
    decreases entries, entries@.len(), 1int,
{
    let mut ops: Vec<RenderOp> = Vec::new();
    let n = entries.len();
    proof {
        assert(ops_model(ops@) =~= Seq::<RenderOpModel>::empty());
    }
    for i in 0..n
        invariant
            n == entries@.len(),
            ({
                let full = spec_render_entries(
                    entries,
                    0,
                    context@,
                    rules@.rules,
                    rules@.overwrite,
                    source_prefix@,
                    dest_prefix@,
                    paths_model(existing@),
                );
                let rest = spec_render_entries(
                    entries,
                    i as int,
                    context@,
                    rules@.rules,
                    rules@.overwrite,
                    source_prefix@,
                    dest_prefix@,
                    paths_model(existing@),
                );
                match rest {
                    None => full is None,
                    Some(tail) => full == Some(ops_model(ops@) + tail),
                }
            }),
    {
        proof {
            vstd::std_specs::vec::axiom_vec_index_decreases(*entries, i as int);
        }
        match render_entry(
            &entries[i],
            context,
            rules,
            source_prefix,
            dest_prefix,
            existing,
        ) {
            Err(err) => {
                return Err(err);
            },
            Ok(head) => {
                let ghost before = ops@;
                let mut head_ops = head;
                ops.append(&mut head_ops);
                proof {
                    assert(ops_model(ops@) =~= ops_model(before) + ops_model(head@));
                }
            },
        }
    }
    proof {
        assert(ops_model(ops@) + Seq::<RenderOpModel>::empty() =~= ops_model(ops@));
    }
    Ok(ops)
}

impl Archetect {
    /// Walks a source tree (read by the caller) and produces the filesystem
    /// operations that render it into the destination, under the rules
    /// context's dispositions. `existing` lists the destination paths that
    /// already exist.
    pub fn render_directory(
        &self,
        context: &Context,
        entries: &Vec<TreeEntry>,
        source_path: &str,
        destination: &str,
        rules_context: &RulesContext,
        existing: &Vec<String>,
    ) -> (r: Result<Vec<RenderOp>, RenderError>)
        ensures
            match r {
                Ok(ops) => spec_render_entries(
                    entries,
                    0,
                    context@,
                    rules_context@.rules,
                    rules_context@.overwrite,
                    source_path@,
                    destination@,
                    paths_model(existing@),
                ) == Some(ops_model(ops@)),
                Err(_) => spec_render_entries(
                    entries,
                    0,
                    context@,
                    rules_context@.rules,
                    rules_context@.overwrite,
                    source_path@,
                    destination@,
                    paths_model(existing@),
                ) is None,
            },
    {
        render_entries(entries, context, rules_context, source_path, destination, existing)
    }
}

} // verus!
