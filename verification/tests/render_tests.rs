use archetect_core::context::{Context, Value};
use archetect_core::engine::Archetect;
use archetect_core::render::{FileBody, RenderOp, TreeEntry};
use archetect_core::rules::{PathRule, RuleAction, RulesContext};

fn file(name: &str, contents: &str) -> TreeEntry {
    TreeEntry::File { name: name.to_string(), contents: FileBody::Text(contents.to_string()) }
}

fn binary_file(name: &str, contents: &[u8]) -> TreeEntry {
    TreeEntry::File { name: name.to_string(), contents: FileBody::Binary(contents.to_vec()) }
}

#[test]
fn local_directory_render() {
    let archetect = Archetect::build().unwrap();
    let mut context = Context::new();
    context.insert("name", Value::Str("World".to_string()));
    let entries = vec![file("hello.txt", "Hi {{ name }}")];
    let rules = RulesContext::new();
    let existing: Vec<String> = Vec::new();
    let ops = archetect
        .render_directory(&context, &entries, "src", "dest", &rules, &existing)
        .unwrap();
    assert_eq!(ops.len(), 1);
    match &ops[0] {
        RenderOp::WriteFile { path, contents } => {
            assert_eq!(path, "dest/hello.txt");
            assert_eq!(contents, "Hi World");
        }
        other => panic!("expected a write, got {:?}", op_name(other)),
    }
}

#[test]
fn templated_filename_render() {
    let archetect = Archetect::build().unwrap();
    let mut context = Context::new();
    context.insert("project", Value::Str("acme".to_string()));
    let entries = vec![file("{{ project }}.md", "# {{ project }}")];
    let rules = RulesContext::new();
    let existing: Vec<String> = Vec::new();
    let ops = archetect
        .render_directory(&context, &entries, "src", "out", &rules, &existing)
        .unwrap();
    assert_eq!(ops.len(), 1);
    match &ops[0] {
        RenderOp::WriteFile { path, contents } => {
            assert_eq!(path, "out/acme.md");
            assert_eq!(contents, "# acme");
        }
        other => panic!("expected a write, got {:?}", op_name(other)),
    }
}

#[test]
fn rule_precedence_render() {
    let archetect = Archetect::build().unwrap();
    let context = Context::new();
    let entries = vec![binary_file("a.bin", &[0, 159, 146, 150]), binary_file("secret.bin", &[7, 7])];
    let mut rules = RulesContext::new();
    rules.add_rule(PathRule {
        pattern: "*.bin".to_string(),
        action: RuleAction::COPY,
        recursive: false,
    });
    rules.add_rule(PathRule {
        pattern: "secret.bin".to_string(),
        action: RuleAction::SKIP,
        recursive: false,
    });
    let existing: Vec<String> = Vec::new();
    let ops = archetect
        .render_directory(&context, &entries, "src", "dest", &rules, &existing)
        .unwrap();
    assert_eq!(ops.len(), 1);
    match &ops[0] {
        RenderOp::CopyFile { path, contents } => {
            assert_eq!(path, "dest/a.bin");
            match contents {
                FileBody::Binary(bytes) => assert_eq!(bytes, &vec![0u8, 159, 146, 150]),
                FileBody::Text(_) => panic!("expected the copied bytes verbatim"),
            }
        }
        other => panic!("expected a copy, got {:?}", op_name(other)),
    }
}

#[test]
fn binary_file_under_render_disposition_fails() {
    let archetect = Archetect::build().unwrap();
    let context = Context::new();
    let entries = vec![binary_file("raw.dat", &[1, 2, 3])];
    let rules = RulesContext::new();
    let existing: Vec<String> = Vec::new();
    let result = archetect.render_directory(&context, &entries, "src", "dest", &rules, &existing);
    assert!(result.is_err());
}

#[test]
fn existing_destination_is_preserved_without_overwrite() {
    let archetect = Archetect::build().unwrap();
    let context = Context::new();
    let entries = vec![file("kept.txt", "new contents")];
    let rules = RulesContext::new();
    let existing = vec!["dest/kept.txt".to_string()];
    let ops = archetect
        .render_directory(&context, &entries, "src", "dest", &rules, &existing)
        .unwrap();
    assert_eq!(ops.len(), 0);
}

#[test]
fn existing_destination_is_replaced_with_overwrite() {
    let archetect = Archetect::build().unwrap();
    let context = Context::new();
    let entries = vec![file("kept.txt", "new contents")];
    let mut rules = RulesContext::new();
    rules.set_overwrite(true);
    let existing = vec!["dest/kept.txt".to_string()];
    let ops = archetect
        .render_directory(&context, &entries, "src", "dest", &rules, &existing)
        .unwrap();
    assert_eq!(ops.len(), 1);
    assert!(matches!(&ops[0], RenderOp::WriteFile { .. }));
}

#[test]
fn copy_disposition_overwrites_unconditionally() {
    let archetect = Archetect::build().unwrap();
    let context = Context::new();
    let entries = vec![file("raw.bin", "BYTES")];
    let mut rules = RulesContext::new();
    rules.add_rule(PathRule {
        pattern: "*.bin".to_string(),
        action: RuleAction::COPY,
        recursive: false,
    });
    let existing = vec!["dest/raw.bin".to_string()];
    let ops = archetect
        .render_directory(&context, &entries, "src", "dest", &rules, &existing)
        .unwrap();
    assert_eq!(ops.len(), 1);
    assert!(matches!(&ops[0], RenderOp::CopyFile { .. }));
}

#[test]
fn directories_recurse_with_rendered_names() {
    let archetect = Archetect::build().unwrap();
    let mut context = Context::new();
    context.insert("module", Value::Str("widgets".to_string()));
    let entries = vec![TreeEntry::Directory {
        name: "{{ module }}".to_string(),
        entries: vec![file("mod.rs", "// {{ module }}")],
    }];
    let rules = RulesContext::new();
    let existing: Vec<String> = Vec::new();
    let ops = archetect
        .render_directory(&context, &entries, "src", "dest", &rules, &existing)
        .unwrap();
    assert_eq!(ops.len(), 2);
    match &ops[0] {
        RenderOp::MakeDir { path } => assert_eq!(path, "dest/widgets"),
        other => panic!("expected a directory, got {:?}", op_name(other)),
    }
    match &ops[1] {
        RenderOp::WriteFile { path, contents } => {
            assert_eq!(path, "dest/widgets/mod.rs");
            assert_eq!(contents, "// widgets");
        }
        other => panic!("expected a write, got {:?}", op_name(other)),
    }
}

fn op_name(op: &RenderOp) -> &'static str {
    match op {
        RenderOp::MakeDir { .. } => "make-dir",
        RenderOp::WriteFile { .. } => "write",
        RenderOp::CopyFile { .. } => "copy",
    }
}
