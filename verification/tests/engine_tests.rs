use archetect_core::context::Context;
use archetect_core::engine::{Archetect, NativeSystemLayout, RootedSystemLayout, SystemLayout};

#[test]
fn test_explicit_native_paths() {
    let archetect = Archetect::builder()
        .with_layout(NativeSystemLayout::new().unwrap())
        .build()
        .unwrap();

    println!("{}", archetect.layout().catalog_cache_dir());
}

#[test]
fn test_explicit_directory_paths() {
    let paths = RootedSystemLayout::new("~/.archetect/").unwrap();
    let archetect = Archetect::builder().with_layout(paths).build().unwrap();

    println!("{}", archetect.layout().catalog_cache_dir());
}

#[test]
fn test_truncate_filter() {
    let archetect = Archetect::build().unwrap();
    let template = "{{ 'Jimmie' | truncate(length=1, end='') }}";
    let result = archetect.render_string(template, &Context::new()).unwrap();
    assert_eq!(&result, "J");
}

#[test]
fn builder_flags_carry_over() {
    let archetect = Archetect::builder()
        .with_offline(true)
        .with_headless(true)
        .build()
        .unwrap();
    assert!(archetect.offline());
    assert!(archetect.headless());

    let archetect = Archetect::build().unwrap();
    assert!(!archetect.offline());
    assert!(!archetect.headless());
}

#[test]
fn switches_are_deduplicated() {
    let mut archetect = Archetect::build().unwrap();
    archetect.enable_switch("debug");
    archetect.enable_switch("debug");
    archetect.enable_switch("verbose");
    assert_eq!(archetect.switches().len(), 2);
    assert!(archetect.has_switch("debug"));
    assert!(archetect.has_switch("verbose"));
    assert!(!archetect.has_switch("quiet"));
}

#[test]
fn render_string_substitutes_variables() {
    let archetect = Archetect::build().unwrap();
    let mut context = Context::new();
    context.insert("name", archetect_core::context::Value::Str("World".to_string()));
    let result = archetect.render_string("Hi {{ name }}", &context).unwrap();
    assert_eq!(&result, "Hi World");
}

#[test]
fn render_string_reports_unbound_variable() {
    let archetect = Archetect::build().unwrap();
    let result = archetect.render_string("{{ missing }}", &Context::new());
    match result {
        Err(archetect_core::error::RenderError::StringRenderError { string, .. }) => {
            assert_eq!(&string, "{{ missing }}");
        }
        other => panic!("expected a string render error, got {:?}", other),
    }
}

#[test]
fn render_string_formats_integers_and_booleans() {
    let archetect = Archetect::build().unwrap();
    let mut context = Context::new();
    context.insert("n", archetect_core::context::Value::Int(-5));
    context.insert("b", archetect_core::context::Value::Bool(true));
    assert_eq!(&archetect.render_string("{{ n }}", &context).unwrap(), "-5");
    assert_eq!(&archetect.render_string("{{ b }}", &context).unwrap(), "true");
}

#[test]
fn render_path_renders_final_component_only() {
    let archetect = Archetect::build().unwrap();
    let mut context = Context::new();
    context.insert("project", archetect_core::context::Value::Str("acme".to_string()));
    let out = archetect
        .render_path("templates/{{ project }}.md", &context)
        .unwrap();
    assert_eq!(&out, "acme.md");
}

#[test]
fn path_rendering_is_identity_without_expressions() {
    let archetect = Archetect::build().unwrap();
    let context = Context::new();
    let out = archetect.render_path("dir/sub/plain-file.txt", &context).unwrap();
    assert_eq!(&out, "plain-file.txt");
}

#[test]
fn path_rendering_ignores_trailing_separators() {
    let archetect = Archetect::build().unwrap();
    let context = Context::new();
    let out = archetect.render_path("dir/sub/", &context).unwrap();
    assert_eq!(&out, "sub");
}
