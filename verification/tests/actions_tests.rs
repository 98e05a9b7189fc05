use archetect_core::actions::{
    populate_context, ActionId, AnswerInfo, AnswerMap, Archetype, ArchetypeManifest,
    ArchetypeOptions, Effect, ForEachAction, IfAction, RenderAction, ScriptedPrompter,
    VariableInfo,
};
use archetect_core::context::{Context, Value};
use archetect_core::engine::Archetect;
use archetect_core::error::ArchetectError;
use archetect_core::rules::{RuleType, RulesContext};
use archetect_core::source::Source;

fn test_archetype() -> Archetype {
    Archetype::new(
        Source::LocalDirectory { path: "/tmp".to_string() },
        ArchetypeManifest { description: None, requirements: None, actions: vec![], tree: vec![] },
    )
}

fn run(
    action: &ActionId,
    rules: &mut RulesContext,
    context: &mut Context,
    effects: &mut Vec<Effect>,
) -> Result<(), ArchetectError> {
    let archetect = Archetect::builder().with_headless(true).build().unwrap();
    let archetype = test_archetype();
    let answers = AnswerMap::new();
    let mut prompter = ScriptedPrompter::new(vec![]);
    action.execute(
        &archetect,
        &archetype,
        "/tmp/dest",
        rules,
        &answers,
        context,
        &mut prompter,
        effects,
        1000,
    )
}

fn set_var(name: &str, default: &str) -> ActionId {
    ActionId::SetVariables(vec![(
        name.to_string(),
        VariableInfo { prompt: None, default: Some(default.to_string()) },
    )])
}

#[test]
fn scope_isolates_render_and_rules_contexts() {
    let action = ActionId::Scope(vec![
        set_var("x", "1"),
        ActionId::Rules(vec![RuleType::Overwrite(true)]),
    ]);
    let mut rules = RulesContext::new();
    let mut context = Context::new();
    let mut effects = Vec::new();
    run(&action, &mut rules, &mut context, &mut effects).unwrap();
    assert!(context.get("x").is_none());
    assert!(!rules.overwrite());
}

#[test]
fn set_outside_scope_persists() {
    let action = set_var("x", "1");
    let mut rules = RulesContext::new();
    let mut context = Context::new();
    let mut effects = Vec::new();
    run(&action, &mut rules, &mut context, &mut effects).unwrap();
    assert!(context.get("x").is_some());
}

#[test]
fn loop_terminates_via_break() {
    let action = ActionId::Loop(vec![ActionId::Break]);
    let mut rules = RulesContext::new();
    let mut context = Context::new();
    let mut effects = Vec::new();
    run(&action, &mut rules, &mut context, &mut effects).unwrap();
    assert!(effects.is_empty());
    // The break is consumed by the loop, not forwarded to the caller.
    assert!(!rules.break_triggered());
}

#[test]
fn break_inside_scope_terminates_enclosing_loop() {
    let action = ActionId::Loop(vec![ActionId::Scope(vec![ActionId::Break])]);
    let mut rules = RulesContext::new();
    let mut context = Context::new();
    let mut effects = Vec::new();
    run(&action, &mut rules, &mut context, &mut effects).unwrap();
    assert!(!rules.break_triggered());
}

#[test]
fn loop_without_break_exhausts_its_budget() {
    let action = ActionId::Loop(vec![ActionId::Print("spinning".to_string())]);
    let mut rules = RulesContext::new();
    let mut context = Context::new();
    let mut effects = Vec::new();
    let result = run(&action, &mut rules, &mut context, &mut effects);
    assert!(matches!(result, Err(ArchetectError::IterationLimit)));
}

#[test]
fn for_each_runs_once_per_element_in_order() {
    let action = ActionId::ForEach(ForEachAction {
        name: "item".to_string(),
        in_expr: "seq".to_string(),
        actions: vec![ActionId::Print("{{ item }}".to_string())],
    });
    let mut rules = RulesContext::new();
    let mut context = Context::new();
    context.insert(
        "seq",
        Value::List(vec![
            Value::Str("a".to_string()),
            Value::Str("b".to_string()),
            Value::Str("c".to_string()),
        ]),
    );
    let mut effects = Vec::new();
    run(&action, &mut rules, &mut context, &mut effects).unwrap();
    let printed: Vec<&str> = effects
        .iter()
        .map(|e| match e {
            Effect::Print { message } => message.as_str(),
            _ => panic!("expected only print effects"),
        })
        .collect();
    assert_eq!(printed, vec!["a", "b", "c"]);
}

#[test]
fn for_each_over_non_sequence_fails() {
    let action = ActionId::ForEach(ForEachAction {
        name: "item".to_string(),
        in_expr: "seq".to_string(),
        actions: vec![],
    });
    let mut rules = RulesContext::new();
    let mut context = Context::new();
    context.insert("seq", Value::Int(5));
    let mut effects = Vec::new();
    let result = run(&action, &mut rules, &mut context, &mut effects);
    assert!(matches!(result, Err(ArchetectError::Render(_))));
}

#[test]
fn loop_with_break_prints_two_lines() {
    let action = ActionId::Loop(vec![ActionId::If(IfAction {
        condition: "loop.index >= 3".to_string(),
        then_actions: vec![ActionId::Break],
        else_actions: Some(vec![ActionId::Print("{{ loop.index }}".to_string())]),
    })]);
    let mut rules = RulesContext::new();
    let mut context = Context::new();
    let mut effects = Vec::new();
    run(&action, &mut rules, &mut context, &mut effects).unwrap();
    let printed: Vec<&str> = effects
        .iter()
        .map(|e| match e {
            Effect::Print { message } => message.as_str(),
            _ => panic!("expected only print effects"),
        })
        .collect();
    assert_eq!(printed, vec!["1", "2"]);
}

#[test]
fn nested_archetype_inherits_and_overrides_answers() {
    let mut parent_answers = AnswerMap::new();
    parent_answers.insert("fname", AnswerInfo::with_value("Ada").build());
    parent_answers.insert("lname", AnswerInfo::with_value("Lovelace").build());

    let action = ActionId::Render(RenderAction::Archetype(
        ArchetypeOptions::new("child")
            .with_inherited_answer("fname".to_string())
            .with_answer("lname".to_string(), AnswerInfo::with_value("Byron").build()),
    ));

    let archetect = Archetect::builder().with_headless(true).build().unwrap();
    let archetype = test_archetype();
    let mut rules = RulesContext::new();
    let mut context = Context::new();
    let mut prompter = ScriptedPrompter::new(vec![]);
    let mut effects = Vec::new();
    action
        .execute(
            &archetect,
            &archetype,
            "/tmp/dest",
            &mut rules,
            &parent_answers,
            &mut context,
            &mut prompter,
            &mut effects,
            10,
        )
        .unwrap();

    assert_eq!(effects.len(), 1);
    let derived = match &effects[0] {
        Effect::RenderArchetypeRequest { source, answers, .. } => {
            assert_eq!(source, "child");
            answers
        }
        _ => panic!("expected a nested archetype render request"),
    };

    // The child declares both variables; its context observes the inherited
    // and the overridden answer.
    let child_vars = vec![
        ("fname".to_string(), VariableInfo { prompt: None, default: None }),
        ("lname".to_string(), VariableInfo { prompt: None, default: None }),
    ];
    let mut child_context = Context::new();
    populate_context(&archetect, &child_vars, derived, &mut child_context, &mut prompter).unwrap();
    let rendered = archetect
        .render_string("{{ fname }} {{ lname }}", &child_context)
        .unwrap();
    assert_eq!(&rendered, "Ada Byron");
}

#[test]
fn headless_engine_fails_on_unresolved_variable() {
    let action = ActionId::SetVariables(vec![(
        "answerless".to_string(),
        VariableInfo { prompt: None, default: None },
    )]);
    let mut rules = RulesContext::new();
    let mut context = Context::new();
    let mut effects = Vec::new();
    let result = run(&action, &mut rules, &mut context, &mut effects);
    match result {
        Err(ArchetectError::Headless(name)) => assert_eq!(&name, "answerless"),
        other => panic!("expected a headless failure, got {:?}", other),
    }
}

#[test]
fn interactive_engine_prompts_for_unresolved_variable() {
    let action = ActionId::SetVariables(vec![(
        "city".to_string(),
        VariableInfo { prompt: Some("Which city?".to_string()), default: None },
    )]);
    let archetect = Archetect::build().unwrap();
    let archetype = test_archetype();
    let answers = AnswerMap::new();
    let mut rules = RulesContext::new();
    let mut context = Context::new();
    let mut prompter = ScriptedPrompter::new(vec!["Paris".to_string()]);
    let mut effects = Vec::new();
    action
        .execute(
            &archetect,
            &archetype,
            "/tmp/dest",
            &mut rules,
            &answers,
            &mut context,
            &mut prompter,
            &mut effects,
            10,
        )
        .unwrap();
    let rendered = archetect.render_string("{{ city }}", &context).unwrap();
    assert_eq!(&rendered, "Paris");
}

#[test]
fn later_variables_reference_earlier_ones() {
    let action = ActionId::SetVariables(vec![
        (
            "first".to_string(),
            VariableInfo { prompt: None, default: Some("Ada".to_string()) },
        ),
        (
            "greeting".to_string(),
            VariableInfo { prompt: None, default: Some("Hello {{ first }}".to_string()) },
        ),
    ]);
    let mut rules = RulesContext::new();
    let mut context = Context::new();
    let mut effects = Vec::new();
    run(&action, &mut rules, &mut context, &mut effects).unwrap();
    let archetect = Archetect::build().unwrap();
    let rendered = archetect.render_string("{{ greeting }}", &context).unwrap();
    assert_eq!(&rendered, "Hello Ada");
}

#[test]
fn exec_action_renders_command_and_arguments() {
    let action = ActionId::Exec(archetect_core::actions::ExecAction {
        command: "cargo".to_string(),
        args: vec!["init".to_string(), "{{ project }}".to_string()],
    });
    let mut rules = RulesContext::new();
    let mut context = Context::new();
    context.insert("project", Value::Str("acme".to_string()));
    let mut effects = Vec::new();
    run(&action, &mut rules, &mut context, &mut effects).unwrap();
    match &effects[0] {
        Effect::Exec { command, args, working_dir } => {
            assert_eq!(command, "cargo");
            assert_eq!(args, &vec!["init".to_string(), "acme".to_string()]);
            assert_eq!(working_dir, "/tmp/dest");
        }
        _ => panic!("expected an exec effect"),
    }
}
