use archetect_core::rules::{PathRule, RuleAction, RuleType, RulesContext};

fn rule(pattern: &str, action: RuleAction) -> PathRule {
    PathRule { pattern: pattern.to_string(), action, recursive: false }
}

#[test]
fn default_disposition_is_render() {
    let rules = RulesContext::new();
    assert_eq!(rules.get_source_action("anything.txt"), RuleAction::RENDER);
    assert!(!rules.overwrite());
    assert!(!rules.break_triggered());
}

#[test]
fn last_matching_rule_wins() {
    let mut rules = RulesContext::new();
    rules.add_rule(rule("*.bin", RuleAction::COPY));
    rules.add_rule(rule("secret.bin", RuleAction::SKIP));
    assert_eq!(rules.get_source_action("a.bin"), RuleAction::COPY);
    assert_eq!(rules.get_source_action("secret.bin"), RuleAction::SKIP);
    assert_eq!(rules.get_source_action("notes.txt"), RuleAction::RENDER);

    // Declaration order decides between two matching rules.
    let mut rules = RulesContext::new();
    rules.add_rule(rule("*.bin", RuleAction::COPY));
    rules.add_rule(rule("*.bin", RuleAction::SKIP));
    assert_eq!(rules.get_source_action("a.bin"), RuleAction::SKIP);
}

#[test]
fn glob_matches_final_component() {
    let mut rules = RulesContext::new();
    rules.add_rule(rule("*.rs", RuleAction::SKIP));
    assert_eq!(rules.get_source_action("src/deep/dir/main.rs"), RuleAction::SKIP);
    assert_eq!(rules.get_source_action("src/deep/dir/main.rs.txt"), RuleAction::RENDER);
}

#[test]
fn question_mark_matches_one_character() {
    let mut rules = RulesContext::new();
    rules.add_rule(rule("a?.txt", RuleAction::COPY));
    assert_eq!(rules.get_source_action("ab.txt"), RuleAction::COPY);
    assert_eq!(rules.get_source_action("abc.txt"), RuleAction::RENDER);
}

#[test]
fn recursive_rule_matches_descendants() {
    let mut rules = RulesContext::new();
    rules.add_rule(PathRule {
        pattern: "vendor".to_string(),
        action: RuleAction::SKIP,
        recursive: true,
    });
    assert_eq!(rules.get_source_action("src/vendor/lib.rs"), RuleAction::SKIP);
    assert_eq!(rules.get_source_action("src/other/lib.rs"), RuleAction::RENDER);
}

#[test]
fn overwrite_mutation_applies() {
    let mut rules = RulesContext::new();
    rules.apply(RuleType::Overwrite(true));
    assert!(rules.overwrite());
    rules.apply(RuleType::AddRule(rule("*.lock", RuleAction::SKIP)));
    assert_eq!(rules.get_source_action("Cargo.lock"), RuleAction::SKIP);
}

#[test]
fn duplicate_preserves_rules_and_flags() {
    let mut rules = RulesContext::new();
    rules.add_rule(rule("*.bin", RuleAction::COPY));
    rules.set_overwrite(true);
    let copy = rules.duplicate();
    assert_eq!(copy.get_source_action("a.bin"), RuleAction::COPY);
    assert!(copy.overwrite());
    assert!(!copy.break_triggered());
}
