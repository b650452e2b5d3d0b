use reukocyte::rule::{Category, LayoutRule, LintRule, RuleId};

#[test]
fn test_rule_id_parts() {
    let layout_rule = RuleId::Layout(LayoutRule::TrailingWhitespace);
    let lint_rule = RuleId::Lint(LintRule::Debugger);
    assert_eq!(layout_rule.category(), Category::Layout);
    assert_eq!(layout_rule.name(), "TrailingWhitespace");
    assert_eq!(lint_rule.category(), Category::Lint);
    assert_eq!(lint_rule.name(), "Debugger");
}

#[test]
fn test_rule_id_display() {
    assert_eq!(
        format!(
            "{}/{}",
            RuleId::Layout(LayoutRule::TrailingWhitespace).category().as_str(),
            RuleId::Layout(LayoutRule::TrailingWhitespace).name()
        ),
        "Layout/TrailingWhitespace"
    );
    assert_eq!(
        format!(
            "{}/{}",
            RuleId::Lint(LintRule::Debugger).category().as_str(),
            RuleId::Lint(LintRule::Debugger).name()
        ),
        "Lint/Debugger"
    );
    assert_eq!(RuleId::Layout(LayoutRule::EndAlignment).full_name(), "Layout/EndAlignment");
}

#[test]
fn test_no_conflict() {
    let rule = RuleId::Layout(LayoutRule::TrailingWhitespace);
    assert!(!rule.has_conflict_with(RuleId::Lint(LintRule::Debugger)));
    assert!(rule.conflicts_with().is_empty());
}

#[test]
fn test_rule_id_equality() {
    assert_eq!(RuleId::Layout(LayoutRule::TrailingWhitespace), RuleId::Layout(LayoutRule::TrailingWhitespace));
    assert_ne!(RuleId::Layout(LayoutRule::TrailingWhitespace), RuleId::Lint(LintRule::Debugger));
}
