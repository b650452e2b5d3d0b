use reukocyte::conflict::ConflictRegistry;
use reukocyte::rule::{LayoutRule, LintRule, RuleId};

const RULE_A: RuleId = RuleId::Layout(LayoutRule::TrailingWhitespace);
const RULE_B: RuleId = RuleId::Lint(LintRule::Debugger);

#[test]
fn test_empty_registry() {
    let registry = ConflictRegistry::new();
    assert!(!registry.conflicts_with_applied(RULE_A));
    assert!(!registry.conflicts_with_applied(RULE_B));
}

#[test]
fn test_forward_conflict() {
    let mut registry = ConflictRegistry::new();
    registry.mark_applied(RULE_A);
    assert!(!registry.conflicts_with_applied(RULE_B));
}

#[test]
fn test_clear_registry() {
    let mut registry = ConflictRegistry::new();
    registry.mark_applied(RULE_A);
    assert!(registry.was_applied(RULE_A));
    registry.clear();
    assert!(!registry.was_applied(RULE_A));
}

#[test]
fn test_was_applied() {
    let mut registry = ConflictRegistry::new();
    assert!(!registry.was_applied(RULE_A));
    registry.mark_applied(RULE_A);
    assert!(registry.was_applied(RULE_A));
    assert!(!registry.was_applied(RULE_B));
}

#[test]
fn test_rule_conflict_skipping() {
    let mut registry = ConflictRegistry::new();
    registry.mark_applied(RULE_A);
    assert!(
        !registry.conflicts_with_applied(RULE_B),
        "Debugger should not be skipped because no conflicts are declared"
    );
}

#[test]
fn test_reverse_conflict_skipping() {
    let mut registry = ConflictRegistry::new();
    registry.mark_applied(RULE_B);
    assert!(
        !registry.conflicts_with_applied(RULE_A),
        "TrailingWhitespace should not be skipped because no conflicts are declared"
    );
}

#[test]
fn test_conflict_resolution_in_next_iteration() {
    let mut registry = ConflictRegistry::new();
    registry.mark_applied(RULE_A);
    registry.clear();
    assert!(!registry.conflicts_with_applied(RULE_B));
}

#[test]
fn marking_twice_counts_once() {
    let mut registry = ConflictRegistry::default();
    registry.mark_applied(RULE_A);
    registry.mark_applied(RULE_A);
    registry.mark_applied(RULE_B);
    assert_eq!(registry.applied_count(), 2);
}
