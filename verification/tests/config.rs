use reukocyte::config::layout::access_modifier_indentation::EnforcedStyle as AccessModifierStyle;
use reukocyte::config::layout::begin_end_alignment::EnforcedStyleAlignWith as BeginEndStyle;
use reukocyte::config::layout::end_alignment::EnforcedStyleAlignWith as EndAlignmentStyle;
use reukocyte::config::layout::indentation_consistency::EnforcedStyle as IndentationConsistencyStyle;
use reukocyte::config::loader::{enter, merge_all_cops, merge_configs, merge_inherited};
use reukocyte::config::serde_helpers::parse_severity;
use reukocyte::config::{AllCopsConfig, CopConfig, EnabledValue, InheritFrom, OptionValue, RubocopYaml};
use reukocyte::{Config, Severity};

fn cop(enabled: Option<EnabledValue>, severity: Option<&str>, options: &[(&str, OptionValue)]) -> CopConfig {
    CopConfig {
        enabled,
        severity: severity.map(|s| s.to_string()),
        options: options.iter().map(|(k, v)| (k.to_string(), v.clone())).collect(),
        exclude: Vec::new(),
        included: Vec::new(),
    }
}

fn yaml(cops: Vec<(&str, CopConfig)>) -> RubocopYaml {
    RubocopYaml {
        inherit_from: InheritFrom::Unset,
        all_cops: AllCopsConfig::default(),
        cops: cops.into_iter().map(|(n, c)| (n.to_string(), c)).collect(),
    }
}

fn s(v: &str) -> OptionValue {
    OptionValue::String(v.to_string())
}

#[test]
fn test_end_alignment_keyword() {
    let rubocop = yaml(vec![("Layout/EndAlignment", cop(None, None, &[("EnforcedStyleAlignWith", s("keyword"))]))]);
    let config = Config::from_rubocop_yaml(&rubocop);
    assert_eq!(config.layout.end_alignment.enforced_style_align_with, EndAlignmentStyle::Keyword);
}

#[test]
fn test_end_alignment_variable() {
    let rubocop = yaml(vec![("Layout/EndAlignment", cop(None, None, &[("EnforcedStyleAlignWith", s("variable"))]))]);
    let config = Config::from_rubocop_yaml(&rubocop);
    assert_eq!(config.layout.end_alignment.enforced_style_align_with, EndAlignmentStyle::Variable);
}

#[test]
fn test_indentation_width() {
    let rubocop = yaml(vec![("Layout/IndentationWidth", cop(None, None, &[("Width", OptionValue::Integer(4))]))]);
    let config = Config::from_rubocop_yaml(&rubocop);
    assert_eq!(config.layout.indentation_width.width, 4);
}

#[test]
fn test_access_modifier_indentation() {
    let rubocop = yaml(vec![(
        "Layout/AccessModifierIndentation",
        cop(None, None, &[("EnforcedStyle", s("outdent")), ("IndentationWidth", OptionValue::Integer(4))]),
    )]);
    let config = Config::from_rubocop_yaml(&rubocop);
    assert_eq!(config.layout.access_modifier_indentation.enforced_style, AccessModifierStyle::Outdent);
    assert_eq!(config.layout.access_modifier_indentation.indentation_width, Some(4));
}

#[test]
fn test_begin_end_alignment() {
    let rubocop = yaml(vec![(
        "Layout/BeginEndAlignment",
        cop(None, Some("error"), &[("EnforcedStyleAlignWith", s("begin"))]),
    )]);
    let config = Config::from_rubocop_yaml(&rubocop);
    assert_eq!(config.layout.begin_end_alignment.enforced_style_align_with, BeginEndStyle::Begin);
    assert_eq!(config.layout.begin_end_alignment.severity, Severity::Error);
}

#[test]
fn test_indentation_consistency() {
    let rubocop = yaml(vec![(
        "Layout/IndentationConsistency",
        cop(None, None, &[("EnforcedStyle", s("indented_internal_methods"))]),
    )]);
    let config = Config::from_rubocop_yaml(&rubocop);
    assert_eq!(
        config.layout.indentation_consistency.enforced_style,
        IndentationConsistencyStyle::IndentedInternalMethods
    );
}

#[test]
fn test_unknown_cop_ignored() {
    let rubocop = yaml(vec![
        ("Layout/UnknownCop", cop(None, None, &[("SomeSetting", s("value"))])),
        ("Lint/UnknownLint", cop(Some(EnabledValue::Bool(false)), None, &[])),
    ]);
    let config = Config::from_rubocop_yaml(&rubocop);
    assert_eq!(config.layout.end_alignment.enforced_style_align_with, EndAlignmentStyle::Keyword);
    assert!(config == Config::default());
}

#[test]
fn test_multiple_cops() {
    let rubocop = yaml(vec![
        ("Layout/EndAlignment", cop(None, None, &[("EnforcedStyleAlignWith", s("variable"))])),
        ("Layout/IndentationWidth", cop(None, None, &[("Width", OptionValue::Integer(4))])),
        ("Layout/AccessModifierIndentation", cop(None, None, &[("EnforcedStyle", s("outdent"))])),
    ]);
    let config = Config::from_rubocop_yaml(&rubocop);
    assert_eq!(config.layout.end_alignment.enforced_style_align_with, EndAlignmentStyle::Variable);
    assert_eq!(config.layout.indentation_width.width, 4);
    assert_eq!(config.layout.access_modifier_indentation.enforced_style, AccessModifierStyle::Outdent);
}

#[test]
fn converter_test_enabled_false() {
    let rubocop = yaml(vec![("Layout/DefEndAlignment", cop(Some(EnabledValue::Bool(false)), None, &[]))]);
    let config = Config::from_rubocop_yaml(&rubocop);
    assert!(!config.layout.def_end_alignment.enabled);
}

#[test]
fn test_severity_override() {
    let rubocop = yaml(vec![("Layout/EndAlignment", cop(None, Some("error"), &[]))]);
    let config = Config::from_rubocop_yaml(&rubocop);
    assert_eq!(config.layout.end_alignment.severity, Severity::Error);
}

#[test]
fn test_merge_configs() {
    let parent = yaml(vec![(
        "Layout/EndAlignment",
        cop(Some(EnabledValue::Bool(true)), None, &[("EnforcedStyleAlignWith", s("keyword"))]),
    )]);
    let child = yaml(vec![("Layout/EndAlignment", cop(None, None, &[("EnforcedStyleAlignWith", s("variable"))]))]);
    let merged = Config::from_rubocop_yaml(&merge_configs(parent, child));
    assert!(merged.layout.end_alignment.enabled);
    assert_eq!(merged.layout.end_alignment.enforced_style_align_with, EndAlignmentStyle::Variable);
}

#[test]
fn test_merge_all_cops() {
    let mut parent = yaml(vec![]);
    parent.all_cops.target_ruby_version = Some("3.1".to_string());
    parent.all_cops.exclude = vec!["vendor/**/*".to_string()];
    let mut child = yaml(vec![]);
    child.all_cops.target_ruby_version = Some("3.2".to_string());
    let merged = merge_configs(parent, child);
    assert_eq!(merged.all_cops.target_ruby_version, Some("3.2".to_string()));
    assert_eq!(merged.all_cops.exclude.len(), 1);
}

#[test]
fn loader_test_enabled_false() {
    let rubocop = yaml(vec![("Layout/EndAlignment", cop(Some(EnabledValue::Bool(false)), None, &[]))]);
    let config = Config::from_rubocop_yaml(&rubocop);
    assert!(!config.layout.end_alignment.enabled);
}

#[test]
fn test_parse_enabled_pending() {
    // "pending" is treated as enabled (not explicitly disabled)
    assert!(EnabledValue::String("pending".to_string()).is_enabled());
    assert!(!EnabledValue::String("FALSE".to_string()).is_enabled());
    assert!(!EnabledValue::Bool(false).is_enabled());
}

#[test]
fn test_parse_inherit_from_single() {
    let paths = InheritFrom::Single(".rubocop_todo.yml".to_string()).to_paths();
    assert_eq!(paths.len(), 1);
    assert_eq!(paths[0], ".rubocop_todo.yml");
}

#[test]
fn test_parse_inherit_from_multiple() {
    let from = InheritFrom::Multiple(vec![".rubocop_todo.yml".to_string(), ".rubocop_custom.yml".to_string()]);
    assert_eq!(from.to_paths().len(), 2);
    assert!(!from.is_empty());
    assert!(InheritFrom::Unset.is_empty());
    assert!(InheritFrom::Multiple(vec![]).is_empty());
}

#[test]
fn child_settings_override_parent_settings_one_by_one() {
    let parent = yaml(vec![(
        "Layout/EndAlignment",
        cop(None, Some("error"), &[("EnforcedStyleAlignWith", s("start_of_line"))]),
    )]);
    let child = yaml(vec![("Layout/EndAlignment", cop(Some(EnabledValue::Bool(false)), None, &[]))]);
    let merged = Config::from_rubocop_yaml(&merge_configs(parent, child));
    assert!(!merged.layout.end_alignment.enabled);
    assert_eq!(merged.layout.end_alignment.severity, Severity::Error);
    assert_eq!(merged.layout.end_alignment.enforced_style_align_with, EndAlignmentStyle::StartOfLine);
}

#[test]
fn severity_names() {
    assert_eq!(parse_severity("R"), Severity::Refactor);
    assert_eq!(parse_severity("convention"), Severity::Convention);
    assert_eq!(parse_severity("Warning"), Severity::Warning);
    assert_eq!(parse_severity("e"), Severity::Error);
    assert_eq!(parse_severity("FATAL"), Severity::Fatal);
    assert_eq!(parse_severity("bogus"), Severity::Warning);
    let rubocop = yaml(vec![
        ("Lint/Debugger", cop(None, Some("Info"), &[])),
        ("Layout/EmptyLines", cop(None, Some("bogus"), &[])),
    ]);
    let config = Config::from_rubocop_yaml(&rubocop);
    assert_eq!(config.lint.debugger.severity, Severity::Convention);
    assert_eq!(config.layout.empty_lines.severity, Severity::Convention);
}

#[test]
fn merge_all_cops_keeps_parent_where_child_is_silent() {
    let mut parent = AllCopsConfig::default();
    parent.new_cops = Some("enable".to_string());
    parent.included = vec!["**/*.rb".to_string()];
    let mut child = AllCopsConfig::default();
    child.use_cache = Some(false);
    let merged = merge_all_cops(parent, child);
    assert_eq!(merged.new_cops, Some("enable".to_string()));
    assert_eq!(merged.included, vec!["**/*.rb".to_string()]);
    assert_eq!(merged.use_cache, Some(false));
    assert_eq!(merged.target_ruby_version, None);
}

#[test]
fn merge_inherited_later_files_override_earlier_ones() {
    let first = yaml(vec![("Layout/EndAlignment", cop(None, None, &[("EnforcedStyleAlignWith", s("variable"))]))]);
    let mut second = yaml(vec![("Layout/EndAlignment", cop(None, None, &[("EnforcedStyleAlignWith", s("start_of_line"))]))]);
    second.all_cops.target_ruby_version = Some("3.2".to_string());
    let mut child = yaml(vec![]);
    child.inherit_from = InheritFrom::Single("base.yml".to_string());
    let merged = merge_inherited(child, vec![first, second]);
    assert!(matches!(merged.inherit_from, InheritFrom::Single(_)));
    assert_eq!(merged.all_cops.target_ruby_version, Some("3.2".to_string()));
    let config = Config::from_rubocop_yaml(&merged);
    assert_eq!(config.layout.end_alignment.enforced_style_align_with, EndAlignmentStyle::StartOfLine);
}

#[test]
fn merge_inherited_child_overrides_all() {
    let first = yaml(vec![("Layout/EndAlignment", cop(None, None, &[("EnforcedStyleAlignWith", s("variable"))]))]);
    let child = yaml(vec![("Layout/EndAlignment", cop(None, None, &[("EnforcedStyleAlignWith", s("keyword"))]))]);
    let merged = merge_inherited(child, vec![first]);
    assert_eq!(merged.cops.len(), 2);
    let config = Config::from_rubocop_yaml(&merged);
    assert_eq!(config.layout.end_alignment.enforced_style_align_with, EndAlignmentStyle::Keyword);
    let alone = merge_inherited(yaml(vec![]), vec![]);
    assert!(alone.cops.is_empty());
}

#[test]
fn enter_detects_a_file_seen_before() {
    let mut visited = Vec::new();
    assert!(enter(&mut visited, "/a/.rubocop.yml".to_string()));
    assert!(enter(&mut visited, "/a/base.yml".to_string()));
    assert!(!enter(&mut visited, "/a/.rubocop.yml".to_string()));
    assert_eq!(visited.len(), 2);
}
