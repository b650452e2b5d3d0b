use reukocyte::config::{CopConfig, EnabledValue};
use reukocyte::paths::{check_with_config_and_path, cop_runs_on, should_run_cop};
use reukocyte::syntax::{NodeKind, SyntaxNode};
use reukocyte::{Config, Diagnostic};

fn strings(v: &[&str]) -> Vec<String> {
    v.iter().map(|s| s.to_string()).collect()
}

fn cop(included: &[&str], exclude: &[&str]) -> CopConfig {
    CopConfig {
        enabled: Some(EnabledValue::Bool(true)),
        severity: None,
        options: Vec::new(),
        exclude: strings(exclude),
        included: strings(included),
    }
}

fn program(len: usize) -> Vec<SyntaxNode> {
    let node = |kind, parent| SyntaxNode {
        kind,
        start: 0,
        end: len,
        parent,
        keyword: None,
        end_keyword: None,
        name: Vec::new(),
        receiver: None,
        arguments: None,
        value: None,
        children: Vec::new(),
    };
    vec![node(NodeKind::Program, None), node(NodeKind::Statements, Some(0))]
}

fn rules(ds: &[Diagnostic]) -> Vec<String> {
    ds.iter().map(|d| d.rule().to_string()).collect()
}

#[test]
fn exclude_pattern_leaves_file_out() {
    assert!(!should_run_cop(&Vec::new(), &strings(&["vendor/**"]), "vendor/lib/a.rb"));
    assert!(should_run_cop(&Vec::new(), &strings(&["vendor/**"]), "app/a.rb"));
    assert!(should_run_cop(&Vec::new(), &Vec::new(), "app/a.rb"));
}

#[test]
fn include_pattern_keeps_only_matching_files() {
    assert!(should_run_cop(&strings(&["**/*.rb"]), &Vec::new(), "app/a.rb"));
    assert!(!should_run_cop(&strings(&["**/*.rake"]), &Vec::new(), "app/a.rb"));
    assert!(!should_run_cop(&strings(&["**/*.rb"]), &strings(&["app/*"]), "app/a.rb"));
}

#[test]
fn invalid_pattern_matches_nothing() {
    assert!(should_run_cop(&Vec::new(), &strings(&["a[b"]), "a[b"));
}

#[test]
fn cop_runs_by_name() {
    let cops = vec![("Layout/TrailingWhitespace".to_string(), cop(&[], &["spec/**"]))];
    assert!(!cop_runs_on(&cops, "Layout/TrailingWhitespace", "spec/a_spec.rb"));
    assert!(cop_runs_on(&cops, "Layout/TrailingWhitespace", "lib/a.rb"));
    assert!(cop_runs_on(&cops, "Layout/EmptyLines", "spec/a_spec.rb"));
}

#[test]
fn check_with_path_skips_excluded_cops() {
    let src = b"x = 1  \n";
    let tree = program(src.len() - 1);
    let cops = vec![("Layout/TrailingWhitespace".to_string(), cop(&[], &["spec/**"]))];
    let config = Config::default();
    let all = check_with_config_and_path(src, &config, &tree, None, &cops);
    assert!(rules(&all).contains(&"Layout/TrailingWhitespace".to_string()));
    let kept = check_with_config_and_path(src, &config, &tree, Some("lib/a.rb"), &cops);
    assert_eq!(rules(&kept), rules(&all));
    let excluded = check_with_config_and_path(src, &config, &tree, Some("spec/a_spec.rb"), &cops);
    assert!(!rules(&excluded).contains(&"Layout/TrailingWhitespace".to_string()));
}
