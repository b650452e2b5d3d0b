//! A checker for Ruby source layout and lint rules, in the style of RuboCop.
use vstd::prelude::*;

mod checker;
pub mod bounds;
pub mod conflict;
pub mod config;
pub mod corrector;
pub mod fix;
pub mod layout;
pub mod lint;
pub mod diagnostic;
pub mod locator;
pub mod paths;
pub mod rule;
pub mod rules;
pub mod semantic;
pub mod syntax;
pub mod text;
pub mod utility;
pub mod utils;

pub use checker::Checker;
pub use config::Config;
pub use corrector::{ClobberingError, Corrector};
pub use locator::{Line, LineIndex};
pub use diagnostic::{Applicability, Diagnostic, Edit, Fix, Severity};
pub use rule::{Category, LayoutRule, LintRule, RuleId};

verus! {

/// Check a Ruby source with the default configuration: the node rules over its syntax tree,
/// then the line rules over its lines, then the rules on the whole file.
pub fn check(source: &[u8], tree: &Vec<syntax::SyntaxNode>) -> (v: Vec<Diagnostic>)
    requires
        source@.len() <= isize::MAX,
        tree@.len() <= isize::MAX,
    ensures
        diagnostic::diagnostic_models(v@) == checker::spec_check(
            source@,
            Config::spec_default(),
            tree@,
        ),
        fix::fixes_within(v@, source@.len() as int),
{
    check_with_config(source, &Config::default(), tree)
}

/// Check a Ruby source, whose syntax tree is `tree`, under `config`.
pub fn check_with_config(source: &[u8], config: &Config, tree: &Vec<syntax::SyntaxNode>) -> (v: Vec<
    Diagnostic,
>)
    requires
        source@.len() <= isize::MAX,
        tree@.len() <= isize::MAX,
    ensures
        diagnostic::diagnostic_models(v@) == checker::spec_check(source@, *config, tree@),
        fix::fixes_within(v@, source@.len() as int),
{
    let mut checker = Checker::new(source, config);
    checker.visit_nodes(tree);
    checker.visit_lines();
    checker.run_file_rules();
    let v = checker.into_diagnostics();
    proof {
        let src = source@;
        let cfg = *config;
        assert(diagnostic::diagnostic_models(v@) =~= checker::spec_check(src, cfg, tree@));
        bounds::lemma_check_fixes_within(src, cfg, tree@);
        bounds::lemma_models_to_fixes(v@, src.len() as int);
    }
    v
}

} // verus!
