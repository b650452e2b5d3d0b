//! The checker: the source, its lines, the configuration, and the diagnostics reported.
use crate::config::Config;
use crate::diagnostic::{diagnostic_models, fix_model, Diagnostic, DiagnosticModel, Fix, FixModel, Severity};
use crate::locator::{line_of, line_ranges, Line, LineIndex};
use crate::rule::RuleId;
use crate::rules::layout::begin_end_alignment::{begin_end_finding, BeginEndAlignment};
use crate::rules::layout::def_end_alignment::{def_end_finding, DefEndAlignment};
use crate::rules::layout::empty_lines::{empty_lines_finding, EmptyLines};
use crate::rules::layout::end_alignment::{end_alignment_step, EndAlignment};
use crate::rules::layout::indentation_consistency::{consistency_findings, IndentationConsistency};
use crate::rules::layout::indentation_style::{indentation_style_finding, IndentationStyle};
use crate::rules::layout::leading_empty_lines::{leading_empty_lines_finding, LeadingEmptyLines};
use crate::rules::layout::trailing_empty_lines::trailing_empty_lines_finding;
use crate::rules::layout::trailing_whitespace::{trailing_whitespace_finding, TrailingWhitespace};
use crate::rules::lint::debugger::{debugger_finding, Debugger};
use crate::syntax::SyntaxNode;
use vstd::prelude::*;

verus! {

/// The diagnostic that a report of a violation of `rule_id` over `start..end` of `src` gives:
/// the line and column are those of `start`.
pub open spec fn report_model(
    src: Seq<u8>,
    rule_id: RuleId,
    message: Seq<char>,
    severity: Severity,
    start: int,
    end: int,
    fix: Option<FixModel>,
) -> DiagnosticModel {
    let l = line_of(line_ranges(src), start);
    DiagnosticModel {
        rule_id,
        message,
        severity,
        start,
        end,
        line: l + 1,
        column: start - line_ranges(src)[l].0 + 1,
        fix,
    }
}

/// What the node rules report for node `i` of `t`, in the order in which they run, and the
/// nodes that they mark to be skipped; `ignored` are the nodes marked before.
pub open spec fn node_step(
    src: Seq<u8>,
    cfg: Config,
    ignored: Seq<(usize, usize)>,
    t: Seq<SyntaxNode>,
    i: int,
) -> (Seq<DiagnosticModel>, Seq<(usize, usize)>) {
    let ea = if cfg.layout.end_alignment.enabled {
        end_alignment_step(src, cfg.layout.end_alignment, ignored, t, i)
    } else {
        (Seq::empty(), Seq::empty())
    };
    let ign = ignored + ea.1;
    let be = if cfg.layout.begin_end_alignment.enabled {
        opt_seq(begin_end_finding(src, cfg.layout.begin_end_alignment, ign, t, i))
    } else {
        Seq::empty()
    };
    let de = if cfg.layout.def_end_alignment.enabled {
        opt_seq(def_end_finding(src, cfg.layout.def_end_alignment, ign, t, i))
    } else {
        Seq::empty()
    };
    let ic = if cfg.layout.indentation_consistency.enabled {
        consistency_findings(src, t, i)
    } else {
        Seq::empty()
    };
    let db = if cfg.lint.debugger.enabled {
        opt_seq(debugger_finding(src, cfg.lint.debugger, t, i))
    } else {
        Seq::empty()
    };
    (ea.0 + be + de + ic + db, ea.1)
}

/// What the node rules report for the first `k` nodes of `t`, visited in order, and the
/// nodes that they mark to be skipped.
pub open spec fn node_phase(src: Seq<u8>, cfg: Config, t: Seq<SyntaxNode>, k: int) -> (
    Seq<DiagnosticModel>,
    Seq<(usize, usize)>,
)
    decreases k,
{
    if k <= 0 {
        (Seq::empty(), Seq::empty())
    } else {
        let prev = node_phase(src, cfg, t, k - 1);
        let step = node_step(src, cfg, prev.1, t, k - 1);
        (prev.0 + step.0, prev.1 + step.1)
    }
}

/// What the line rules report for line `i` of `src`, in the order in which they run.
pub open spec fn line_step(src: Seq<u8>, cfg: Config, i: int) -> Seq<DiagnosticModel> {
    opt_seq(empty_lines_finding(src, cfg.layout.empty_lines, i)) + opt_seq(
        indentation_style_finding(src, cfg.layout.indentation_style, i),
    ) + opt_seq(leading_empty_lines_finding(src, cfg.layout.leading_empty_lines, i)) + if cfg.layout.trailing_whitespace.enabled {
        opt_seq(trailing_whitespace_finding(src, i))
    } else {
        Seq::empty()
    }
}

/// What the line rules report for the first `k` lines of `src`.
pub open spec fn line_phase(src: Seq<u8>, cfg: Config, k: int) -> Seq<DiagnosticModel>
    decreases k,
{
    if k <= 0 {
        Seq::empty()
    } else {
        line_phase(src, cfg, k - 1) + line_step(src, cfg, k - 1)
    }
}

/// Everything that a check of `src` with syntax tree `t` under `cfg` reports: the node rules
/// over the tree, then the line rules over the lines, then the rules on the whole file.
pub open spec fn spec_check(src: Seq<u8>, cfg: Config, t: Seq<SyntaxNode>) -> Seq<DiagnosticModel> {
    node_phase(src, cfg, t, t.len() as int).0 + line_phase(src, cfg, line_ranges(src).len() as int)
        + opt_seq(trailing_empty_lines_finding(src, cfg.layout.trailing_empty_lines))
}

/// A checker for one source: it holds the source, its lines and the configuration,
/// and collects the diagnostics that rules report.
pub struct Checker<'rk> {
    source: &'rk [u8],
    config: Config,
    line_index: LineIndex<'rk>,
    diagnostics: Vec<Diagnostic>,
    ignored: Vec<(usize, usize)>,
}

/// The diagnostics that an optional finding adds: none or one.
pub open spec fn opt_seq(o: Option<DiagnosticModel>) -> Seq<DiagnosticModel> {
    match o {
        Some(d) => seq![d],
        None => Seq::empty(),
    }
}

impl<'rk> Checker<'rk> {
    /// The source being checked.
    pub closed spec fn spec_source(&self) -> Seq<u8> {
        self.source@
    }

    /// The configuration in force.
    pub closed spec fn spec_config(&self) -> Config {
        self.config
    }

    /// The diagnostics reported so far, in order.
    pub closed spec fn reported(&self) -> Seq<DiagnosticModel> {
        diagnostic_models(self.diagnostics@)
    }

    /// The byte ranges of the nodes that later checks skip, in the order they were marked.
    pub closed spec fn ignored_nodes(&self) -> Seq<(usize, usize)> {
        self.ignored@
    }

    /// The checker's lines describe its source.
    pub closed spec fn wf(&self) -> bool {
        &&& self.line_index.wf()
        &&& self.line_index.source() == self.source@
        &&& self.source@.len() < usize::MAX
        &&& self.source@.len() <= isize::MAX
    }

    /// A well-formed checker's source fits in memory.
    pub proof fn lemma_source_len(&self)
        requires
            self.wf(),
        ensures
            self.spec_source().len() <= isize::MAX,
            self.spec_source().len() < usize::MAX,
    {
    }

    /// Create a checker for `source` with no diagnostics yet.
    pub fn new(source: &'rk [u8], config: &Config) -> (c: Checker<'rk>)
        requires
            source@.len() <= isize::MAX,
        ensures
            c.wf(),
            c.spec_source() == source@,
            c.spec_config() == *config,
            c.reported() == Seq::<DiagnosticModel>::empty(),
            c.ignored_nodes() == Seq::<(usize, usize)>::empty(),
    {
        let c = Checker {
            source,
            config: *config,
            line_index: LineIndex::from_source(source),
            diagnostics: Vec::new(),
            ignored: Vec::new(),
        };
        assert(c.reported() =~= Seq::<DiagnosticModel>::empty());
        c
    }

    /// The source being checked.
    pub fn source(&self) -> (s: &'rk [u8])
        ensures
            s@ == self.spec_source(),
    {
        self.source
    }

    /// The configuration in force.
    pub fn config(&self) -> (c: &Config)
        ensures
            *c == self.spec_config(),
    {
        &self.config
    }

    /// The lines of the source.
    pub fn line_index(&self) -> (l: &LineIndex<'rk>)
        requires
            self.wf(),
        ensures
            l.wf(),
            l.source() == self.spec_source(),
    {
        &self.line_index
    }

    /// Record a violation of `rule_id` over `start..end`.
    pub fn report(
        &mut self,
        rule_id: RuleId,
        message: String,
        severity: Severity,
        start: usize,
        end: usize,
        fix: Option<Fix>,
    )
        requires
            old(self).wf(),
            start <= old(self).spec_source().len(),
        ensures
            final(self).wf(),
            final(self).spec_source() == old(self).spec_source(),
            final(self).spec_config() == old(self).spec_config(),
            final(self).ignored_nodes() == old(self).ignored_nodes(),
            final(self).reported() == old(self).reported().push(
                report_model(
                    old(self).spec_source(),
                    rule_id,
                    message@,
                    severity,
                    start as int,
                    end as int,
                    fix_model(fix),
                ),
            ),
    {
        proof {
            crate::locator::lemma_split_line_of(self.line_index.source(), self.line_index@, start as int);
        }
        let (line, column) = self.line_index.line_column(start);
        let ghost before = self.diagnostics@;
        self.diagnostics.push(
            Diagnostic { rule_id, message, severity, start, end, line, column, fix },
        );
        assert(diagnostic_models(self.diagnostics@) =~= diagnostic_models(before).push(
            self.diagnostics@.last()@,
        ));
    }

    /// Mark the node over `start..end` so that checks of it are skipped.
    pub fn ignore_node(&mut self, start: usize, end: usize)
        requires
            old(self).wf(),
        ensures
            final(self).wf(),
            final(self).spec_source() == old(self).spec_source(),
            final(self).spec_config() == old(self).spec_config(),
            final(self).reported() == old(self).reported(),
            final(self).ignored_nodes() == old(self).ignored_nodes().push((start, end)),
    {
        self.ignored.push((start, end));
    }

    /// Whether the node over `start..end` was marked to be skipped.
    pub fn is_ignored_node(&self, start: usize, end: usize) -> (r: bool)
        ensures
            r == self.ignored_nodes().contains((start, end)),
    {
        let mut i: usize = 0;
        while i < self.ignored.len()
            invariant
                0 <= i <= self.ignored@.len(),
                forall|j: int| 0 <= j < i ==> self.ignored@[j] != (start, end),
            decreases self.ignored@.len() - i,
        {
            let (s, e) = self.ignored[i];
            if s == start && e == end {
                assert(self.ignored@[i as int] == (start, end));
                return true;
            }
            i = i + 1;
        }
        false
    }

    /// Run the node rules over node `i` of the tree.
    #[verifier::rlimit(60)]
    fn visit_node(&mut self, nodes: &Vec<SyntaxNode>, i: usize)
        requires
            old(self).wf(),
            i < nodes@.len(),
            nodes@.len() <= isize::MAX,
        ensures
            final(self).wf(),
            final(self).spec_source() == old(self).spec_source(),
            final(self).spec_config() == old(self).spec_config(),
            final(self).reported() == old(self).reported() + node_step(
                old(self).spec_source(),
                old(self).spec_config(),
                old(self).ignored_nodes(),
                nodes@,
                i as int,
            ).0,
            final(self).ignored_nodes() == old(self).ignored_nodes() + node_step(
                old(self).spec_source(),
                old(self).spec_config(),
                old(self).ignored_nodes(),
                nodes@,
                i as int,
            ).1,
    {
        let ghost src = self.spec_source();
        let ghost cfg = self.spec_config();
        let ghost r0 = self.reported();
        let ghost ign0 = self.ignored_nodes();
        let layout = self.config.layout;
        if layout.end_alignment.enabled {
            EndAlignment::check(nodes, i, self);
        } else {
            assert(self.reported() =~= r0 + Seq::<DiagnosticModel>::empty());
            assert(self.ignored_nodes() =~= ign0 + Seq::<(usize, usize)>::empty());
        }
        let ghost r1 = self.reported();
        if layout.begin_end_alignment.enabled {
            BeginEndAlignment::check(nodes, i, self);
        }
        let ghost r2 = self.reported();
        if layout.def_end_alignment.enabled {
            DefEndAlignment::check(nodes, i, self);
        }
        let ghost r3 = self.reported();
        if layout.indentation_consistency.enabled {
            IndentationConsistency::check(nodes, i, self);
        }
        let ghost r4 = self.reported();
        if self.config.lint.debugger.enabled {
            Debugger::check(nodes, i, self);
        }
        proof {
            let step = node_step(src, cfg, ign0, nodes@, i as int);
            assert(self.reported() =~= r0 + step.0);
        }
    }

    /// Run the line rules over one line.
    fn visit_line(&mut self, line: &Line)
        requires
            old(self).wf(),
            crate::locator::is_line_of(old(self).spec_source(), *line),
        ensures
            final(self).wf(),
            final(self).spec_source() == old(self).spec_source(),
            final(self).spec_config() == old(self).spec_config(),
            final(self).ignored_nodes() == old(self).ignored_nodes(),
            final(self).reported() == old(self).reported() + line_step(
                old(self).spec_source(),
                old(self).spec_config(),
                line.index as int,
            ),
    {
        let ghost src = self.spec_source();
        let ghost cfg = self.spec_config();
        let ghost r0 = self.reported();
        EmptyLines::check(line, self);
        IndentationStyle::check(line, self);
        LeadingEmptyLines::check(line, self);
        let ghost r3 = self.reported();
        if self.config.layout.trailing_whitespace.enabled {
            TrailingWhitespace::check(line, self);
        } else {
            assert(self.reported() =~= r3 + Seq::<DiagnosticModel>::empty());
        }
        assert(self.reported() =~= r0 + line_step(src, cfg, line.index as int));
    }

    /// Run the node rules over every node of the tree, in order.
    pub fn visit_nodes(&mut self, nodes: &Vec<SyntaxNode>)
        requires
            old(self).wf(),
            old(self).ignored_nodes() == Seq::<(usize, usize)>::empty(),
            nodes@.len() <= isize::MAX,
        ensures
            final(self).wf(),
            final(self).spec_source() == old(self).spec_source(),
            final(self).spec_config() == old(self).spec_config(),
            final(self).reported() == old(self).reported() + node_phase(
                old(self).spec_source(),
                old(self).spec_config(),
                nodes@,
                nodes@.len() as int,
            ).0,
            final(self).ignored_nodes() == node_phase(
                old(self).spec_source(),
                old(self).spec_config(),
                nodes@,
                nodes@.len() as int,
            ).1,
    {
        let ghost src = self.spec_source();
        let ghost cfg = self.spec_config();
        let ghost start = self.reported();
        let mut i: usize = 0;
        while i < nodes.len()
            invariant
                self.wf(),
                self.spec_source() == src,
                self.spec_config() == cfg,
                nodes@.len() <= isize::MAX,
                0 <= i <= nodes@.len(),
                self.reported() == start + node_phase(src, cfg, nodes@, i as int).0,
                self.ignored_nodes() == node_phase(src, cfg, nodes@, i as int).1,
            decreases nodes@.len() - i,
        {
            let ghost ign0 = self.ignored_nodes();
            self.visit_node(nodes, i);
            proof {
                let step = node_step(src, cfg, ign0, nodes@, i as int);
                assert(node_phase(src, cfg, nodes@, i + 1) == (
                    node_phase(src, cfg, nodes@, i as int).0 + step.0,
                    node_phase(src, cfg, nodes@, i as int).1 + step.1,
                ));
            }
            i = i + 1;
        }
    }

    /// Run the line rules over every line of the source, in order.
    pub fn visit_lines(&mut self)
        requires
            old(self).wf(),
        ensures
            final(self).wf(),
            final(self).spec_source() == old(self).spec_source(),
            final(self).spec_config() == old(self).spec_config(),
            final(self).ignored_nodes() == old(self).ignored_nodes(),
            final(self).reported() == old(self).reported() + line_phase(
                old(self).spec_source(),
                old(self).spec_config(),
                line_ranges(old(self).spec_source()).len() as int,
            ),
    {
        let ghost src = self.spec_source();
        let ghost cfg = self.spec_config();
        let ghost start = self.reported();
        let count = self.line_index.line_count();
        proof {
            self.line_index.lemma_lines();
        }
        let mut i: usize = 0;
        while i < count
            invariant
                self.wf(),
                self.spec_source() == src,
                self.spec_config() == cfg,
                self.ignored_nodes() == old(self).ignored_nodes(),
                count == line_ranges(src).len(),
                0 <= i <= count,
                self.reported() == start + line_phase(src, cfg, i as int),
            decreases count - i,
        {
            let line: Line<'rk> = self.line_index.lines()[i];
            proof {
                self.line_index.lemma_lines();
                assert(crate::locator::is_line_of(src, line));
            }
            self.visit_line(&line);
            proof {
                assert(line.index == i);
            }
            i = i + 1;
        }
    }

    /// Run the rules that look at the whole file.
    pub fn run_file_rules(&mut self)
        requires
            old(self).wf(),
        ensures
            final(self).wf(),
            final(self).spec_source() == old(self).spec_source(),
            final(self).spec_config() == old(self).spec_config(),
            final(self).reported() == old(self).reported() + opt_seq(
                trailing_empty_lines_finding(
                    old(self).spec_source(),
                    old(self).spec_config().layout.trailing_empty_lines,
                ),
            ),
    {
        crate::rules::layout::trailing_empty_lines::check(self);
    }

    /// The diagnostics reported, in order.
    pub fn into_diagnostics(self) -> (v: Vec<Diagnostic>)
        ensures
            diagnostic_models(v@) == self.reported(),
    {
        self.diagnostics
    }
}

} // verus!
