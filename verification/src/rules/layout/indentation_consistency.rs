//! Layout/IndentationConsistency: each statement of a body is indented by two spaces for
//! every class, module, method definition and block around it.
use crate::checker::{opt_seq, report_model, Checker};
use crate::diagnostic::{DiagnosticModel, Severity};
use crate::locator::{line_of, line_ranges, line_text};
use crate::rule::{LayoutRule, RuleId};
use crate::syntax::{parent, parent_of, NodeKind, SyntaxNode};
use crate::text::{decimal, spec_decimal};
use vstd::prelude::*;
use vstd::string::StringExecFns;

verus! {

/// Layout/IndentationConsistency rule.
pub struct IndentationConsistency;

/// The kinds of nodes whose bodies are indented one level deeper.
pub open spec fn opens_level(k: NodeKind) -> bool {
    k == NodeKind::Class || k == NodeKind::Module || k == NodeKind::Def || k == NodeKind::Block
}

/// The number of classes, modules, method definitions and blocks around node `j`.
pub open spec fn nesting(t: Seq<SyntaxNode>, j: int) -> nat
    decreases j,
{
    if j < 0 || j >= t.len() {
        0
    } else {
        match parent_of(t, j) {
            None => 0,
            Some(p) => nesting(t, p) + if opens_level(t[p].kind) {
                1nat
            } else {
                0nat
            },
        }
    }
}

/// The end of the run of spaces of `t` that goes on at `k`.
pub open spec fn space_prefix(t: Seq<u8>, k: int) -> int
    decreases t.len() - k,
{
    if k < 0 || k >= t.len() || t[k] != 32u8 {
        k
    } else {
        space_prefix(t, k + 1)
    }
}

/// The message for a statement indented by `found` spaces where `expected` are wanted.
pub open spec fn consistency_message(expected: nat, found: nat) -> Seq<char> {
    "Incorrect indentation. Expected "@ + spec_decimal(expected) + ", found "@ + spec_decimal(
        found,
    ) + "."@
}

/// The diagnostic for statement `c` of `t`, which should be indented by `expected` spaces.
pub open spec fn statement_finding(src: Seq<u8>, expected: nat, t: Seq<SyntaxNode>, c: int) -> Option<
    DiagnosticModel,
> {
    if c < 0 || c >= t.len() || t[c].start > src.len() {
        None
    } else {
        let found = space_prefix(line_text(src, line_of(line_ranges(src), t[c].start as int)), 0);
        if found == expected {
            None
        } else {
            Some(
                report_model(
                    src,
                    RuleId::Layout(LayoutRule::IndentationConsistency),
                    consistency_message(expected, found as nat),
                    Severity::Warning,
                    t[c].start as int,
                    t[c].end as int,
                    None,
                ),
            )
        }
    }
}

/// The diagnostics for the first `k` statements of the statements node `i`.
pub open spec fn statements_findings(src: Seq<u8>, t: Seq<SyntaxNode>, i: int, k: int) -> Seq<
    DiagnosticModel,
>
    decreases k,
{
    if k <= 0 {
        Seq::empty()
    } else {
        statements_findings(src, t, i, k - 1) + opt_seq(
            statement_finding(src, 2 * nesting(t, i), t, t[i].children[k - 1] as int),
        )
    }
}

/// The diagnostics for node `i` of `t` when it is a statements node.
pub open spec fn consistency_findings(src: Seq<u8>, t: Seq<SyntaxNode>, i: int) -> Seq<
    DiagnosticModel,
> {
    if t[i].kind == NodeKind::Statements {
        statements_findings(src, t, i, t[i].children.len() as int)
    } else {
        Seq::empty()
    }
}

/// The nesting of a node counts its enclosing classes, modules, method definitions and blocks:
/// a node without a parent is at level 0, and a node is one level deeper than its parent exactly
/// when the parent is a class, a module, a method definition or a block. So the statements of a
/// module at the top level are expected two spaces in.
pub proof fn lemma_nesting_levels(t: Seq<SyntaxNode>, j: int)
    requires
        0 <= j < t.len(),
    ensures
        parent_of(t, j) is None ==> nesting(t, j) == 0,
        parent_of(t, j) matches Some(p) ==> nesting(t, j) == nesting(t, p) + if t[p].kind
            == NodeKind::Class || t[p].kind == NodeKind::Module || t[p].kind == NodeKind::Def
            || t[p].kind == NodeKind::Block {
            1int
        } else {
            0int
        },
        parent_of(t, j) matches Some(p) ==> (t[p].kind == NodeKind::Module ==> nesting(t, j)
            == nesting(t, p) + 1),
        parent_of(t, j) matches Some(p) ==> (parent_of(t, p) matches Some(q) ==> (parent_of(t, q)
            is None && t[q].kind == NodeKind::Statements && t[p].kind == NodeKind::Module ==> 2
            * nesting(t, j) == 2)),
{
    if let Some(p) = parent_of(t, j) {
        assert(0 <= p < j);
        if let Some(q) = parent_of(t, p) {
            assert(0 <= q < p);
            if parent_of(t, q) is None && t[q].kind == NodeKind::Statements {
                assert(nesting(t, q) == 0);
                assert(nesting(t, p) == 0);
            }
        }
    }
}

/// `space_prefix` runs over the spaces (byte 32) from `k` on, and stops at the first other byte
/// or at the end.
proof fn lemma_space_run(t: Seq<u8>, k: int)
    requires
        0 <= k <= t.len(),
    ensures
        k <= space_prefix(t, k) <= t.len(),
        forall|m: int| k <= m < space_prefix(t, k) ==> #[trigger] t[m] == 32u8,
        space_prefix(t, k) < t.len() ==> t[space_prefix(t, k)] != 32u8,
    decreases t.len() - k,
{
    if k < t.len() && t[k] == 32u8 {
        lemma_space_run(t, k + 1);
    }
}

/// Each statement of a statements node is checked against an indentation of two spaces for each
/// enclosing class, module, method definition or block: a statement whose line starts with
/// exactly that many spaces gives nothing; any other gives a warning over the statement that
/// names the expected and the found number of leading spaces.
pub proof fn lemma_statement_indent(src: Seq<u8>, t: Seq<SyntaxNode>, i: int, k: int)
    requires
        0 <= i < t.len(),
        t[i].kind == NodeKind::Statements,
        0 <= k < t[i].children.len(),
        t[i].children[k] < t.len(),
        t[t[i].children[k] as int].start <= src.len(),
    ensures
        ({
            let c = t[i].children[k] as int;
            let text = line_text(src, line_of(line_ranges(src), t[c].start as int));
            let found = space_prefix(text, 0);
            &&& 0 <= found <= text.len()
            &&& forall|m: int| 0 <= m < found ==> #[trigger] text[m] == 32u8
            &&& found < text.len() ==> text[found] != 32u8
            &&& statements_findings(src, t, i, k + 1) == statements_findings(src, t, i, k) + if found
                == 2 * nesting(t, i) {
                Seq::<DiagnosticModel>::empty()
            } else {
                seq![
                    report_model(
                        src,
                        RuleId::Layout(LayoutRule::IndentationConsistency),
                        "Incorrect indentation. Expected "@ + spec_decimal(2 * nesting(t, i))
                            + ", found "@ + spec_decimal(found as nat) + "."@,
                        Severity::Warning,
                        t[c].start as int,
                        t[c].end as int,
                        None,
                    ),
                ]
            }
        }),
{
    let c = t[i].children[k] as int;
    let text = line_text(src, line_of(line_ranges(src), t[c].start as int));
    lemma_space_run(text, 0);
    let found = space_prefix(text, 0);
    if found == 2 * nesting(t, i) {
        assert(opt_seq(statement_finding(src, 2 * nesting(t, i), t, c)) =~= Seq::<
            DiagnosticModel,
        >::empty());
    }
}

/// The indentation that the statements of node `i` should have.
pub fn calculate_expected_indent(nodes: &Vec<SyntaxNode>, i: usize) -> (r: usize)
    requires
        i < nodes@.len(),
        nodes@.len() <= isize::MAX,
    ensures
        r == 2 * nesting(nodes@, i as int),
{
    let mut indent: usize = 0;
    let mut current = i;
    loop
        invariant
            current <= i < nodes@.len(),
            nodes@.len() <= isize::MAX,
            indent <= 2 * (i - current),
            2 * nesting(nodes@, i as int) == indent + 2 * nesting(nodes@, current as int),
        ensures
            2 * nesting(nodes@, i as int) == indent,
        decreases current,
    {
        match parent(nodes, current) {
            Some(p) => {
                if nodes[p].kind == NodeKind::Class || nodes[p].kind == NodeKind::Module
                    || nodes[p].kind == NodeKind::Def || nodes[p].kind == NodeKind::Block {
                    indent = indent + 2;
                }
                current = p;
            },
            None => {
                break;
            },
        }
    }
    indent
}

/// The number of leading spaces of `t`.
fn count_leading_spaces(t: &[u8]) -> (n: usize)
    ensures
        n == space_prefix(t@, 0),
{
    let mut k: usize = 0;
    while k < t.len() && t[k] == 32u8
        invariant
            0 <= k <= t@.len(),
            space_prefix(t@, k as int) == space_prefix(t@, 0),
        decreases t@.len() - k,
    {
        k = k + 1;
    }
    k
}

/// Check the indentation of statement `c` against `expected_indent`.
fn check_statement_indent(
    nodes: &Vec<SyntaxNode>,
    c: usize,
    expected_indent: usize,
    checker: &mut Checker,
)
    requires
        old(checker).wf(),
    ensures
        final(checker).wf(),
        final(checker).spec_source() == old(checker).spec_source(),
        final(checker).spec_config() == old(checker).spec_config(),
        final(checker).ignored_nodes() == old(checker).ignored_nodes(),
        final(checker).reported() == old(checker).reported() + opt_seq(
            statement_finding(old(checker).spec_source(), expected_indent as nat, nodes@, c as int),
        ),
{
    let ghost src = checker.spec_source();
    if c >= nodes.len() || nodes[c].start > checker.source().len() {
        assert(checker.reported() =~= checker.reported() + Seq::<DiagnosticModel>::empty());
        return;
    }
    let start = nodes[c].start;
    let end = nodes[c].end;
    let idx = checker.line_index();
    proof {
        crate::locator::lemma_split_line_of(src, idx@, start as int);
        idx.lemma_lines();
    }
    let start_line = idx.line_index(start);
    let line_bytes = idx.lines()[start_line].text;
    assert(line_bytes@ == line_text(src, line_of(line_ranges(src), start as int)));
    let actual_indent = count_leading_spaces(line_bytes);
    if actual_indent != expected_indent {
        let mut message = String::from_str("Incorrect indentation. Expected ");
        let e = decimal(expected_indent);
        message.append(e.as_str());
        message.append(", found ");
        let a = decimal(actual_indent);
        message.append(a.as_str());
        message.append(".");
        checker.report(
            RuleId::Layout(LayoutRule::IndentationConsistency),
            message,
            Severity::Warning,
            start,
            end,
            None,
        );
    } else {
        assert(checker.reported() =~= checker.reported() + Seq::<DiagnosticModel>::empty());
    }
}

impl IndentationConsistency {
    /// Check node `i` of the tree: when it is a statements node, each of its statements.
    pub fn check(nodes: &Vec<SyntaxNode>, i: usize, checker: &mut Checker)
        requires
            old(checker).wf(),
            i < nodes@.len(),
            nodes@.len() <= isize::MAX,
        ensures
            final(checker).wf(),
            final(checker).spec_source() == old(checker).spec_source(),
            final(checker).spec_config() == old(checker).spec_config(),
            final(checker).ignored_nodes() == old(checker).ignored_nodes(),
            final(checker).reported() == old(checker).reported() + consistency_findings(
                old(checker).spec_source(),
                nodes@,
                i as int,
            ),
    {
        if nodes[i].kind != NodeKind::Statements {
            assert(checker.reported() =~= checker.reported() + Seq::<DiagnosticModel>::empty());
            return;
        }
        let expected_indent = calculate_expected_indent(nodes, i);
        let body = &nodes[i].children;
        let mut k: usize = 0;
        while k < body.len()
            invariant
                checker.wf(),
                checker.spec_source() == old(checker).spec_source(),
                checker.spec_config() == old(checker).spec_config(),
                checker.ignored_nodes() == old(checker).ignored_nodes(),
                i < nodes@.len(),
                body == nodes@[i as int].children,
                expected_indent == 2 * nesting(nodes@, i as int),
                0 <= k <= body@.len(),
                checker.reported() == old(checker).reported() + statements_findings(
                    old(checker).spec_source(),
                    nodes@,
                    i as int,
                    k as int,
                ),
            decreases body@.len() - k,
        {
            check_statement_indent(nodes, body[k], expected_indent, checker);
            proof {
                assert(statements_findings(old(checker).spec_source(), nodes@, i as int, k + 1)
                    == statements_findings(old(checker).spec_source(), nodes@, i as int, k as int)
                    + opt_seq(
                    statement_finding(
                        old(checker).spec_source(),
                        2 * nesting(nodes@, i as int),
                        nodes@,
                        nodes@[i as int].children[k as int] as int,
                    ),
                ));
            }
            k = k + 1;
        }
    }
}

} // verus!
