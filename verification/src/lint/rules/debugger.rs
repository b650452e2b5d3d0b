//! Lint/Debugger over a syntax tree: debugger calls left in the code.
use crate::layout::{findings, Diagnostic, Finding};
use crate::rules::lint::debugger::{receiver_debugger, spec_debugger_call, standalone_debugger};
use crate::syntax::{NodeKind, SyntaxNode};
use vstd::prelude::*;
use vstd::string::StringExecFns;

verus! {

/// The 1-based line and column reached after the first `k` bytes of `src`.
pub open spec fn line_col_after(src: Seq<u8>, k: int) -> (int, int)
    decreases k,
{
    if k <= 0 {
        (1, 1)
    } else {
        let p = line_col_after(src, k - 1);
        if src[k - 1] == 10u8 {
            (p.0 + 1, 1)
        } else {
            (p.0, p.1 + 1)
        }
    }
}

/// The 1-based line and column of `offset` in `src`; offsets past the end are at its end.
pub open spec fn spec_line_column(src: Seq<u8>, offset: int) -> (int, int) {
    line_col_after(src, if offset < src.len() { offset } else { src.len() as int })
}

/// The line grows by one at each newline and the column by one at any other byte.
proof fn lemma_line_col_bound(src: Seq<u8>, k: int)
    requires
        0 <= k <= src.len(),
    ensures
        1 <= line_col_after(src, k).0 <= k + 1,
        1 <= line_col_after(src, k).1 <= k + 1,
    decreases k,
{
    if k > 0 {
        lemma_line_col_bound(src, k - 1);
    }
}

/// The diagnostics for the debugger calls among the first `k` nodes of `t`.
pub open spec fn debugger_findings(src: Seq<u8>, t: Seq<SyntaxNode>, k: int) -> Seq<Finding>
    decreases k,
{
    if k <= 0 {
        Seq::empty()
    } else {
        let i = k - 1;
        debugger_findings(src, t, k - 1) + match spec_debugger_call(t, i) {
            Some(text) => {
                let lc = spec_line_column(src, t[i].start as int);
                seq![
                    Finding {
                        rule: "Lint/Debugger"@,
                        message: "Debugger statement `"@ + text + "` detected."@,
                        start: t[i].start as int,
                        end: t[i].end as int,
                        line: lc.0,
                        column: lc.1,
                    },
                ]
            },
            None => Seq::empty(),
        }
    }
}

/// Collects the debugger calls of a source.
pub struct DebuggerVisitor<'a> {
    source: &'a [u8],
    diagnostics: Vec<Diagnostic>,
}

impl<'a> DebuggerVisitor<'a> {
    /// A visitor of `source` with no diagnostic yet.
    pub fn new(source: &'a [u8]) -> (v: DebuggerVisitor<'a>)
        ensures
            v.spec_source() == source@,
            v.spec_diagnostics() == Seq::<Finding>::empty(),
    {
        let v = DebuggerVisitor { source, diagnostics: Vec::new() };
        assert(v.spec_diagnostics() =~= Seq::<Finding>::empty());
        v
    }

    /// The source being visited.
    pub closed spec fn spec_source(&self) -> Seq<u8> {
        self.source@
    }

    /// The diagnostics collected so far.
    pub closed spec fn spec_diagnostics(&self) -> Seq<Finding> {
        findings(self.diagnostics@)
    }

    /// Record a debugger call over `start_offset..end_offset`.
    pub fn add_diagnostic(&mut self, message: String, start_offset: usize, end_offset: usize)
        requires
            old(self).spec_source().len() <= isize::MAX,
        ensures
            final(self).spec_source() == old(self).spec_source(),
            final(self).spec_diagnostics() == old(self).spec_diagnostics().push(
                Finding {
                    rule: "Lint/Debugger"@,
                    message: message@,
                    start: start_offset as int,
                    end: end_offset as int,
                    line: spec_line_column(old(self).spec_source(), start_offset as int).0,
                    column: spec_line_column(old(self).spec_source(), start_offset as int).1,
                },
            ),
    {
        let (line, column) = self.offset_to_line_column(start_offset);
        let d = Diagnostic {
            rule: "Lint/Debugger",
            message,
            start: start_offset,
            end: end_offset,
            line,
            column,
        };
        let ghost before = self.diagnostics@;
        self.diagnostics.push(d);
        assert(findings(self.diagnostics@) =~= findings(before).push(d.finding()));
    }

    /// The 1-based line and column of `offset`, counting bytes.
    pub fn offset_to_line_column(&self, offset: usize) -> (r: (usize, usize))
        requires
            self.spec_source().len() <= isize::MAX,
        ensures
            r.0 == spec_line_column(self.spec_source(), offset as int).0,
            r.1 == spec_line_column(self.spec_source(), offset as int).1,
    {
        let mut line: usize = 1;
        let mut column: usize = 1;
        let mut i: usize = 0;
        while i < self.source.len() && i < offset
            invariant
                0 <= i <= self.source@.len(),
                i <= offset,
                self.source@.len() <= isize::MAX,
                (line as int, column as int) == line_col_after(self.source@, i as int),
            decreases self.source@.len() - i,
        {
            proof {
                lemma_line_col_bound(self.source@, i as int);
            }
            if self.source[i] == 10u8 {
                line = line + 1;
                column = 1;
            } else {
                column = column + 1;
            }
            i = i + 1;
        }
        (line, column)
    }

    /// Visit call node `i` of the tree.
    pub fn visit_call_node(&mut self, nodes: &Vec<SyntaxNode>, i: usize)
        requires
            old(self).spec_source().len() <= isize::MAX,
            i < nodes@.len(),
        ensures
            final(self).spec_source() == old(self).spec_source(),
            final(self).spec_diagnostics() == old(self).spec_diagnostics() + match spec_debugger_call(
                nodes@,
                i as int,
            ) {
                Some(text) => {
                    let lc = spec_line_column(old(self).spec_source(), nodes@[i as int].start as int);
                    seq![
                        Finding {
                            rule: "Lint/Debugger"@,
                            message: "Debugger statement `"@ + text + "` detected."@,
                            start: nodes@[i as int].start as int,
                            end: nodes@[i as int].end as int,
                            line: lc.0,
                            column: lc.1,
                        },
                    ]
                },
                None => Seq::empty(),
            },
    {
        let n = &nodes[i];
        let found = if n.kind != NodeKind::Call {
            None
        } else {
            match n.receiver {
                None => standalone_debugger(n.name.as_slice()),
                Some(r) => if r < nodes.len() && (nodes[r].kind == NodeKind::Call || nodes[r].kind
                    == NodeKind::ConstantRead) {
                    receiver_debugger(nodes[r].name.as_slice(), n.name.as_slice())
                } else {
                    None
                },
            }
        };
        match found {
            Some(text) => {
                let mut message = String::from_str("Debugger statement `");
                message.append(text);
                message.append("` detected.");
                self.add_diagnostic(message, n.start, n.end);
            },
            None => {
                assert(self.spec_diagnostics() =~= self.spec_diagnostics() + Seq::<Finding>::empty());
            },
        }
    }
}

/// Check for debugger statements in the source, whose syntax tree is `tree`.
pub fn check(source: &[u8], tree: &Vec<SyntaxNode>) -> (v: Vec<Diagnostic>)
    requires
        source@.len() <= isize::MAX,
    ensures
        findings(v@) == debugger_findings(source@, tree@, tree@.len() as int),
{
    let mut visitor = DebuggerVisitor::new(source);
    let mut i: usize = 0;
    while i < tree.len()
        invariant
            0 <= i <= tree@.len(),
            visitor.spec_source() == source@,
            source@.len() <= isize::MAX,
            visitor.spec_diagnostics() == debugger_findings(source@, tree@, i as int),
        decreases tree@.len() - i,
    {
        visitor.visit_call_node(tree, i);
        i = i + 1;
    }
    visitor.diagnostics
}

} // verus!
