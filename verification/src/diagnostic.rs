//! Diagnostics, the fixes attached to them, and the edits fixes are made of.
use crate::rule::{spec_full_name, RuleId};
use vstd::prelude::*;

verus! {

/// How serious a violation is.
#[derive(Debug, Clone, Copy, PartialEq, Eq, Structural, Hash)]
pub enum Severity {
    Refactor,
    Convention,
    Warning,
    Error,
    Fatal,
}

impl Default for Severity {
    fn default() -> (s: Severity)
        ensures
            s == Severity::Convention,
    {
        Severity::Convention
    }
}

/// Whether a fix may be applied automatically.
#[derive(Debug, Clone, Copy, PartialEq, Eq, Structural, Hash)]
pub enum Applicability {
    /// The fix preserves the program's meaning.
    Safe,
    /// The fix may change the program's meaning.
    Unsafe,
    /// The fix is only shown, never applied.
    DisplayOnly,
}

/// A single edit: replace the bytes `start..end` of the source by `content`.
#[derive(Debug)]
pub struct Edit {
    pub start: usize,
    pub end: usize,
    pub content: String,
}

/// A fix: a list of edits together with its applicability.
#[derive(Debug)]
pub struct Fix {
    pub applicability: Applicability,
    pub edits: Vec<Edit>,
}

/// A diagnostic message for a rule violation.
#[derive(Debug)]
pub struct Diagnostic {
    /// The rule that reported the violation.
    pub rule_id: RuleId,
    /// The message describing the violation.
    pub message: String,
    /// How serious the violation is.
    pub severity: Severity,
    /// Start byte offset in the source.
    pub start: usize,
    /// End byte offset in the source.
    pub end: usize,
    /// Line number (1-indexed) of `start`.
    pub line: usize,
    /// Column number (1-indexed) of `start`.
    pub column: usize,
    /// The fix for the violation, if there is one.
    pub fix: Option<Fix>,
}

/// What an edit does: the byte range it replaces and the text it puts there.
pub struct EditModel {
    pub start: int,
    pub end: int,
    pub content: Seq<char>,
}

/// What a fix does.
pub struct FixModel {
    pub applicability: Applicability,
    pub edits: Seq<EditModel>,
}

/// What a diagnostic reports.
pub struct DiagnosticModel {
    pub rule_id: RuleId,
    pub message: Seq<char>,
    pub severity: Severity,
    pub start: int,
    pub end: int,
    pub line: int,
    pub column: int,
    pub fix: Option<FixModel>,
}

impl View for Edit {
    type V = EditModel;

    open spec fn view(&self) -> EditModel {
        EditModel { start: self.start as int, end: self.end as int, content: self.content@ }
    }
}

/// The models of a list of edits.
pub open spec fn edit_models(es: Seq<Edit>) -> Seq<EditModel> {
    es.map_values(|e: Edit| e@)
}

impl View for Fix {
    type V = FixModel;

    open spec fn view(&self) -> FixModel {
        FixModel { applicability: self.applicability, edits: edit_models(self.edits@) }
    }
}

/// The model of an optional fix.
pub open spec fn fix_model(f: Option<Fix>) -> Option<FixModel> {
    match f {
        Some(f) => Some(f@),
        None => None,
    }
}

impl View for Diagnostic {
    type V = DiagnosticModel;

    open spec fn view(&self) -> DiagnosticModel {
        DiagnosticModel {
            rule_id: self.rule_id,
            message: self.message@,
            severity: self.severity,
            start: self.start as int,
            end: self.end as int,
            line: self.line as int,
            column: self.column as int,
            fix: fix_model(self.fix),
        }
    }
}

/// The models of a list of diagnostics.
pub open spec fn diagnostic_models(ds: Seq<Diagnostic>) -> Seq<DiagnosticModel> {
    ds.map_values(|d: Diagnostic| d@)
}

/// A fix that is safe and makes one edit.
pub open spec fn safe_fix_model(start: int, end: int, content: Seq<char>) -> Option<FixModel> {
    Some(
        FixModel {
            applicability: Applicability::Safe,
            edits: seq![EditModel { start, end, content }],
        },
    )
}

impl Edit {
    /// An edit that deletes the bytes `start..end`.
    pub fn deletion(start: usize, end: usize) -> (e: Edit)
        ensures
            e.start == start,
            e.end == end,
            e.content@ == Seq::<char>::empty(),
    {
        Edit { start, end, content: String::new() }
    }

    /// An edit that inserts `content` at `at`.
    pub fn insertion(at: usize, content: String) -> (e: Edit)
        ensures
            e.start == at,
            e.end == at,
            e.content == content,
    {
        Edit { start: at, end: at, content }
    }

    /// An edit that replaces the bytes `start..end` by `content`.
    pub fn replacement(start: usize, end: usize, content: String) -> (e: Edit)
        ensures
            e.start == start,
            e.end == end,
            e.content == content,
    {
        Edit { start, end, content }
    }

    /// A copy of this edit.
    pub fn duplicate(&self) -> (e: Edit)
        ensures
            e == *self,
    {
        Edit { start: self.start, end: self.end, content: self.content.clone() }
    }
}

impl Fix {
    /// A fix that is safe to apply automatically.
    pub fn safe(edits: Vec<Edit>) -> (f: Fix)
        ensures
            f.applicability == Applicability::Safe,
            f.edits == edits,
    {
        Fix { applicability: Applicability::Safe, edits }
    }

    /// A fix that may change the program's meaning.
    pub fn unsafe_fix(edits: Vec<Edit>) -> (f: Fix)
        ensures
            f.applicability == Applicability::Unsafe,
            f.edits == edits,
    {
        Fix { applicability: Applicability::Unsafe, edits }
    }

    /// A fix that is only displayed.
    pub fn display_only(edits: Vec<Edit>) -> (f: Fix)
        ensures
            f.applicability == Applicability::DisplayOnly,
            f.edits == edits,
    {
        Fix { applicability: Applicability::DisplayOnly, edits }
    }

    /// A copy of this fix.
    pub fn duplicate(&self) -> (f: Fix)
        ensures
            f.applicability == self.applicability,
            f.edits@ == self.edits@,
    {
        let mut edits: Vec<Edit> = Vec::new();
        let mut i: usize = 0;
        while i < self.edits.len()
            invariant
                0 <= i <= self.edits@.len(),
                edits@ == self.edits@.subrange(0, i as int),
            decreases self.edits@.len() - i,
        {
            edits.push(self.edits[i].duplicate());
            i = i + 1;
            assert(edits@ =~= self.edits@.subrange(0, i as int));
        }
        assert(edits@ =~= self.edits@);
        Fix { applicability: self.applicability, edits }
    }
}

impl Diagnostic {
    /// The full name of the rule, such as `Lint/Debugger`.
    pub fn rule(&self) -> (s: &'static str)
        ensures
            s@ == spec_full_name(self.rule_id),
    {
        self.rule_id.full_name()
    }

    /// A copy of this diagnostic.
    pub fn duplicate(&self) -> (d: Diagnostic)
        ensures
            d.rule_id == self.rule_id,
            d.message == self.message,
            d.severity == self.severity,
            d.start == self.start,
            d.end == self.end,
            d.line == self.line,
            d.column == self.column,
            d.fix is Some <==> self.fix is Some,
            d.fix is Some ==> d.fix->0.applicability == self.fix->0.applicability
                && d.fix->0.edits@ == self.fix->0.edits@,
    {
        let fix = match &self.fix {
            Some(f) => Some(f.duplicate()),
            None => None,
        };
        Diagnostic {
            rule_id: self.rule_id,
            message: self.message.clone(),
            severity: self.severity,
            start: self.start,
            end: self.end,
            line: self.line,
            column: self.column,
            fix,
        }
    }
}

} // verus!
