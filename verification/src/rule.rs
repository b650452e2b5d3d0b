//! Rule identifiers and their categories.
use vstd::prelude::*;

verus! {

/// Unique identifier for a rule.
#[derive(Debug, Clone, Copy, PartialEq, Eq, Structural, Hash)]
pub enum RuleId {
    Layout(LayoutRule),
    Lint(LintRule),
}

/// Category of a rule.
#[derive(Debug, Clone, Copy, PartialEq, Eq, Structural, Hash)]
pub enum Category {
    Layout,
    Lint,
}

/// Layout rules.
#[derive(Debug, Clone, Copy, PartialEq, Eq, Structural, Hash)]
pub enum LayoutRule {
    BeginEndAlignment,
    DefEndAlignment,
    EmptyLines,
    EndAlignment,
    IndentationConsistency,
    IndentationStyle,
    IndentationWidth,
    LeadingEmptyLines,
    TrailingEmptyLines,
    TrailingWhitespace,
}

/// Lint rules.
#[derive(Debug, Clone, Copy, PartialEq, Eq, Structural, Hash)]
pub enum LintRule {
    Debugger,
}

/// The category that a rule identifier belongs to.
pub open spec fn spec_category(id: RuleId) -> Category {
    match id {
        RuleId::Layout(_) => Category::Layout,
        RuleId::Lint(_) => Category::Lint,
    }
}

/// The name of a category.
pub open spec fn spec_category_name(c: Category) -> Seq<char> {
    match c {
        Category::Layout => "Layout"@,
        Category::Lint => "Lint"@,
    }
}

/// The name of a layout rule, without its category.
pub open spec fn spec_layout_rule_name(r: LayoutRule) -> Seq<char> {
    match r {
        LayoutRule::BeginEndAlignment => "BeginEndAlignment"@,
        LayoutRule::DefEndAlignment => "DefEndAlignment"@,
        LayoutRule::EmptyLines => "EmptyLines"@,
        LayoutRule::EndAlignment => "EndAlignment"@,
        LayoutRule::IndentationConsistency => "IndentationConsistency"@,
        LayoutRule::IndentationStyle => "IndentationStyle"@,
        LayoutRule::IndentationWidth => "IndentationWidth"@,
        LayoutRule::LeadingEmptyLines => "LeadingEmptyLines"@,
        LayoutRule::TrailingEmptyLines => "TrailingEmptyLines"@,
        LayoutRule::TrailingWhitespace => "TrailingWhitespace"@,
    }
}

/// The name of a lint rule, without its category.
pub open spec fn spec_lint_rule_name(r: LintRule) -> Seq<char> {
    match r {
        LintRule::Debugger => "Debugger"@,
    }
}

/// The name of a rule, without its category.
pub open spec fn spec_rule_name(id: RuleId) -> Seq<char> {
    match id {
        RuleId::Layout(r) => spec_layout_rule_name(r),
        RuleId::Lint(r) => spec_lint_rule_name(r),
    }
}

/// The full name of a rule: category, a slash, and the rule's name.
pub open spec fn spec_full_name(id: RuleId) -> Seq<char> {
    spec_category_name(spec_category(id)) + "/"@ + spec_rule_name(id)
}

/// The rules whose autocorrection a rule declares incompatible with its own.
/// No rule declares any such rule.
pub open spec fn spec_conflicts(id: RuleId) -> Seq<RuleId> {
    Seq::empty()
}

impl RuleId {
    /// Get the category of the rule.
    pub fn category(&self) -> (c: Category)
        ensures
            c == spec_category(*self),
    {
        match self {
            RuleId::Layout(_) => Category::Layout,
            RuleId::Lint(_) => Category::Lint,
        }
    }

    /// Get the rule name without category.
    pub fn name(&self) -> (s: &'static str)
        ensures
            s@ == spec_rule_name(*self),
    {
        match self {
            RuleId::Layout(rule) => rule.name(),
            RuleId::Lint(rule) => rule.name(),
        }
    }

    /// The full name, such as `Layout/TrailingWhitespace`.
    pub fn full_name(&self) -> (s: &'static str)
        ensures
            s@ == spec_full_name(*self),
    {
        proof {
            reveal_strlit("Layout");
            reveal_strlit("Lint");
            reveal_strlit("/");
            reveal_strlit("BeginEndAlignment");
            reveal_strlit("DefEndAlignment");
            reveal_strlit("IndentationConsistency");
            reveal_strlit("EmptyLines");
            reveal_strlit("EndAlignment");
            reveal_strlit("IndentationStyle");
            reveal_strlit("IndentationWidth");
            reveal_strlit("LeadingEmptyLines");
            reveal_strlit("TrailingEmptyLines");
            reveal_strlit("TrailingWhitespace");
            reveal_strlit("Debugger");
            reveal_strlit("Layout/BeginEndAlignment");
            reveal_strlit("Layout/DefEndAlignment");
            reveal_strlit("Layout/IndentationConsistency");
            reveal_strlit("Layout/EmptyLines");
            reveal_strlit("Layout/EndAlignment");
            reveal_strlit("Layout/IndentationStyle");
            reveal_strlit("Layout/IndentationWidth");
            reveal_strlit("Layout/LeadingEmptyLines");
            reveal_strlit("Layout/TrailingEmptyLines");
            reveal_strlit("Layout/TrailingWhitespace");
            reveal_strlit("Lint/Debugger");
        }
        let s = match self {
            RuleId::Layout(LayoutRule::BeginEndAlignment) => "Layout/BeginEndAlignment",
            RuleId::Layout(LayoutRule::DefEndAlignment) => "Layout/DefEndAlignment",
            RuleId::Layout(LayoutRule::IndentationConsistency) => "Layout/IndentationConsistency",
            RuleId::Layout(LayoutRule::EmptyLines) => "Layout/EmptyLines",
            RuleId::Layout(LayoutRule::EndAlignment) => "Layout/EndAlignment",
            RuleId::Layout(LayoutRule::IndentationStyle) => "Layout/IndentationStyle",
            RuleId::Layout(LayoutRule::IndentationWidth) => "Layout/IndentationWidth",
            RuleId::Layout(LayoutRule::LeadingEmptyLines) => "Layout/LeadingEmptyLines",
            RuleId::Layout(LayoutRule::TrailingEmptyLines) => "Layout/TrailingEmptyLines",
            RuleId::Layout(LayoutRule::TrailingWhitespace) => "Layout/TrailingWhitespace",
            RuleId::Lint(LintRule::Debugger) => "Lint/Debugger",
        };
        assert(s@ =~= spec_full_name(*self));
        s
    }

    /// Rules that this rule's autocorrection conflicts with.
    ///
    /// When two rules conflict, only one of them should have its fixes applied
    /// in a single iteration; the other's fixes wait for the next iteration.
    pub fn conflicts_with(&self) -> (v: Vec<RuleId>)
        ensures
            v@ == spec_conflicts(*self),
    {
        Vec::new()
    }

    /// Check if this rule conflicts with another rule.
    pub fn has_conflict_with(&self, other: RuleId) -> (b: bool)
        ensures
            b == spec_conflicts(*self).contains(other),
    {
        let list = self.conflicts_with();
        let mut i: usize = 0;
        while i < list.len()
            invariant
                list@ == spec_conflicts(*self),
                0 <= i <= list.len(),
                forall|j: int| 0 <= j < i ==> list@[j] != other,
            decreases list.len() - i,
        {
            if list[i] == other {
                return true;
            }
            i = i + 1;
        }
        false
    }
}

impl Category {
    /// Get the category name as a string.
    pub fn as_str(&self) -> (s: &'static str)
        ensures
            s@ == spec_category_name(*self),
    {
        match self {
            Category::Layout => "Layout",
            Category::Lint => "Lint",
        }
    }
}

impl LayoutRule {
    /// Get the rule name.
    pub fn name(&self) -> (s: &'static str)
        ensures
            s@ == spec_layout_rule_name(*self),
    {
        match self {
            LayoutRule::BeginEndAlignment => "BeginEndAlignment",
            LayoutRule::DefEndAlignment => "DefEndAlignment",
            LayoutRule::EmptyLines => "EmptyLines",
            LayoutRule::EndAlignment => "EndAlignment",
            LayoutRule::IndentationConsistency => "IndentationConsistency",
            LayoutRule::IndentationStyle => "IndentationStyle",
            LayoutRule::IndentationWidth => "IndentationWidth",
            LayoutRule::LeadingEmptyLines => "LeadingEmptyLines",
            LayoutRule::TrailingEmptyLines => "TrailingEmptyLines",
            LayoutRule::TrailingWhitespace => "TrailingWhitespace",
        }
    }
}

impl LintRule {
    /// Get the rule name.
    pub fn name(&self) -> (s: &'static str)
        ensures
            s@ == spec_lint_rule_name(*self),
    {
        match self {
            LintRule::Debugger => "Debugger",
        }
    }
}

} // verus!
