//! Layout/TrailingEmptyLines: the blank lines and the final newline at the end of the source.
//!
//! `EnforcedStyle`: `final_newline` (the default) wants one final newline and no blank line
//! after the last line; `final_blank_line` wants one blank line followed by the final newline.
use crate::checker::{report_model, Checker};
use crate::config::layout::trailing_empty_lines as style_config;
use crate::config::layout::TrailingEmptyLinesConfig;
use crate::diagnostic::{safe_fix_model, DiagnosticModel, Edit, Fix};
use crate::rule::{LayoutRule, RuleId};
use crate::text::{decimal, repeat_str, spec_decimal, spec_repeat};
use vstd::prelude::*;
use vstd::string::StringExecFns;

verus! {

/// Enforced style for trailing empty lines.
#[derive(Debug, Clone, Copy, PartialEq, Eq, Structural)]
pub enum EnforcedStyle {
    /// Require exactly one final newline (no trailing blank lines).
    FinalNewline,
    /// Require one blank line followed by a final newline.
    FinalBlankLine,
}

impl Default for EnforcedStyle {
    fn default() -> (s: EnforcedStyle)
        ensures
            s == EnforcedStyle::FinalNewline,
    {
        EnforcedStyle::FinalNewline
    }
}

/// A byte that may stand in the blank tail of a source: newline, space, tab, carriage return.
pub open spec fn is_tail_byte(b: u8) -> bool {
    b == 10u8 || b == 32u8 || b == 9u8 || b == 13u8
}

/// The number of newlines at the end of `s`.
pub open spec fn trailing_newlines(s: Seq<u8>) -> nat
    decreases s.len(),
{
    if s.len() == 0 || s.last() != 10u8 {
        0
    } else {
        trailing_newlines(s.drop_last()) + 1
    }
}

/// The number of newlines, spaces, tabs and carriage returns at the end of `s`.
pub open spec fn trailing_tail(s: Seq<u8>) -> nat
    decreases s.len(),
{
    if s.len() == 0 || !is_tail_byte(s.last()) {
        0
    } else {
        trailing_tail(s.drop_last()) + 1
    }
}

/// Where the blank tail of `s` starts: just after the newline that ends the last line with
/// content, or where the tail starts when no newline ends that line.
pub open spec fn spec_trailing_whitespace_start(s: Seq<u8>) -> int {
    let pos = s.len() - trailing_tail(s);
    if pos < s.len() && s[pos] == 10u8 {
        pos + 1
    } else {
        pos
    }
}

/// The number of newlines that a style wants at the end of the source.
pub open spec fn wanted_newlines(style: EnforcedStyle) -> nat {
    match style {
        EnforcedStyle::FinalNewline => 1,
        EnforcedStyle::FinalBlankLine => 2,
    }
}

/// The message for `blank` trailing blank lines where `wanted` are wanted.
pub open spec fn trailing_message(blank: nat, wanted: nat) -> Seq<char> {
    if wanted == 0 {
        if blank == 1 {
            "1 trailing blank line detected."@
        } else {
            spec_decimal(blank) + " trailing blank lines detected."@
        }
    } else if blank == 0 {
        "Trailing blank line missing."@
    } else {
        spec_decimal(blank) + " trailing blank lines instead of "@ + spec_decimal(wanted)
            + " detected."@
    }
}

/// How many newlines the fix of the blank tail of `s` writes for `wanted` final newlines: one
/// fewer where the replaced range starts after the newline that ends the last line, which
/// stays, so that the source ends in exactly `wanted` newlines.
pub open spec fn fix_newlines(s: Seq<u8>, wanted: nat) -> nat {
    let start = spec_trailing_whitespace_start(s);
    if 0 < start <= s.len() && s[start - 1] == 10u8 {
        (wanted - 1) as nat
    } else {
        wanted
    }
}

/// What is wrong with the end of `s` under `style`: the range to replace, its replacement
/// and the message; `None` when nothing is.
pub open spec fn spec_analyze(s: Seq<u8>, style: EnforcedStyle) -> Option<
    (int, int, Seq<char>, Seq<char>),
> {
    let wanted = wanted_newlines(style);
    let n = trailing_newlines(s);
    if s.len() == 0 {
        None
    } else if n == 0 {
        Some((s.len() as int, s.len() as int, spec_repeat("\n"@, wanted), "Final newline missing."@))
    } else if n - 1 != wanted - 1 {
        Some(
            (
                spec_trailing_whitespace_start(s),
                s.len() as int,
                spec_repeat("\n"@, fix_newlines(s, wanted)),
                trailing_message((n - 1) as nat, (wanted - 1) as nat),
            ),
        )
    } else {
        None
    }
}

/// The style of the rule for a configured style.
pub open spec fn rule_style(s: style_config::EnforcedStyle) -> EnforcedStyle {
    match s {
        style_config::EnforcedStyle::FinalNewline => EnforcedStyle::FinalNewline,
        style_config::EnforcedStyle::FinalBlankLine => EnforcedStyle::FinalBlankLine,
    }
}

/// The diagnostic for the end of `src`, under `cfg`.
pub open spec fn trailing_empty_lines_finding(src: Seq<u8>, cfg: TrailingEmptyLinesConfig) -> Option<
    DiagnosticModel,
> {
    if !cfg.enabled {
        None
    } else {
        match spec_analyze(src, rule_style(cfg.enforced_style)) {
            None => None,
            Some(a) => Some(
                report_model(
                    src,
                    RuleId::Layout(LayoutRule::TrailingEmptyLines),
                    a.3,
                    cfg.severity,
                    a.0,
                    a.1,
                    safe_fix_model(a.0, a.1, a.2),
                ),
            ),
        }
    }
}

/// The number of newlines at the end of `source`.
fn count_trailing_newlines(source: &[u8]) -> (n: usize)
    ensures
        n == trailing_newlines(source@),
        n <= source@.len(),
{
    let mut count: usize = 0;
    assert(source@.subrange(0, source@.len() as int) =~= source@);
    while count < source.len() && source[source.len() - 1 - count] == 10u8
        invariant
            0 <= count <= source@.len(),
            trailing_newlines(source@) == count + trailing_newlines(
                source@.subrange(0, source@.len() - count),
            ),
        decreases source@.len() - count,
    {
        let ghost t = source@.subrange(0, source@.len() - count);
        assert(t.drop_last() =~= source@.subrange(0, source@.len() - count - 1));
        count = count + 1;
    }
    proof {
        let t = source@.subrange(0, source@.len() - count);
        if count < source@.len() {
            assert(t.last() == source@[source@.len() - 1 - count]);
        }
    }
    count
}

/// Find the start position of trailing whitespace/blank lines.
pub fn find_trailing_whitespace_start(source: &[u8]) -> (pos: usize)
    ensures
        pos == spec_trailing_whitespace_start(source@),
        pos <= source@.len(),
{
    let mut count: usize = 0;
    assert(source@.subrange(0, source@.len() as int) =~= source@);
    while count < source.len() && (source[source.len() - 1 - count] == 10u8 || source[source.len()
        - 1 - count] == 32u8 || source[source.len() - 1 - count] == 9u8 || source[source.len() - 1
        - count] == 13u8)
        invariant
            0 <= count <= source@.len(),
            trailing_tail(source@) == count + trailing_tail(
                source@.subrange(0, source@.len() - count),
            ),
        decreases source@.len() - count,
    {
        let ghost t = source@.subrange(0, source@.len() - count);
        assert(t.drop_last() =~= source@.subrange(0, source@.len() - count - 1));
        count = count + 1;
    }
    proof {
        let t = source@.subrange(0, source@.len() - count);
        if count < source@.len() {
            assert(t.last() == source@[source@.len() - 1 - count]);
        }
    }
    let mut pos = source.len() - count;
    if pos < source.len() && source[pos] == 10u8 {
        pos = pos + 1;
    }
    pos
}

/// The message for `blank` trailing blank lines where `wanted` are wanted.
fn trailing_message_text(blank: usize, wanted: usize) -> (s: String)
    ensures
        s@ == trailing_message(blank as nat, wanted as nat),
{
    if wanted == 0 {
        if blank == 1 {
            String::from_str("1 trailing blank line detected.")
        } else {
            let mut s = decimal(blank);
            s.append(" trailing blank lines detected.");
            s
        }
    } else if blank == 0 {
        String::from_str("Trailing blank line missing.")
    } else {
        let mut s = decimal(blank);
        s.append(" trailing blank lines instead of ");
        let w = decimal(wanted);
        s.append(w.as_str());
        s.append(" detected.");
        s
    }
}

/// Analyze source for trailing empty lines issues.
/// Returns (start, end, replacement, message) if there's an issue.
pub fn analyze(source: &[u8], style: EnforcedStyle) -> (r: Option<(usize, usize, String, String)>)
    ensures
        match (r, spec_analyze(source@, style)) {
            (None, None) => true,
            (Some(a), Some(b)) => a.0 == b.0 && a.1 == b.1 && a.2@ == b.2 && a.3@ == b.3,
            _ => false,
        },
        match r {
            Some(a) => a.0 <= a.1 <= source@.len(),
            None => true,
        },
{
    if source.len() == 0 {
        return None;
    }
    let trailing_newlines = count_trailing_newlines(source);
    let trailing_start = find_trailing_whitespace_start(source);
    let wanted_newlines: usize = match style {
        EnforcedStyle::FinalNewline => 1,
        EnforcedStyle::FinalBlankLine => 2,
    };
    if trailing_newlines == 0 {
        let message = String::from_str("Final newline missing.");
        let replacement = repeat_str("\n", wanted_newlines);
        return Some((source.len(), source.len(), replacement, message));
    }
    let blank_lines = trailing_newlines - 1;
    let wanted_blank_lines = wanted_newlines - 1;
    if blank_lines != wanted_blank_lines {
        let message = trailing_message_text(blank_lines, wanted_blank_lines);
        let written = if 0 < trailing_start && source[trailing_start - 1] == 10u8 {
            wanted_newlines - 1
        } else {
            wanted_newlines
        };
        let replacement = repeat_str("\n", written);
        return Some((trailing_start, source.len(), replacement, message));
    }
    None
}

/// Check for trailing empty lines in the source.
pub fn check(checker: &mut Checker)
    requires
        old(checker).wf(),
    ensures
        final(checker).wf(),
        final(checker).spec_source() == old(checker).spec_source(),
        final(checker).spec_config() == old(checker).spec_config(),
        final(checker).ignored_nodes() == old(checker).ignored_nodes(),
        final(checker).reported() == old(checker).reported() + match trailing_empty_lines_finding(
            old(checker).spec_source(),
            old(checker).spec_config().layout.trailing_empty_lines,
        ) {
            Some(d) => seq![d],
            None => Seq::empty(),
        },
{
    let ghost nothing = Seq::<DiagnosticModel>::empty();
    let config = checker.config().layout.trailing_empty_lines;
    if !config.enabled {
        assert(checker.reported() =~= checker.reported() + nothing);
        return;
    }
    let severity = config.severity;
    let style = match config.enforced_style {
        style_config::EnforcedStyle::FinalNewline => EnforcedStyle::FinalNewline,
        style_config::EnforcedStyle::FinalBlankLine => EnforcedStyle::FinalBlankLine,
    };
    match analyze(checker.source(), style) {
        Some((start, end, replacement, message)) => {
            let ghost content = replacement@;
            let fix = Fix::safe(vec![Edit::replacement(start, end, replacement)]);
            proof {
                assert(crate::diagnostic::edit_models(fix.edits@) =~= seq![
                    crate::diagnostic::EditModel { start: start as int, end: end as int, content },
                ]);
            }
            checker.report(
                RuleId::Layout(LayoutRule::TrailingEmptyLines),
                message,
                severity,
                start,
                end,
                Some(fix),
            );
        },
        None => {
            assert(checker.reported() =~= checker.reported() + nothing);
        },
    }
}

} // verus!
