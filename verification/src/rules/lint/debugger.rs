//! Lint/Debugger: debugger calls left in the code.
//!
//! No fix is offered: removing a debugger call may have side effects.
use crate::checker::{opt_seq, report_model, Checker};
use crate::config::lint::DebuggerConfig;
use crate::diagnostic::DiagnosticModel;
use crate::rule::{LintRule, RuleId};
use crate::syntax::{NodeKind, SyntaxNode};
use crate::text::{ascii_bytes, bytes_eq_str};
use vstd::prelude::*;
use vstd::string::StringExecFns;

verus! {

/// Lint/Debugger rule - detects debugger statements left in code.
pub struct Debugger;

/// The debugger that a call without a receiver named `name` is: `debugger`, `byebug` or
/// `remote_byebug`.
pub open spec fn spec_standalone_debugger(name: Seq<u8>) -> Option<Seq<char>> {
    if name == ascii_bytes("debugger"@) {
        Some("debugger"@)
    } else if name == ascii_bytes("byebug"@) {
        Some("byebug"@)
    } else if name == ascii_bytes("remote_byebug"@) {
        Some("remote_byebug"@)
    } else {
        None
    }
}

/// The debugger that a call named `name` on a receiver named `recv` is, written as
/// `receiver.method`.
pub open spec fn spec_receiver_debugger(recv: Seq<u8>, name: Seq<u8>) -> Option<Seq<char>> {
    if recv == ascii_bytes("binding"@) && name == ascii_bytes("pry"@) {
        Some("binding.pry"@)
    } else if recv == ascii_bytes("binding"@) && name == ascii_bytes("remote_pry"@) {
        Some("binding.remote_pry"@)
    } else if recv == ascii_bytes("binding"@) && name == ascii_bytes("pry_remote"@) {
        Some("binding.pry_remote"@)
    } else if recv == ascii_bytes("binding"@) && name == ascii_bytes("irb"@) {
        Some("binding.irb"@)
    } else if recv == ascii_bytes("binding"@) && name == ascii_bytes("console"@) {
        Some("binding.console"@)
    } else if recv == ascii_bytes("Pry"@) && name == ascii_bytes("rescue"@) {
        Some("Pry.rescue"@)
    } else {
        None
    }
}

/// The debugger that call node `i` of `t` is; the receiver counts by its name when it is a
/// call or a constant.
pub open spec fn spec_debugger_call(t: Seq<SyntaxNode>, i: int) -> Option<Seq<char>> {
    let n = t[i];
    if n.kind != NodeKind::Call {
        None
    } else {
        match n.receiver {
            None => spec_standalone_debugger(n.name@),
            Some(r) => if r < t.len() && (t[r as int].kind == NodeKind::Call || t[r as int].kind
                == NodeKind::ConstantRead) {
                spec_receiver_debugger(t[r as int].name@, n.name@)
            } else {
                None
            },
        }
    }
}

/// The diagnostic for node `i` of `t`.
pub open spec fn debugger_finding(src: Seq<u8>, cfg: DebuggerConfig, t: Seq<SyntaxNode>, i: int) -> Option<
    DiagnosticModel,
> {
    if !cfg.enabled {
        None
    } else {
        debugger_call_finding(src, cfg, t, i)
    }
}

/// The diagnostic for node `i` of `t` when the cop runs: a debugger call it names.
pub open spec fn debugger_call_finding(src: Seq<u8>, cfg: DebuggerConfig, t: Seq<SyntaxNode>, i: int) -> Option<
    DiagnosticModel,
> {
    match spec_debugger_call(t, i) {
        None => None,
        Some(text) => if t[i].start > src.len() {
            None
        } else {
            Some(
                report_model(
                    src,
                    RuleId::Lint(LintRule::Debugger),
                    "Debugger statement `"@ + text + "` detected."@,
                    cfg.severity,
                    t[i].start as int,
                    t[i].end as int,
                    None,
                ),
            )
        },
    }
}

/// Node `i` of `t` calls the method named `name` on a receiver, a call or a constant, named
/// `recv`.
pub open spec fn calls_with_receiver(t: Seq<SyntaxNode>, i: int, recv: Seq<u8>, name: Seq<u8>) -> bool {
    &&& 0 <= i < t.len()
    &&& t[i].kind == NodeKind::Call
    &&& t[i].name@ == name
    &&& t[i].receiver matches Some(r) && r < t.len() && (t[r as int].kind == NodeKind::Call
        || t[r as int].kind == NodeKind::ConstantRead) && t[r as int].name@ == recv
}

/// Node `i` of `t` calls the method named `name` without a receiver.
pub open spec fn calls_without_receiver(t: Seq<SyntaxNode>, i: int, name: Seq<u8>) -> bool {
    &&& 0 <= i < t.len()
    &&& t[i].kind == NodeKind::Call
    &&& t[i].name@ == name
    &&& t[i].receiver is None
}

/// With the cop enabled, each of these calls is reported as a debugger statement, named in the
/// message, over the call's range and with the configured severity: `binding.pry`,
/// `binding.remote_pry`, `binding.pry_remote`, `binding.irb`, `binding.console`, `Pry.rescue`,
/// and, without a receiver, `debugger`, `byebug` and `remote_byebug`.
pub proof fn lemma_debugger_calls(src: Seq<u8>, cfg: DebuggerConfig, t: Seq<SyntaxNode>, i: int)
    requires
        0 <= i < t.len(),
        cfg.enabled,
        t[i].start <= src.len(),
    ensures
        calls_with_receiver(t, i, seq![98u8, 105u8, 110u8, 100u8, 105u8, 110u8, 103u8], seq![112u8, 114u8, 121u8]) ==> debugger_finding(src, cfg, t, i)
            == Some(
            report_model(
                src,
                RuleId::Lint(LintRule::Debugger),
                "Debugger statement `binding.pry` detected."@,
                cfg.severity,
                t[i].start as int,
                t[i].end as int,
                None,
            ),
        ),
        calls_with_receiver(t, i, seq![98u8, 105u8, 110u8, 100u8, 105u8, 110u8, 103u8], seq![114u8, 101u8, 109u8, 111u8, 116u8, 101u8, 95u8, 112u8, 114u8, 121u8]) ==> debugger_finding(src, cfg, t, i)
            == Some(
            report_model(
                src,
                RuleId::Lint(LintRule::Debugger),
                "Debugger statement `binding.remote_pry` detected."@,
                cfg.severity,
                t[i].start as int,
                t[i].end as int,
                None,
            ),
        ),
        calls_with_receiver(t, i, seq![98u8, 105u8, 110u8, 100u8, 105u8, 110u8, 103u8], seq![112u8, 114u8, 121u8, 95u8, 114u8, 101u8, 109u8, 111u8, 116u8, 101u8]) ==> debugger_finding(src, cfg, t, i)
            == Some(
            report_model(
                src,
                RuleId::Lint(LintRule::Debugger),
                "Debugger statement `binding.pry_remote` detected."@,
                cfg.severity,
                t[i].start as int,
                t[i].end as int,
                None,
            ),
        ),
        calls_with_receiver(t, i, seq![98u8, 105u8, 110u8, 100u8, 105u8, 110u8, 103u8], seq![105u8, 114u8, 98u8]) ==> debugger_finding(src, cfg, t, i)
            == Some(
            report_model(
                src,
                RuleId::Lint(LintRule::Debugger),
                "Debugger statement `binding.irb` detected."@,
                cfg.severity,
                t[i].start as int,
                t[i].end as int,
                None,
            ),
        ),
        calls_with_receiver(t, i, seq![98u8, 105u8, 110u8, 100u8, 105u8, 110u8, 103u8], seq![99u8, 111u8, 110u8, 115u8, 111u8, 108u8, 101u8]) ==> debugger_finding(src, cfg, t, i)
            == Some(
            report_model(
                src,
                RuleId::Lint(LintRule::Debugger),
                "Debugger statement `binding.console` detected."@,
                cfg.severity,
                t[i].start as int,
                t[i].end as int,
                None,
            ),
        ),
        calls_with_receiver(t, i, seq![80u8, 114u8, 121u8], seq![114u8, 101u8, 115u8, 99u8, 117u8, 101u8]) ==> debugger_finding(src, cfg, t, i)
            == Some(
            report_model(
                src,
                RuleId::Lint(LintRule::Debugger),
                "Debugger statement `Pry.rescue` detected."@,
                cfg.severity,
                t[i].start as int,
                t[i].end as int,
                None,
            ),
        ),
        calls_without_receiver(t, i, seq![100u8, 101u8, 98u8, 117u8, 103u8, 103u8, 101u8, 114u8]) ==> debugger_finding(src, cfg, t, i) == Some(
            report_model(
                src,
                RuleId::Lint(LintRule::Debugger),
                "Debugger statement `debugger` detected."@,
                cfg.severity,
                t[i].start as int,
                t[i].end as int,
                None,
            ),
        ),
        calls_without_receiver(t, i, seq![98u8, 121u8, 101u8, 98u8, 117u8, 103u8]) ==> debugger_finding(src, cfg, t, i) == Some(
            report_model(
                src,
                RuleId::Lint(LintRule::Debugger),
                "Debugger statement `byebug` detected."@,
                cfg.severity,
                t[i].start as int,
                t[i].end as int,
                None,
            ),
        ),
        calls_without_receiver(t, i, seq![114u8, 101u8, 109u8, 111u8, 116u8, 101u8, 95u8, 98u8, 121u8, 101u8, 98u8, 117u8, 103u8]) ==> debugger_finding(src, cfg, t, i) == Some(
            report_model(
                src,
                RuleId::Lint(LintRule::Debugger),
                "Debugger statement `remote_byebug` detected."@,
                cfg.severity,
                t[i].start as int,
                t[i].end as int,
                None,
            ),
        ),
{
    reveal_strlit("Debugger statement `");
    reveal_strlit("Debugger statement `Pry.rescue` detected.");
    reveal_strlit("Debugger statement `binding.console` detected.");
    reveal_strlit("Debugger statement `binding.irb` detected.");
    reveal_strlit("Debugger statement `binding.pry_remote` detected.");
    reveal_strlit("Debugger statement `binding.pry` detected.");
    reveal_strlit("Debugger statement `binding.remote_pry` detected.");
    reveal_strlit("Debugger statement `byebug` detected.");
    reveal_strlit("Debugger statement `debugger` detected.");
    reveal_strlit("Debugger statement `remote_byebug` detected.");
    reveal_strlit("Pry");
    reveal_strlit("Pry.rescue");
    reveal_strlit("` detected.");
    reveal_strlit("binding");
    reveal_strlit("binding.console");
    reveal_strlit("binding.irb");
    reveal_strlit("binding.pry");
    reveal_strlit("binding.pry_remote");
    reveal_strlit("binding.remote_pry");
    reveal_strlit("byebug");
    reveal_strlit("console");
    reveal_strlit("debugger");
    reveal_strlit("irb");
    reveal_strlit("pry");
    reveal_strlit("pry_remote");
    reveal_strlit("remote_byebug");
    reveal_strlit("remote_pry");
    reveal_strlit("rescue");
    assert(ascii_bytes("binding"@) =~= seq![98u8, 105u8, 110u8, 100u8, 105u8, 110u8, 103u8]);
    assert(ascii_bytes("pry"@) =~= seq![112u8, 114u8, 121u8]);
    assert(ascii_bytes("remote_pry"@) =~= seq![114u8, 101u8, 109u8, 111u8, 116u8, 101u8, 95u8, 112u8, 114u8, 121u8]);
    assert(ascii_bytes("pry_remote"@) =~= seq![112u8, 114u8, 121u8, 95u8, 114u8, 101u8, 109u8, 111u8, 116u8, 101u8]);
    assert(ascii_bytes("irb"@) =~= seq![105u8, 114u8, 98u8]);
    assert(ascii_bytes("console"@) =~= seq![99u8, 111u8, 110u8, 115u8, 111u8, 108u8, 101u8]);
    assert(ascii_bytes("Pry"@) =~= seq![80u8, 114u8, 121u8]);
    assert(ascii_bytes("rescue"@) =~= seq![114u8, 101u8, 115u8, 99u8, 117u8, 101u8]);
    assert(ascii_bytes("debugger"@) =~= seq![100u8, 101u8, 98u8, 117u8, 103u8, 103u8, 101u8, 114u8]);
    assert(ascii_bytes("byebug"@) =~= seq![98u8, 121u8, 101u8, 98u8, 117u8, 103u8]);
    assert(ascii_bytes("remote_byebug"@) =~= seq![114u8, 101u8, 109u8, 111u8, 116u8, 101u8, 95u8, 98u8, 121u8, 101u8, 98u8, 117u8, 103u8]);
    assert("Debugger statement `"@ + "binding.pry"@ + "` detected."@ =~= "Debugger statement `binding.pry` detected."@);
    assert("Debugger statement `"@ + "binding.remote_pry"@ + "` detected."@ =~= "Debugger statement `binding.remote_pry` detected."@);
    assert("Debugger statement `"@ + "binding.pry_remote"@ + "` detected."@ =~= "Debugger statement `binding.pry_remote` detected."@);
    assert("Debugger statement `"@ + "binding.irb"@ + "` detected."@ =~= "Debugger statement `binding.irb` detected."@);
    assert("Debugger statement `"@ + "binding.console"@ + "` detected."@ =~= "Debugger statement `binding.console` detected."@);
    assert("Debugger statement `"@ + "Pry.rescue"@ + "` detected."@ =~= "Debugger statement `Pry.rescue` detected."@);
    assert("Debugger statement `"@ + "debugger"@ + "` detected."@ =~= "Debugger statement `debugger` detected."@);
    assert("Debugger statement `"@ + "byebug"@ + "` detected."@ =~= "Debugger statement `byebug` detected."@);
    assert("Debugger statement `"@ + "remote_byebug"@ + "` detected."@ =~= "Debugger statement `remote_byebug` detected."@);
}

/// No other node is reported: not a node that is no call, not a call on a receiver that is
/// neither a call nor a constant, and not a call whose receiver and method names are none of
/// the pairs above, nor, without a receiver, a call named other than `debugger`, `byebug` and
/// `remote_byebug`.
pub proof fn lemma_other_calls(
    src: Seq<u8>,
    cfg: DebuggerConfig,
    t: Seq<SyntaxNode>,
    i: int,
    recv: Seq<u8>,
    name: Seq<u8>,
)
    requires
        0 <= i < t.len(),
    ensures
        t[i].kind != NodeKind::Call ==> debugger_finding(src, cfg, t, i) is None,
        (t[i].receiver matches Some(r) && !(r < t.len() && (t[r as int].kind == NodeKind::Call
            || t[r as int].kind == NodeKind::ConstantRead))) ==> debugger_finding(src, cfg, t, i)
            is None,
        calls_with_receiver(t, i, recv, name) && !{
            ||| (recv == seq![98u8, 105u8, 110u8, 100u8, 105u8, 110u8, 103u8]
                && name == seq![112u8, 114u8, 121u8])
            ||| (recv == seq![98u8, 105u8, 110u8, 100u8, 105u8, 110u8, 103u8]
                && name == seq![114u8, 101u8, 109u8, 111u8, 116u8, 101u8, 95u8, 112u8, 114u8, 121u8])
            ||| (recv == seq![98u8, 105u8, 110u8, 100u8, 105u8, 110u8, 103u8]
                && name == seq![112u8, 114u8, 121u8, 95u8, 114u8, 101u8, 109u8, 111u8, 116u8, 101u8])
            ||| (recv == seq![98u8, 105u8, 110u8, 100u8, 105u8, 110u8, 103u8]
                && name == seq![105u8, 114u8, 98u8])
            ||| (recv == seq![98u8, 105u8, 110u8, 100u8, 105u8, 110u8, 103u8]
                && name == seq![99u8, 111u8, 110u8, 115u8, 111u8, 108u8, 101u8])
            ||| (recv == seq![80u8, 114u8, 121u8]
                && name == seq![114u8, 101u8, 115u8, 99u8, 117u8, 101u8])
        } ==> debugger_finding(src, cfg, t, i) is None,
        calls_without_receiver(t, i, name) && !{
            ||| name == seq![100u8, 101u8, 98u8, 117u8, 103u8, 103u8, 101u8, 114u8]
            ||| name == seq![98u8, 121u8, 101u8, 98u8, 117u8, 103u8]
            ||| name == seq![114u8, 101u8, 109u8, 111u8, 116u8, 101u8, 95u8, 98u8, 121u8, 101u8, 98u8, 117u8, 103u8]
        } ==> debugger_finding(src, cfg, t, i) is None,
{
    reveal_strlit("binding");
    reveal_strlit("pry");
    reveal_strlit("remote_pry");
    reveal_strlit("pry_remote");
    reveal_strlit("irb");
    reveal_strlit("console");
    reveal_strlit("Pry");
    reveal_strlit("rescue");
    reveal_strlit("debugger");
    reveal_strlit("byebug");
    reveal_strlit("remote_byebug");
    assert(ascii_bytes("binding"@) =~= seq![98u8, 105u8, 110u8, 100u8, 105u8, 110u8, 103u8]);
    assert(ascii_bytes("pry"@) =~= seq![112u8, 114u8, 121u8]);
    assert(ascii_bytes("remote_pry"@) =~= seq![114u8, 101u8, 109u8, 111u8, 116u8, 101u8, 95u8, 112u8, 114u8, 121u8]);
    assert(ascii_bytes("pry_remote"@) =~= seq![112u8, 114u8, 121u8, 95u8, 114u8, 101u8, 109u8, 111u8, 116u8, 101u8]);
    assert(ascii_bytes("irb"@) =~= seq![105u8, 114u8, 98u8]);
    assert(ascii_bytes("console"@) =~= seq![99u8, 111u8, 110u8, 115u8, 111u8, 108u8, 101u8]);
    assert(ascii_bytes("Pry"@) =~= seq![80u8, 114u8, 121u8]);
    assert(ascii_bytes("rescue"@) =~= seq![114u8, 101u8, 115u8, 99u8, 117u8, 101u8]);
    assert(ascii_bytes("debugger"@) =~= seq![100u8, 101u8, 98u8, 117u8, 103u8, 103u8, 101u8, 114u8]);
    assert(ascii_bytes("byebug"@) =~= seq![98u8, 121u8, 101u8, 98u8, 117u8, 103u8]);
    assert(ascii_bytes("remote_byebug"@) =~= seq![114u8, 101u8, 109u8, 111u8, 116u8, 101u8, 95u8, 98u8, 121u8, 101u8, 98u8, 117u8, 103u8]);
}

pub(crate) fn standalone_debugger(name: &[u8]) -> (r: Option<&'static str>)
    ensures
        match (r, spec_standalone_debugger(name@)) {
            (None, None) => true,
            (Some(a), Some(b)) => a@ == b,
            _ => false,
        },
{
    proof {
        reveal_strlit("debugger");
        reveal_strlit("byebug");
        reveal_strlit("remote_byebug");
    }
    if bytes_eq_str(name, "debugger") {
        Some("debugger")
    } else if bytes_eq_str(name, "byebug") {
        Some("byebug")
    } else if bytes_eq_str(name, "remote_byebug") {
        Some("remote_byebug")
    } else {
        None
    }
}

pub(crate) fn receiver_debugger(recv: &[u8], name: &[u8]) -> (r: Option<&'static str>)
    ensures
        match (r, spec_receiver_debugger(recv@, name@)) {
            (None, None) => true,
            (Some(a), Some(b)) => a@ == b,
            _ => false,
        },
{
    proof {
        reveal_strlit("binding");
        reveal_strlit("pry");
        reveal_strlit("remote_pry");
        reveal_strlit("pry_remote");
        reveal_strlit("irb");
        reveal_strlit("console");
        reveal_strlit("Pry");
        reveal_strlit("rescue");
    }
    let binding = bytes_eq_str(recv, "binding");
    if binding && bytes_eq_str(name, "pry") {
        Some("binding.pry")
    } else if binding && bytes_eq_str(name, "remote_pry") {
        Some("binding.remote_pry")
    } else if binding && bytes_eq_str(name, "pry_remote") {
        Some("binding.pry_remote")
    } else if binding && bytes_eq_str(name, "irb") {
        Some("binding.irb")
    } else if binding && bytes_eq_str(name, "console") {
        Some("binding.console")
    } else if bytes_eq_str(recv, "Pry") && bytes_eq_str(name, "rescue") {
        Some("Pry.rescue")
    } else {
        None
    }
}

impl Debugger {
    /// Check node `i` of the tree.
    pub fn check(nodes: &Vec<SyntaxNode>, i: usize, checker: &mut Checker)
        requires
            old(checker).wf(),
            i < nodes@.len(),
        ensures
            final(checker).wf(),
            final(checker).spec_source() == old(checker).spec_source(),
            final(checker).spec_config() == old(checker).spec_config(),
            final(checker).ignored_nodes() == old(checker).ignored_nodes(),
            final(checker).reported() == old(checker).reported() + opt_seq(
                debugger_finding(
                    old(checker).spec_source(),
                    old(checker).spec_config().lint.debugger,
                    nodes@,
                    i as int,
                ),
            ),
    {
        let ghost none = Seq::<DiagnosticModel>::empty();
        if !checker.config().lint.debugger.enabled {
            assert(checker.reported() =~= checker.reported() + none);
            return;
        }
        let severity = checker.config().lint.debugger.severity;
        let n = &nodes[i];
        let found = if n.kind != NodeKind::Call {
            None
        } else {
            match n.receiver {
                None => standalone_debugger(n.name.as_slice()),
                Some(r) => if r < nodes.len() && (nodes[r].kind == NodeKind::Call || nodes[r].kind
                    == NodeKind::ConstantRead) {
                    receiver_debugger(nodes[r].name.as_slice(), n.name.as_slice())
                } else {
                    None
                },
            }
        };
        match found {
            Some(text) => {
                if n.start > checker.source().len() {
                    assert(checker.reported() =~= checker.reported() + none);
                    return;
                }
                let mut message = String::from_str("Debugger statement `");
                message.append(text);
                message.append("` detected.");
                checker.report(
                    RuleId::Lint(LintRule::Debugger),
                    message,
                    severity,
                    n.start,
                    n.end,
                    None,
                );
            },
            None => {
                assert(checker.reported() =~= checker.reported() + none);
            },
        }
    }
}

} // verus!
