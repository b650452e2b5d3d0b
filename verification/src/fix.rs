//! Applying the fixes of diagnostics, round after round, until nothing is left to fix, with
//! a guard against corrections that undo each other.
use crate::conflict::{spec_conflicts_with_applied, ConflictRegistry};
use crate::corrector::{
    applicable_from,
    apply_edits,
    first_fix_conflict,
    insert_all,
    lemma_insert_all,
    should_apply_fix,
    sorted_edits,
    spec_should_apply,
    Corrector,
};
use crate::diagnostic::{Diagnostic, Edit};
use crate::rule::{spec_full_name, RuleId};
use crate::text::{decimal, spec_decimal};
use rustc_hash::FxHasher;
use std::hash::{Hash, Hasher};
use vstd::prelude::*;
use vstd::string::StringExecFns;

verus! {

broadcast use vstd::seq_lib::group_to_multiset_ensures;

/// Maximum number of iterations to prevent infinite loops (RuboCop uses 200 as well).
pub const MAX_ITERATIONS: usize = 200;

/// Every edit of every fix of `ds` starts within a source of length `len`.
pub open spec fn fixes_within(ds: Seq<Diagnostic>, len: int) -> bool {
    forall|i: int, k: int|
        0 <= i < ds.len() && ds[i].fix is Some && 0 <= k < ds[i].fix->0.edits@.len() ==> (
        #[trigger] ds[i].fix->0.edits@[k]).start <= len
}

/// The edits merged and the rules applied (in the order of their first application) after
/// the first `k` diagnostics of `ds` were offered to a corrector: a fix is taken when it may
/// be applied, its rule conflicts with no rule applied so far, and none of its edits
/// clobbers an edit merged before.
pub open spec fn round_state(ds: Seq<Diagnostic>, unsafe_fixes: bool, k: int) -> (
    Seq<Edit>,
    Seq<RuleId>,
)
    decreases k,
{
    if k <= 0 {
        (Seq::empty(), Seq::empty())
    } else {
        let prev = round_state(ds, unsafe_fixes, k - 1);
        let d = ds[k - 1];
        match d.fix {
            None => prev,
            Some(f) => if !spec_should_apply(f.applicability, unsafe_fixes)
                || spec_conflicts_with_applied(prev.1.to_set(), d.rule_id) || first_fix_conflict(
                prev.0,
                f.edits@,
            ) is Some {
                prev
            } else {
                (
                    insert_all(prev.0, f.edits@),
                    if prev.1.contains(d.rule_id) {
                        prev.1
                    } else {
                        prev.1.push(d.rule_id)
                    },
                )
            },
        }
    }
}

/// Some diagnostic of `ds` has a fix with at least one edit that may be applied.
pub open spec fn has_applicable_fix(ds: Seq<Diagnostic>, unsafe_fixes: bool) -> bool {
    exists|i: int|
        0 <= i < ds.len() && (#[trigger] ds[i]).fix is Some && spec_should_apply(
            ds[i].fix->0.applicability,
            unsafe_fixes,
        ) && ds[i].fix->0.edits@.len() > 0
}

/// The rules named in the rounds of `rounds`, one after another, by their full names.
pub open spec fn rule_names(rounds: Seq<Seq<RuleId>>) -> Seq<Seq<char>>
    decreases rounds.len(),
{
    if rounds.len() == 0 {
        Seq::empty()
    } else {
        rule_names(rounds.drop_last()) + rounds.last().map_values(|r: RuleId| spec_full_name(r))
    }
}

/// The first `k` names of `s`, each kept only where it first occurs.
pub open spec fn dedup_prefix(s: Seq<Seq<char>>, k: int) -> Seq<Seq<char>>
    decreases k,
{
    if k <= 0 {
        Seq::empty()
    } else if dedup_prefix(s, k - 1).contains(s[k - 1]) {
        dedup_prefix(s, k - 1)
    } else {
        dedup_prefix(s, k - 1).push(s[k - 1])
    }
}

/// The names that `dedup_prefix` keeps are each kept once.
proof fn lemma_dedup_unique(s: Seq<Seq<char>>, k: int)
    ensures
        dedup_prefix(s, k).no_duplicates(),
    decreases k,
{
    if k > 0 {
        lemma_dedup_unique(s, k - 1);
        let d = dedup_prefix(s, k - 1);
        if !d.contains(s[k - 1]) {
            let e = d.push(s[k - 1]);
            assert forall|a: int, b: int| 0 <= a < b < e.len() implies #[trigger] e[a] != #[trigger] e[b] by {
                if b == d.len() {
                    assert(e[a] == d[a]);
                } else {
                    assert(e[a] == d[a] && e[b] == d[b]);
                }
            }
        }
    }
}

/// The rules of the rounds from `start` on, each named once, in the order of first mention.
pub open spec fn offending(rounds: Seq<Seq<RuleId>>, start: int) -> Seq<Seq<char>> {
    let names = rule_names(rounds.subrange(start, rounds.len() as int));
    dedup_prefix(names, names.len() as int)
}

/// A loop error names each offending rule once.
pub proof fn lemma_offending_unique(rounds: Seq<Seq<RuleId>>, start: int)
    ensures
        offending(rounds, start).no_duplicates(),
{
    let names = rule_names(rounds.subrange(start, rounds.len() as int));
    lemma_dedup_unique(names, names.len() as int);
}

/// The hash of `source` by `rustc_hash::FxHasher`, fed the bytes as `Hash` for slices feeds
/// them (their length, then the bytes). Nothing is stated of the value: it depends on the
/// platform's word size, so two sources may not be told apart by it.
#[verifier::external_body]
fn fx_hash(source: &[u8]) -> u64 {
    let mut hasher = FxHasher::default();
    source.hash(&mut hasher);
    hasher.finish()
}

/// Detects infinite loops during autocorrection: it keeps the checksums of the sources seen,
/// and the rules applied in each round.
pub struct LoopDetector {
    path: Option<String>,
    seen_checksums: Vec<u64>,
    rules_by_iteration: Vec<Vec<RuleId>>,
}

/// Error indicating that the autocorrection loop got stuck.
#[derive(Debug, Clone)]
pub struct InfiniteCorrectionLoop {
    pub path: Option<String>,
    pub iteration: usize,
    pub loop_start: Option<usize>,
    pub offending_rules: Vec<String>,
}

/// The texts of `parts` joined by `sep`.
pub open spec fn join(parts: Seq<Seq<char>>, sep: Seq<char>) -> Seq<char>
    decreases parts.len(),
{
    if parts.len() == 0 {
        Seq::empty()
    } else if parts.len() == 1 {
        parts[0]
    } else {
        join(parts.drop_last(), sep) + sep + parts.last()
    }
}

/// The message of an infinite correction loop.
pub open spec fn loop_message(
    path: Option<Seq<char>>,
    iteration: nat,
    loop_start: Option<nat>,
    offending_rules: Seq<Seq<char>>,
) -> Seq<char> {
    "Infinite loop detected"@ + match path {
        Some(p) => " in "@ + p,
        None => Seq::empty(),
    } + if offending_rules.len() > 0 {
        " and caused by "@ + join(offending_rules, " -> "@)
    } else {
        match loop_start {
            Some(start) => ": iteration "@ + spec_decimal(iteration)
                + " produced the same source as iteration "@ + spec_decimal(start),
            None => ": exceeded "@ + spec_decimal(MAX_ITERATIONS as nat) + " iterations"@,
        }
    }
}

impl InfiniteCorrectionLoop {
    /// The path, if any, as text.
    pub open spec fn spec_path(&self) -> Option<Seq<char>> {
        match self.path {
            Some(p) => Some(p@),
            None => None,
        }
    }

    /// The offending rules, as texts.
    pub open spec fn spec_offending(&self) -> Seq<Seq<char>> {
        self.offending_rules@.map_values(|s: String| s@)
    }

    /// The message that describes the loop.
    pub fn to_string(&self) -> (s: String)
        ensures
            s@ == loop_message(
                self.spec_path(),
                self.iteration as nat,
                match self.loop_start {
                    Some(l) => Some(l as nat),
                    None => None,
                },
                self.spec_offending(),
            ),
    {
        let mut s = String::from_str("Infinite loop detected");
        match &self.path {
            Some(path) => {
                s.append(" in ");
                s.append(path.as_str());
            },
            None => {},
        }
        let ghost head = s@;
        if self.offending_rules.len() > 0 {
            s.append(" and caused by ");
            let ghost before = s@;
            let mut i: usize = 0;
            while i < self.offending_rules.len()
                invariant
                    0 < self.offending_rules@.len(),
                    0 <= i <= self.offending_rules@.len(),
                    i == 0 ==> s@ == before,
                    i > 0 ==> s@ == before + join(
                        self.spec_offending().subrange(0, i as int),
                        " -> "@,
                    ),
                decreases self.offending_rules@.len() - i,
            {
                let ghost prefix = self.spec_offending().subrange(0, i as int);
                if i > 0 {
                    s.append(" -> ");
                }
                s.append(self.offending_rules[i].as_str());
                proof {
                    let next = self.spec_offending().subrange(0, i + 1);
                    assert(next.drop_last() =~= prefix);
                    assert(next.last() == self.offending_rules@[i as int]@);
                    if i == 0 {
                        assert(next.len() == 1);
                    }
                }
                i = i + 1;
            }
            assert(self.spec_offending().subrange(0, i as int) =~= self.spec_offending());
        } else {
            match self.loop_start {
                Some(start) => {
                    s.append(": iteration ");
                    let it = decimal(self.iteration);
                    s.append(it.as_str());
                    s.append(" produced the same source as iteration ");
                    let st = decimal(start);
                    s.append(st.as_str());
                },
                None => {
                    s.append(": exceeded ");
                    let m = decimal(MAX_ITERATIONS);
                    s.append(m.as_str());
                    s.append(" iterations");
                },
            }
        }
        s
    }
}

impl LoopDetector {
    /// Create a new LoopDetector.
    fn new(path: Option<&str>) -> (d: LoopDetector)
        ensures
            d.path_view() == match path {
                Some(p) => Some(p@),
                None => None::<Seq<char>>,
            },
            d.seen_checksums@ == Seq::<u64>::empty(),
            d.rules_by_iteration@ == Seq::<Vec<RuleId>>::empty(),
    {
        let p = match path {
            Some(s) => Some(String::from_str(s)),
            None => None,
        };
        LoopDetector { path: p, seen_checksums: Vec::new(), rules_by_iteration: Vec::new() }
    }

    /// The path, if any, as text.
    spec fn path_view(&self) -> Option<Seq<char>> {
        match self.path {
            Some(p) => Some(p@),
            None => None,
        }
    }

    /// The rules of each round so far.
    spec fn rounds(&self) -> Seq<Seq<RuleId>> {
        self.rules_by_iteration@.map_values(|v: Vec<RuleId>| v@)
    }

    /// A checksum of the source: its `FxHasher` hash.
    pub fn checksum(source: &[u8]) -> u64 {
        fx_hash(source)
    }

    /// What checking the checksum `c` in round `iteration` does, from `old` to `new` with
    /// result `r`: a checksum seen before is a loop, reported at the first round that had it
    /// with the rules applied since; a new one is recorded.
    spec fn checksum_checked(
        old: LoopDetector,
        new: LoopDetector,
        c: u64,
        iteration: usize,
        r: Result<(), InfiniteCorrectionLoop>,
    ) -> bool {
        &&& new.path == old.path
        &&& new.rules_by_iteration == old.rules_by_iteration
        &&& (r is Err <==> old.seen_checksums@.contains(c))
        &&& match r {
            Ok(()) => new.seen_checksums@ == old.seen_checksums@.push(c),
            Err(e) => {
                &&& new.seen_checksums == old.seen_checksums
                &&& e.path == old.path
                &&& e.iteration == iteration
                &&& e.loop_start matches Some(k) && k < old.seen_checksums@.len()
                    && old.seen_checksums@[k as int] == c && (forall|j: int|
                    0 <= j < k ==> old.seen_checksums@[j] != c) && e.spec_offending() == offending(
                    old.rounds(),
                    k as int,
                )
            },
        }
    }

    /// Check the checksum of the source of round `iteration`: seen before, it is a loop,
    /// reported at the first round that had it, with the rules applied since; otherwise it is
    /// recorded.
    fn check_checksum(&mut self, checksum: u64, iteration: usize) -> (r: Result<(), InfiniteCorrectionLoop>)
        requires
            old(self).rules_by_iteration@.len() == old(self).seen_checksums@.len(),
        ensures
            Self::checksum_checked(*old(self), *final(self), checksum, iteration, r),
    {
        let mut i: usize = 0;
        while i < self.seen_checksums.len()
            invariant
                0 <= i <= self.seen_checksums@.len(),
                self.rules_by_iteration@.len() == self.seen_checksums@.len(),
                forall|j: int| 0 <= j < i ==> self.seen_checksums@[j] != checksum,
            decreases self.seen_checksums@.len() - i,
        {
            if self.seen_checksums[i] == checksum {
                let offending_rules = self.extract_offending_rules(i);
                let path = match &self.path {
                    Some(p) => Some(p.clone()),
                    None => None,
                };
                return Err(
                    InfiniteCorrectionLoop { path, iteration, loop_start: Some(i), offending_rules },
                );
            }
            i = i + 1;
        }
        self.seen_checksums.push(checksum);
        Ok(())
    }

    /// Check if we've seen this source before (loop detected): its checksum is checked as
    /// `check_checksum` does. What the checksum is, is not stated.
    fn check(&mut self, source: &[u8], iteration: usize) -> (r: Result<(), InfiniteCorrectionLoop>)
        requires
            old(self).rules_by_iteration@.len() == old(self).seen_checksums@.len(),
        ensures
            exists|c: u64| #[trigger] Self::checksum_checked(*old(self), *final(self), c, iteration, r),
    {
        let current_checksum = Self::checksum(source);
        self.check_checksum(current_checksum, iteration)
    }

    /// Record which rules were applied in this iteration.
    fn record_rules(&mut self, rules: Vec<RuleId>)
        ensures
            final(self).path == old(self).path,
            final(self).seen_checksums == old(self).seen_checksums,
            final(self).rules_by_iteration@ == old(self).rules_by_iteration@.push(rules),
    {
        self.rules_by_iteration.push(rules);
    }

    /// Check if we've exceeded the maximum iterations.
    fn check_max_iterations(&self) -> (r: Result<(), InfiniteCorrectionLoop>)
        ensures
            match r {
                Ok(()) => self.seen_checksums@.len() < MAX_ITERATIONS,
                Err(e) => self.seen_checksums@.len() >= MAX_ITERATIONS && e.path == self.path
                    && e.iteration == MAX_ITERATIONS && e.loop_start is None
                    && e.offending_rules@.len() == 0,
            },
    {
        if self.seen_checksums.len() >= MAX_ITERATIONS {
            let path = match &self.path {
                Some(p) => Some(p.clone()),
                None => None,
            };
            return Err(
                InfiniteCorrectionLoop {
                    path,
                    iteration: MAX_ITERATIONS,
                    loop_start: None,
                    offending_rules: Vec::new(),
                },
            );
        }
        Ok(())
    }

    /// Extract offending rules from the loop iterations: the rules of the rounds from
    /// `loop_start` on, each once, in the order of first mention.
    fn extract_offending_rules(&self, loop_start: usize) -> (v: Vec<String>)
        requires
            loop_start <= self.rules_by_iteration@.len(),
        ensures
            v@.map_values(|s: String| s@) == offending(self.rounds(), loop_start as int),
    {
        let n = self.rules_by_iteration.len();
        let start = loop_start;
        let ghost rounds = self.rounds();
        let ghost names = rule_names(rounds.subrange(start as int, n as int));
        let mut out: Vec<String> = Vec::new();
        // The names met so far, in order, duplicates included.
        let ghost mut met: Seq<Seq<char>> = Seq::empty();
        let mut j: usize = start;
        while j < n
            invariant
                start <= j <= n,
                n == self.rules_by_iteration@.len(),
                rounds == self.rounds(),
                met == rule_names(rounds.subrange(start as int, j as int)),
                out@.map_values(|s: String| s@) == dedup_prefix(met, met.len() as int),
            decreases n - j,
        {
            let rules = &self.rules_by_iteration[j];
            let ghost met_before = met;
            let mut k: usize = 0;
            while k < rules.len()
                invariant
                    0 <= k <= rules@.len(),
                    met == met_before + rules@.subrange(0, k as int).map_values(
                        |r: RuleId| spec_full_name(r),
                    ),
                    out@.map_values(|s: String| s@) == dedup_prefix(met, met.len() as int),
                decreases rules@.len() - k,
            {
                let name = String::from_str(rules[k].full_name());
                let mut present = false;
                let mut m: usize = 0;
                while m < out.len()
                    invariant
                        0 <= m <= out@.len(),
                        present == exists|q: int| 0 <= q < m && out@[q]@ == name@,
                    decreases out@.len() - m,
                {
                    if out[m] == name {
                        present = true;
                    }
                    m = m + 1;
                }
                let ghost out_names = out@.map_values(|s: String| s@);
                proof {
                    if present {
                        let q = choose|q: int| 0 <= q < m && out@[q]@ == name@;
                        assert(out_names[q] == name@);
                    } else {
                        assert forall|q: int| 0 <= q < out_names.len() implies out_names[q] != name@ by {
                            assert(out_names[q] == out@[q]@);
                        }
                    }
                }
                let ghost met_k = met;
                if !present {
                    out.push(name);
                }
                proof {
                    met = met.push(spec_full_name(rules@[k as int]));
                    assert(met == met_before + rules@.subrange(0, k + 1).map_values(
                        |r: RuleId| spec_full_name(r),
                    ));
                    assert(met.drop_last() == met_k);
                    assert(dedup_prefix(met, met.len() - 1) == dedup_prefix(met_k, met_k.len() as int)) by {
                        assert forall|t: int| 0 <= t <= met_k.len() implies dedup_prefix(met, t)
                            == dedup_prefix(met_k, t) by {
                            lemma_dedup_prefix_agree(met, met_k, t);
                        }
                    }
                    assert(out@.map_values(|s: String| s@) =~= dedup_prefix(met, met.len() as int));
                }
                k = k + 1;
            }
            proof {
                assert(rules@.subrange(0, k as int) =~= rules@);
                assert(rounds.subrange(start as int, j + 1).drop_last() =~= rounds.subrange(
                    start as int,
                    j as int,
                ));
                assert(rounds.subrange(start as int, j + 1).last() == rules@);
            }
            j = j + 1;
        }
        out
    }
}

/// Two texts that agree on their first `t` names are deduplicated alike up to there.
proof fn lemma_dedup_prefix_agree(a: Seq<Seq<char>>, b: Seq<Seq<char>>, t: int)
    requires
        0 <= t <= a.len(),
        t <= b.len(),
        forall|q: int| 0 <= q < t ==> a[q] == b[q],
    ensures
        dedup_prefix(a, t) == dedup_prefix(b, t),
    decreases t,
{
    if t > 0 {
        lemma_dedup_prefix_agree(a, b, t - 1);
    }
}

/// Whether every edit of every fix of `diagnostics` starts within a source of length `len`,
/// as the application of fixes needs.
pub fn all_fixes_within(diagnostics: &[Diagnostic], len: usize) -> (r: bool)
    ensures
        r == fixes_within(diagnostics@, len as int),
{
    let mut i: usize = 0;
    while i < diagnostics.len()
        invariant
            0 <= i <= diagnostics@.len(),
            forall|j: int, k: int|
                0 <= j < i && diagnostics@[j].fix is Some && 0 <= k < diagnostics@[j].fix->0.edits@.len()
                    ==> (#[trigger] diagnostics@[j].fix->0.edits@[k]).start <= len,
        decreases diagnostics@.len() - i,
    {
        if let Some(fix) = &diagnostics[i].fix {
            let mut k: usize = 0;
            while k < fix.edits.len()
                invariant
                    0 <= i < diagnostics@.len(),
                    0 <= k <= fix.edits@.len(),
                    diagnostics@[i as int].fix == Some(*fix),
                    forall|q: int| 0 <= q < k ==> (#[trigger] fix.edits@[q]).start <= len,
                decreases fix.edits@.len() - k,
            {
                if fix.edits[k].start > len {
                    assert(diagnostics@[i as int].fix->0.edits@[k as int].start > len);
                    return false;
                }
                k = k + 1;
            }
        }
        i = i + 1;
    }
    true
}

/// Every edit of `es` starts within a source of length `len`.
pub open spec fn edits_within(es: Seq<Edit>, len: int) -> bool {
    forall|k: int| 0 <= k < es.len() ==> (#[trigger] es[k]).start <= len
}

/// Edits that all start within the source can be applied to it.
proof fn lemma_applicable(es: Seq<Edit>, last: int, len: int)
    requires
        edits_within(es, len),
    ensures
        applicable_from(es, last, len),
    decreases es.len(),
{
    if es.len() > 0 {
        assert(edits_within(es.drop_first(), len)) by {
            assert forall|k: int| 0 <= k < es.drop_first().len() implies (#[trigger] es.drop_first()[k]).start <= len by {
                assert(es.drop_first()[k] == es[k + 1]);
            }
        }
        lemma_applicable(es.drop_first(), es[0].end as int, len);
    }
}

/// Merging edits that start within the source keeps every edit within it.
proof fn lemma_insert_all_within(s: Seq<Edit>, es: Seq<Edit>, len: int)
    requires
        sorted_edits(s),
        edits_within(s, len),
        edits_within(es, len),
    ensures
        edits_within(insert_all(s, es), len),
        sorted_edits(insert_all(s, es)),
{
    lemma_insert_all(s, es);
    let r = insert_all(s, es);
    assert forall|k: int| 0 <= k < r.len() implies (#[trigger] r[k]).start <= len by {
        let x = r[k];
        assert(r.contains(x));
        assert(r.to_multiset().count(x) > 0);
        assert(s.to_multiset().add(es.to_multiset()).count(x) > 0);
        if s.to_multiset().count(x) > 0 {
            assert(s.contains(x));
            let j = choose|j: int| 0 <= j < s.len() && s[j] == x;
            assert(s[j].start <= len);
        } else {
            assert(es.to_multiset().count(x) > 0);
            assert(es.contains(x));
            let j = choose|j: int| 0 <= j < es.len() && es[j] == x;
            assert(es[j].start <= len);
        }
    }
}

/// The edits of a round are ordered, and lie within the source when the fixes do.
proof fn lemma_round(ds: Seq<Diagnostic>, unsafe_fixes: bool, k: int, len: int)
    requires
        0 <= k <= ds.len(),
    ensures
        sorted_edits(round_state(ds, unsafe_fixes, k).0),
        round_state(ds, unsafe_fixes, k).1.no_duplicates(),
        fixes_within(ds, len) ==> edits_within(round_state(ds, unsafe_fixes, k).0, len),
    decreases k,
{
    if k > 0 {
        lemma_round(ds, unsafe_fixes, k - 1, len);
        let prev = round_state(ds, unsafe_fixes, k - 1);
        let d = ds[k - 1];
        if let Some(f) = d.fix {
            lemma_insert_all(prev.0, f.edits@);
            if fixes_within(ds, len) {
                assert(edits_within(f.edits@, len)) by {
                    assert forall|q: int| 0 <= q < f.edits@.len() implies (#[trigger] f.edits@[q]).start <= len by {
                        assert(ds[k - 1].fix->0.edits@[q] == f.edits@[q]);
                    }
                }
                lemma_insert_all_within(prev.0, f.edits@, len);
            }
        }
    }
}

/// Offer the fixes of `diagnostics`, in order, to a new corrector: a fix is taken when it may
/// be applied, its rule conflicts with no rule applied so far, and it clobbers no edit taken
/// before. Returns the corrector and the rules applied, in the order of first application.
pub fn collect_fixes(diagnostics: &Vec<Diagnostic>, unsafe_fixes: bool) -> (r: (Corrector, Vec<RuleId>))
    ensures
        r.0.wf(),
        r.0.edits() == round_state(diagnostics@, unsafe_fixes, diagnostics@.len() as int).0,
        r.1@ == round_state(diagnostics@, unsafe_fixes, diagnostics@.len() as int).1,
{
    let mut corrector = Corrector::new();
    let mut registry = ConflictRegistry::new();
    let mut applied: Vec<RuleId> = Vec::new();
    let mut i: usize = 0;
    while i < diagnostics.len()
        invariant
            0 <= i <= diagnostics@.len(),
            corrector.wf(),
            registry.wf(),
            corrector.edits() == round_state(diagnostics@, unsafe_fixes, i as int).0,
            applied@ == round_state(diagnostics@, unsafe_fixes, i as int).1,
            registry.applied() == applied@.to_set(),
        decreases diagnostics@.len() - i,
    {
        let d = &diagnostics[i];
        match &d.fix {
            Some(fix) => {
                if should_apply_fix(fix, unsafe_fixes) && !registry.conflicts_with_applied(
                    d.rule_id,
                ) {
                    let merged = corrector.merge(fix);
                    if merged.is_ok() {
                        let was = registry.was_applied(d.rule_id);
                        registry.mark_applied(d.rule_id);
                        let ghost before = applied@;
                        if !was {
                            applied.push(d.rule_id);
                            proof {
                                before.lemma_push_to_set_commute(d.rule_id);
                            }
                        } else {
                            assert(applied@.to_set().insert(d.rule_id) =~= applied@.to_set());
                        }
                        proof {
                            assert(before.to_set().contains(d.rule_id) == before.contains(d.rule_id));
                        }
                    }
                }
            },
            None => {},
        }
        i = i + 1;
    }
    (corrector, applied)
}

/// The diagnostic `a` is a copy of `b` as far as fixing goes: same rule, same fix.
pub open spec fn same_fix(a: Diagnostic, b: Diagnostic) -> bool {
    &&& a.rule_id == b.rule_id
    &&& (a.fix is Some <==> b.fix is Some)
    &&& a.fix is Some ==> a.fix->0.applicability == b.fix->0.applicability && a.fix->0.edits@
        == b.fix->0.edits@
}

/// Without a fix that may be applied and has an edit, a round merges no edit.
proof fn lemma_round_empty(ds: Seq<Diagnostic>, unsafe_fixes: bool, k: int)
    requires
        0 <= k <= ds.len(),
        !has_applicable_fix(ds, unsafe_fixes),
    ensures
        round_state(ds, unsafe_fixes, k).0.len() == 0,
    decreases k,
{
    if k > 0 {
        lemma_round_empty(ds, unsafe_fixes, k - 1);
        let d = ds[k - 1];
        if let Some(f) = d.fix {
            if spec_should_apply(f.applicability, unsafe_fixes) {
                assert(!(0 <= k - 1 < ds.len() && ds[k - 1].fix is Some && spec_should_apply(
                    ds[k - 1].fix->0.applicability,
                    unsafe_fixes,
                ) && ds[k - 1].fix->0.edits@.len() > 0));
                assert(f.edits@.len() == 0);
                lemma_insert_all(round_state(ds, unsafe_fixes, k - 1).0, f.edits@);
            }
        }
    }
}

/// Each diagnostic of `r` is a copy of one of `ds`.
pub open spec fn copies_of(r: Seq<Diagnostic>, ds: Seq<Diagnostic>) -> bool {
    forall|j: int| 0 <= j < r.len() ==> exists|i: int| 0 <= i < ds.len() && same_fix(#[trigger] r[j], ds[i])
}

/// `r` is what a filter kept of `ds`, with `idx` the positions of the kept diagnostics: copies
/// of the diagnostics for which `filter` gave `true`, in order; it gave `false` for the rest.
pub open spec fn kept_at<F: Fn(&Diagnostic) -> bool>(r: Seq<Diagnostic>, ds: Seq<Diagnostic>, filter: F, idx: Seq<int>) -> bool {
    &&& idx.len() == r.len()
    &&& forall|j: int, l: int| 0 <= j < l < idx.len() ==> idx[j] < idx[l]
    &&& forall|j: int| 0 <= j < idx.len() ==> 0 <= #[trigger] idx[j] < ds.len() && same_fix(r[j], ds[idx[j]])
    &&& forall|i: int|
        0 <= i < ds.len() ==> (idx.contains(i) ==> filter.ensures((&ds[i],), true)) && (!idx.contains(i)
            ==> filter.ensures((&ds[i],), false))
}

/// `r` is what a filter kept of `ds`.
pub open spec fn kept<F: Fn(&Diagnostic) -> bool>(r: Seq<Diagnostic>, ds: Seq<Diagnostic>, filter: F) -> bool {
    exists|idx: Seq<int>| kept_at(r, ds, filter, idx)
}

/// `filter` gives `true` for every diagnostic.
pub open spec fn accepts_all<F: Fn(&Diagnostic) -> bool>(filter: F) -> bool {
    forall|d: &Diagnostic, b: bool| #[trigger] filter.ensures((d,), b) ==> b
}

/// `r` holds a copy of each diagnostic of `ds`, in order.
pub open spec fn copied_all(r: Seq<Diagnostic>, ds: Seq<Diagnostic>) -> bool {
    &&& r.len() == ds.len()
    &&& forall|j: int| 0 <= j < r.len() ==> same_fix(#[trigger] r[j], ds[j])
}

/// What a filter kept of `ds`, and all of it where the filter accepts every diagnostic.
pub open spec fn filtered<F: Fn(&Diagnostic) -> bool>(r: Seq<Diagnostic>, ds: Seq<Diagnostic>, filter: F) -> bool {
    &&& kept(r, ds, filter)
    &&& accepts_all(filter) ==> copied_all(r, ds)
}

/// The diagnostics that `filter` accepts, copied, in order.
fn filter_diagnostics<F>(ds: &[Diagnostic], filter: &F) -> (r: Vec<Diagnostic>) where
    F: Fn(&Diagnostic) -> bool,

    requires
        forall|d: &Diagnostic| #[trigger] filter.requires((d,)),
    ensures
        copies_of(r@, ds@),
        filtered(r@, ds@, *filter),
{
    let mut r: Vec<Diagnostic> = Vec::new();
    let ghost mut idx: Seq<int> = Seq::empty();
    let mut i: usize = 0;
    while i < ds.len()
        invariant
            0 <= i <= ds@.len(),
            forall|d: &Diagnostic| #[trigger] filter.requires((d,)),
            copies_of(r@, ds@),
            idx.len() == r@.len(),
            forall|j: int, l: int| 0 <= j < l < idx.len() ==> idx[j] < idx[l],
            forall|j: int| 0 <= j < idx.len() ==> 0 <= #[trigger] idx[j] < i && same_fix(r@[j], ds@[idx[j]]),
            forall|k: int|
                0 <= k < i ==> (idx.contains(k) ==> filter.ensures((&ds@[k],), true)) && (!idx.contains(k)
                    ==> filter.ensures((&ds@[k],), false)),
            accepts_all(*filter) ==> idx.len() == i && forall|j: int| 0 <= j < idx.len() ==> #[trigger] idx[j] == j,
        decreases ds@.len() - i,
    {
        let d = &ds[i];
        let keep = filter(d);
        if keep {
            let c = d.duplicate();
            assert(same_fix(c, ds@[i as int]));
            let ghost before = r@;
            let ghost before_idx = idx;
            r.push(c);
            proof {
                idx = idx.push(i as int);
            }
            assert forall|j: int| 0 <= j < r@.len() implies exists|k: int| 0 <= k < ds@.len() && same_fix(#[trigger] r@[j], ds@[k]) by {
                if j == r@.len() - 1 {
                    assert(same_fix(r@[j], ds@[i as int]));
                } else {
                    assert(r@[j] == before[j]);
                }
            }
            assert forall|j: int| 0 <= j < idx.len() implies 0 <= #[trigger] idx[j] < i + 1 && same_fix(r@[j], ds@[idx[j]]) by {
                if j < before_idx.len() {
                    assert(idx[j] == before_idx[j]);
                    assert(r@[j] == before[j]);
                }
            }
            assert forall|k: int| 0 <= k < i + 1 implies (idx.contains(k) ==> filter.ensures((&ds@[k],), true)) && (!idx.contains(k)
                    ==> filter.ensures((&ds@[k],), false)) by {
                if k < i {
                    if before_idx.contains(k) {
                        let w = choose|w: int| 0 <= w < before_idx.len() && before_idx[w] == k;
                        assert(idx[w] == k);
                    }
                    if idx.contains(k) {
                        let w = choose|w: int| 0 <= w < idx.len() && idx[w] == k;
                        if w < before_idx.len() {
                            assert(before_idx[w] == k);
                        }
                    }
                } else {
                    assert(idx[idx.len() - 1] == i);
                }
            }
        } else {
            proof {
                assert(!idx.contains(i as int)) by {
                    if idx.contains(i as int) {
                        let w = choose|w: int| 0 <= w < idx.len() && idx[w] == i;
                    }
                }
                if accepts_all(*filter) {
                    assert(filter.ensures((d,), false));
                }
            }
        }
        i = i + 1;
    }
    proof {
        assert(kept_at(r@, ds@, *filter, idx));
        if accepts_all(*filter) {
            assert forall|j: int| 0 <= j < r@.len() implies same_fix(#[trigger] r@[j], ds@[j]) by {
                assert(idx[j] == j);
            }
        }
    }
    r
}

/// Copies keep fixes within the source, and keep the absence of fixes to apply.
proof fn lemma_copies(r: Seq<Diagnostic>, ds: Seq<Diagnostic>, len: int, unsafe_fixes: bool)
    requires
        copies_of(r, ds),
    ensures
        fixes_within(ds, len) ==> fixes_within(r, len),
        !has_applicable_fix(ds, unsafe_fixes) ==> !has_applicable_fix(r, unsafe_fixes),
{
    if fixes_within(ds, len) {
        assert forall|j: int, k: int|
            0 <= j < r.len() && r[j].fix is Some && 0 <= k < r[j].fix->0.edits@.len() implies (
            #[trigger] r[j].fix->0.edits@[k]).start <= len by {
            let i = choose|i: int| 0 <= i < ds.len() && same_fix(r[j], ds[i]);
            assert(ds[i].fix->0.edits@[k] == r[j].fix->0.edits@[k]);
        }
    }
    if has_applicable_fix(r, unsafe_fixes) {
        let j = choose|j: int|
            0 <= j < r.len() && (#[trigger] r[j]).fix is Some && spec_should_apply(
                r[j].fix->0.applicability,
                unsafe_fixes,
            ) && r[j].fix->0.edits@.len() > 0;
        let i = choose|i: int| 0 <= i < ds.len() && same_fix(r[j], ds[i]);
        assert(ds[i].fix is Some && spec_should_apply(ds[i].fix->0.applicability, unsafe_fixes)
            && ds[i].fix->0.edits@.len() > 0);
    }
}

/// Whether no diagnostic of `ds` has a fix.
fn none_fixable(ds: &Vec<Diagnostic>) -> (b: bool)
    ensures
        b == (forall|i: int| 0 <= i < ds@.len() ==> (#[trigger] ds@[i]).fix is None),
{
    let mut i: usize = 0;
    while i < ds.len()
        invariant
            0 <= i <= ds@.len(),
            forall|j: int| 0 <= j < i ==> (#[trigger] ds@[j]).fix is None,
        decreases ds@.len() - i,
    {
        if ds[i].fix.is_some() {
            return false;
        }
        i = i + 1;
    }
    true
}

/// The edits that a round merges from the fixes of `ds`.
pub open spec fn round_edits(ds: Seq<Diagnostic>, unsafe_fixes: bool) -> Seq<Edit> {
    round_state(ds, unsafe_fixes, ds.len() as int).0
}

/// How many edits the first `k` rounds merge, when the diagnostics of the rounds are `dss`.
pub open spec fn edits_applied(dss: Seq<Seq<Diagnostic>>, unsafe_fixes: bool, k: int) -> nat
    decreases k,
{
    if k <= 0 {
        0
    } else {
        edits_applied(dss, unsafe_fixes, k - 1) + round_edits(dss[k - 1], unsafe_fixes).len()
    }
}

/// `n`, or the largest `usize` where `n` is larger.
pub open spec fn saturated(n: nat) -> nat {
    if n > usize::MAX {
        usize::MAX as nat
    } else {
        n
    }
}

/// The rounds of a correction of `source`: round `k` starts from source `srcs[k]` with the
/// diagnostics `dss[k]`, and the next round starts from what the edits merged from them give.
pub open spec fn rounds_apply(source: Seq<u8>, unsafe_fixes: bool, srcs: Seq<Seq<u8>>, dss: Seq<Seq<Diagnostic>>) -> bool {
    &&& srcs.len() >= 1
    &&& dss.len() == srcs.len()
    &&& srcs[0] == source
    &&& forall|k: int|
        1 <= k < srcs.len() ==> #[trigger] srcs[k] == apply_edits(srcs[k - 1], round_edits(dss[k - 1], unsafe_fixes))
}

/// The diagnostics of each round are what `filter` keeps: of `diagnostics` in the first round,
/// of what `recheck` gave for the round's source in the later ones.
pub open spec fn rounds_filtered<F: Fn(&Diagnostic) -> bool, R: Fn(&[u8]) -> Vec<Diagnostic>>(
    diagnostics: Seq<Diagnostic>,
    filter: F,
    recheck: R,
    srcs: Seq<Seq<u8>>,
    dss: Seq<Seq<Diagnostic>>,
) -> bool {
    &&& filtered(dss[0], diagnostics, filter)
    &&& forall|k: int|
        1 <= k < srcs.len() ==> exists|s: &[u8], v: Vec<Diagnostic>|
            s@ == #[trigger] srcs[k] && #[trigger] recheck.ensures((s,), v) && filtered(dss[k], v@, filter)
}

/// The diagnostics of each round are copies of all of `diagnostics` in the first round, and
/// of all that `recheck` gave for the round's source in the later ones.
pub open spec fn rounds_rechecked<R: Fn(&[u8]) -> Vec<Diagnostic>>(
    diagnostics: Seq<Diagnostic>,
    recheck: R,
    srcs: Seq<Seq<u8>>,
    dss: Seq<Seq<Diagnostic>>,
) -> bool {
    &&& copied_all(dss[0], diagnostics)
    &&& forall|k: int| 1 <= k < srcs.len() ==> #[trigger] rechecked_round(recheck, srcs, dss, k)
}

/// The diagnostics of round `k` are copies of all that `recheck` gave for its source.
pub open spec fn rechecked_round<R: Fn(&[u8]) -> Vec<Diagnostic>>(
    recheck: R,
    srcs: Seq<Seq<u8>>,
    dss: Seq<Seq<Diagnostic>>,
    k: int,
) -> bool {
    exists|s: &[u8], v: Vec<Diagnostic>|
        s@ == srcs[k] && #[trigger] recheck.ensures((s,), v) && copied_all(dss[k], v@)
}

/// The rounds end at `out`, the source of the last round, whose diagnostics merge no more
/// edits; `n` counts the edits merged, up to the largest `usize`.
pub open spec fn rounds_end(unsafe_fixes: bool, srcs: Seq<Seq<u8>>, dss: Seq<Seq<Diagnostic>>, out: Seq<u8>, n: usize) -> bool {
    &&& srcs.len() <= MAX_ITERATIONS
    &&& out == srcs.last()
    &&& n == saturated(edits_applied(dss, unsafe_fixes, srcs.len() - 1))
    &&& round_edits(dss.last(), unsafe_fixes).len() == 0
}

/// `out` is what rounds of fixes that `filter` keeps make of `source`, rechecked by `recheck`
/// after each round, and `n` the number of edits they merged.
pub open spec fn corrected_filtered<F: Fn(&Diagnostic) -> bool, R: Fn(&[u8]) -> Vec<Diagnostic>>(
    source: Seq<u8>,
    diagnostics: Seq<Diagnostic>,
    unsafe_fixes: bool,
    filter: F,
    recheck: R,
    out: Seq<u8>,
    n: usize,
) -> bool {
    exists|srcs: Seq<Seq<u8>>, dss: Seq<Seq<Diagnostic>>|
        #![trigger rounds_apply(source, unsafe_fixes, srcs, dss)]
        rounds_apply(source, unsafe_fixes, srcs, dss) && rounds_filtered(diagnostics, filter, recheck, srcs, dss)
            && rounds_end(unsafe_fixes, srcs, dss, out, n)
}

/// `out` is what rounds of all fixes make of `source`, rechecked by `recheck` after each
/// round, and `n` the number of edits they merged.
pub open spec fn corrected<R: Fn(&[u8]) -> Vec<Diagnostic>>(
    source: Seq<u8>,
    diagnostics: Seq<Diagnostic>,
    unsafe_fixes: bool,
    recheck: R,
    out: Seq<u8>,
    n: usize,
) -> bool {
    exists|srcs: Seq<Seq<u8>>, dss: Seq<Seq<Diagnostic>>|
        #![trigger rounds_apply(source, unsafe_fixes, srcs, dss)]
        rounds_apply(source, unsafe_fixes, srcs, dss) && rounds_rechecked(diagnostics, recheck, srcs, dss)
            && rounds_end(unsafe_fixes, srcs, dss, out, n)
}

/// The count of edits of the first `k` rounds does not depend on later rounds.
proof fn lemma_edits_applied_push(dss: Seq<Seq<Diagnostic>>, x: Seq<Diagnostic>, unsafe_fixes: bool, k: int)
    requires
        0 <= k <= dss.len(),
    ensures
        edits_applied(dss.push(x), unsafe_fixes, k) == edits_applied(dss, unsafe_fixes, k),
    decreases k,
{
    if k > 0 {
        lemma_edits_applied_push(dss, x, unsafe_fixes, k - 1);
        assert(dss.push(x)[k - 1] == dss[k - 1]);
    }
}

/// What every outcome of a correction loop satisfies: a loop error names the path, and either
/// the round that reproduced an earlier source, or the exhausted number of rounds; a result
/// with no fix counted is the source itself.
pub open spec fn loop_outcome(
    path: Option<&str>,
    source: Seq<u8>,
    r: Result<(Vec<u8>, usize), InfiniteCorrectionLoop>,
) -> bool {
    match r {
        Ok(v) => v.1 == 0 ==> v.0@ == source,
        Err(e) => {
            &&& e.spec_path() == match path {
                Some(p) => Some(p@),
                None => None::<Seq<char>>,
            }
            &&& match e.loop_start {
                Some(start) => start < e.iteration < MAX_ITERATIONS,
                None => e.iteration == MAX_ITERATIONS && e.offending_rules@.len() == 0,
            }
        },
    }
}

/// The rule lists of the first `n` rounds, whose diagnostics are `dss`.
pub open spec fn round_rules(dss: Seq<Seq<Diagnostic>>, unsafe_fixes: bool, n: int) -> Seq<Seq<RuleId>> {
    Seq::new(n as nat, |j: int| round_state(dss[j], unsafe_fixes, dss[j].len() as int).1)
}

/// Each of the first `n` rounds merged some edit.
pub open spec fn rounds_merge(dss: Seq<Seq<Diagnostic>>, unsafe_fixes: bool, n: int) -> bool {
    forall|j: int| 0 <= j < n ==> #[trigger] round_edits(dss[j], unsafe_fixes).len() > 0
}

/// How a correction that ended in the loop error `e` went, with `sums` the checksums of the
/// sources of its rounds as they were checked: every round before the last merged some edit;
/// either the checksum of round `e.iteration` repeats that of round `k = e.loop_start`, first
/// there, and the offending rules are those of the rounds from `k` on; or the checksums of
/// `MAX_ITERATIONS` rounds were checked and none repeated.
pub open spec fn failed_rounds(
    unsafe_fixes: bool,
    srcs: Seq<Seq<u8>>,
    dss: Seq<Seq<Diagnostic>>,
    sums: Seq<u64>,
    e: InfiniteCorrectionLoop,
) -> bool {
    match e.loop_start {
        Some(k) => {
            &&& srcs.len() == e.iteration + 1
            &&& sums.len() == e.iteration + 1
            &&& k < e.iteration
            &&& sums[k as int] == sums[e.iteration as int]
            &&& sums.drop_last().no_duplicates()
            &&& rounds_merge(dss, unsafe_fixes, e.iteration as int)
            &&& e.spec_offending() == offending(round_rules(dss, unsafe_fixes, e.iteration as int), k as int)
        },
        None => {
            &&& e.iteration == MAX_ITERATIONS
            &&& MAX_ITERATIONS <= srcs.len() <= MAX_ITERATIONS + 1
            &&& sums.len() == MAX_ITERATIONS
            &&& sums.no_duplicates()
            &&& rounds_merge(dss, unsafe_fixes, srcs.len() - 1)
        },
    }
}

/// The correction of `source` ended in the loop error `e` after rounds of fixes that
/// `filter` keeps, rechecked by `recheck`.
pub open spec fn correction_failed<F: Fn(&Diagnostic) -> bool, R: Fn(&[u8]) -> Vec<Diagnostic>>(
    source: Seq<u8>,
    diagnostics: Seq<Diagnostic>,
    unsafe_fixes: bool,
    filter: F,
    recheck: R,
    e: InfiniteCorrectionLoop,
) -> bool {
    exists|srcs: Seq<Seq<u8>>, dss: Seq<Seq<Diagnostic>>, sums: Seq<u64>|
        #![trigger failed_rounds(unsafe_fixes, srcs, dss, sums, e)]
        rounds_apply(source, unsafe_fixes, srcs, dss) && rounds_filtered(diagnostics, filter, recheck, srcs, dss)
            && failed_rounds(unsafe_fixes, srcs, dss, sums, e)
}

/// Some diagnostic of `ds` that `filter` accepts has a fix with an edit that may be applied.
pub open spec fn accepted_applicable<F: Fn(&Diagnostic) -> bool>(ds: Seq<Diagnostic>, filter: F, unsafe_fixes: bool) -> bool {
    exists|i: int|
        0 <= i < ds.len() && filter.ensures((&ds[i],), true) && (#[trigger] ds[i]).fix is Some
            && spec_should_apply(ds[i].fix->0.applicability, unsafe_fixes) && ds[i].fix->0.edits@.len() > 0
}

/// What a filter keeps of diagnostics none of which it accepts with an applicable fix has no
/// applicable fix.
proof fn lemma_kept_not_applicable<F: Fn(&Diagnostic) -> bool>(r: Seq<Diagnostic>, ds: Seq<Diagnostic>, filter: F, unsafe_fixes: bool)
    requires
        kept(r, ds, filter),
        !accepted_applicable(ds, filter, unsafe_fixes),
    ensures
        !has_applicable_fix(r, unsafe_fixes),
{
    if has_applicable_fix(r, unsafe_fixes) {
        let idx = choose|idx: Seq<int>| kept_at(r, ds, filter, idx);
        let j = choose|j: int|
            0 <= j < r.len() && (#[trigger] r[j]).fix is Some && spec_should_apply(
                r[j].fix->0.applicability,
                unsafe_fixes,
            ) && r[j].fix->0.edits@.len() > 0;
        let i = idx[j];
        assert(0 <= i < ds.len() && same_fix(r[j], ds[i]));
        assert(idx.contains(i));
        assert(filter.ensures((&ds[i],), true));
        assert(ds[i].fix is Some);
    }
}

/// Apply fixes with a filter and infinite loop detection.
///
/// Round after round, the fixes of the diagnostics that `filter` accepts are merged and
/// applied, and `recheck` gives the diagnostics of the corrected source; the loop stops when
/// a round merges nothing, when no diagnostic has a fix, or after `MAX_ITERATIONS` rounds.
/// A round whose source has the checksum of an earlier round's source is a loop.
#[verifier::rlimit(50)]
pub fn apply_fixes_filtered_with_loop_detection<F, R>(
    path: Option<&str>,
    source: &[u8],
    diagnostics: &[Diagnostic],
    unsafe_fixes: bool,
    filter: F,
    recheck: &R,
) -> (r: Result<(Vec<u8>, usize), InfiniteCorrectionLoop>) where
    F: Fn(&Diagnostic) -> bool,
    R: Fn(&[u8]) -> Vec<Diagnostic>,

    requires
        fixes_within(diagnostics@, source@.len() as int),
        forall|d: &Diagnostic| #[trigger] filter.requires((d,)),
        forall|s: &[u8]| #[trigger] recheck.requires((s,)),
        forall|s: &[u8], v: Vec<Diagnostic>| #[trigger]
            recheck.ensures((s,), v) ==> fixes_within(v@, s@.len() as int),
    ensures
        loop_outcome(path, source@, r),
        r matches Ok(v) ==> corrected_filtered(source@, diagnostics@, unsafe_fixes, filter, recheck, v.0@, v.1),
        r matches Err(e) ==> correction_failed(source@, diagnostics@, unsafe_fixes, filter, recheck, e),
        !accepted_applicable(diagnostics@, filter, unsafe_fixes) ==> (r matches Ok(v) && v.0@ == source@
            && v.1 == 0),
        !has_applicable_fix(diagnostics@, unsafe_fixes) ==> (r matches Ok(v) && v.0@ == source@
            && v.1 == 0),
{
    let mut current_source: Vec<u8> = vstd::slice::slice_to_vec(source);
    let mut total_fixed: usize = 0;
    let mut current_diagnostics = filter_diagnostics(diagnostics, &filter);
    let ghost idle = !has_applicable_fix(current_diagnostics@, unsafe_fixes);
    proof {
        lemma_copies(current_diagnostics@, diagnostics@, source@.len() as int, unsafe_fixes);
        if !accepted_applicable(diagnostics@, filter, unsafe_fixes) {
            lemma_kept_not_applicable(current_diagnostics@, diagnostics@, filter, unsafe_fixes);
        }
    }
    let ghost mut srcs: Seq<Seq<u8>> = seq![source@];
    let ghost mut dss: Seq<Seq<Diagnostic>> = seq![current_diagnostics@];
    let mut loop_detector = LoopDetector::new(path);
    let ghost path_view = loop_detector.path_view();
    let mut iteration: usize = 0;
    loop
        invariant_except_break
            iteration < MAX_ITERATIONS,
            loop_detector.seen_checksums@.len() == iteration,
            loop_detector.rules_by_iteration@.len() == iteration,
            idle ==> iteration == 0,
            iteration == 0 ==> total_fixed == 0,
            srcs.len() == iteration + 1,
            rounds_merge(dss, unsafe_fixes, iteration as int),
            loop_detector.rounds() == round_rules(dss, unsafe_fixes, iteration as int),
        invariant
            idle == !has_applicable_fix(dss[0], unsafe_fixes),
            !accepted_applicable(diagnostics@, filter, unsafe_fixes) ==> idle,
            !has_applicable_fix(diagnostics@, unsafe_fixes) ==> idle,
            loop_detector.seen_checksums@.no_duplicates(),
            loop_detector.path_view() == path_view,
            path_view == match path {
                Some(p) => Some(p@),
                None => None::<Seq<char>>,
            },
            fixes_within(current_diagnostics@, current_source@.len() as int),
            total_fixed == 0 ==> current_source@ == source@,
            iteration == 0 && idle ==> !has_applicable_fix(current_diagnostics@, unsafe_fixes),
            forall|d: &Diagnostic| #[trigger] filter.requires((d,)),
            forall|s: &[u8]| #[trigger] recheck.requires((s,)),
            forall|s: &[u8], v: Vec<Diagnostic>| #[trigger]
                recheck.ensures((s,), v) ==> fixes_within(v@, s@.len() as int),
            rounds_apply(source@, unsafe_fixes, srcs, dss),
            rounds_filtered(diagnostics@, filter, recheck, srcs, dss),
            srcs.last() == current_source@,
            dss.last() == current_diagnostics@,
            total_fixed == saturated(edits_applied(dss, unsafe_fixes, srcs.len() - 1)),
        ensures
            loop_detector.seen_checksums@.len() <= MAX_ITERATIONS,
            loop_detector.path_view() == path_view,
            total_fixed == 0 ==> current_source@ == source@,
            idle ==> loop_detector.seen_checksums@.len() == 1 && total_fixed == 0,
            loop_detector.seen_checksums@.no_duplicates(),
            loop_detector.seen_checksums@.len() == MAX_ITERATIONS ==> MAX_ITERATIONS <= srcs.len()
                <= MAX_ITERATIONS + 1 && rounds_merge(dss, unsafe_fixes, srcs.len() - 1),
            srcs.len() <= loop_detector.seen_checksums@.len() + 1,
            loop_detector.seen_checksums@.len() < MAX_ITERATIONS ==> round_edits(dss.last(), unsafe_fixes).len() == 0,
        decreases MAX_ITERATIONS - iteration,
    {
        let ghost before_check = loop_detector;
        let checked = loop_detector.check(current_source.as_slice(), iteration);
        let ghost c = choose|c: u64| #[trigger] LoopDetector::checksum_checked(before_check, loop_detector, c, iteration, checked);
        match checked {
            Err(e) => {
                proof {
                    if idle {
                        assert(before_check.seen_checksums@.len() == 0);
                        assert(!before_check.seen_checksums@.contains(c));
                    }
                    let sums = before_check.seen_checksums@.push(c);
                    let k = e.loop_start->0;
                    assert(sums.drop_last() =~= before_check.seen_checksums@);
                    assert(sums[k as int] == sums[e.iteration as int]);
                    assert(failed_rounds(unsafe_fixes, srcs, dss, sums, e));
                }
                return Err(e);
            },
            Ok(()) => {},
        }
        proof {
            let old_seen = before_check.seen_checksums@;
            assert(!old_seen.contains(c));
            assert(loop_detector.seen_checksums@ == old_seen.push(c));
            assert forall|a: int, b: int| 0 <= a < b < old_seen.len() + 1 implies loop_detector.seen_checksums@[a]
                != loop_detector.seen_checksums@[b] by {
                if b == old_seen.len() {
                    assert(old_seen[a] == loop_detector.seen_checksums@[a]);
                }
            }
        }
        let (corrector, rules) = collect_fixes(&current_diagnostics, unsafe_fixes);
        let ghost before_rules = loop_detector.rounds();
        loop_detector.record_rules(rules);
        proof {
            assert(loop_detector.rounds() =~= before_rules.push(round_state(dss[iteration as int], unsafe_fixes, dss[iteration as int].len() as int).1));
            assert(loop_detector.rounds() =~= round_rules(dss, unsafe_fixes, iteration + 1));
        }
        if corrector.is_empty() {
            break;
        }
        proof {
            if iteration == 0 && idle {
                lemma_round_empty(current_diagnostics@, unsafe_fixes, current_diagnostics@.len() as int);
            }
            lemma_round(
                current_diagnostics@,
                unsafe_fixes,
                current_diagnostics@.len() as int,
                current_source@.len() as int,
            );
            lemma_applicable(corrector.edits(), 0, current_source@.len() as int);
        }
        let ghost prev_total = total_fixed;
        total_fixed = total_fixed.saturating_add(corrector.edit_count());
        current_source = corrector.apply(current_source.as_slice());
        let checked_source = current_source.as_slice();
        let rechecked = recheck(checked_source);
        current_diagnostics = filter_diagnostics(&rechecked, &filter);
        proof {
            lemma_copies(current_diagnostics@, rechecked@, current_source@.len() as int, unsafe_fixes);
            let old_srcs = srcs;
            let old_dss = dss;
            let k = old_srcs.len() as int;
            srcs = old_srcs.push(current_source@);
            dss = old_dss.push(current_diagnostics@);
            assert forall|j: int| 1 <= j < srcs.len() implies #[trigger] srcs[j] == apply_edits(
                srcs[j - 1],
                round_edits(dss[j - 1], unsafe_fixes),
            ) by {
                if j < k {
                    assert(srcs[j] == old_srcs[j]);
                    assert(srcs[j - 1] == old_srcs[j - 1]);
                    assert(dss[j - 1] == old_dss[j - 1]);
                }
            }
            assert(rounds_apply(source@, unsafe_fixes, srcs, dss));
            assert(dss[0] == old_dss[0]);
            assert forall|j: int| 1 <= j < srcs.len() implies exists|s: &[u8], v: Vec<Diagnostic>|
                s@ == #[trigger] srcs[j] && #[trigger] recheck.ensures((s,), v) && filtered(dss[j], v@, filter) by {
                if j < k {
                    assert(srcs[j] == old_srcs[j]);
                    assert(dss[j] == old_dss[j]);
                } else {
                    assert(recheck.ensures((checked_source,), rechecked));
                    assert(checked_source@ == srcs[j]);
                }
            }
            lemma_edits_applied_push(old_dss, current_diagnostics@, unsafe_fixes, k - 1);
            assert(round_rules(dss, unsafe_fixes, k) =~= round_rules(old_dss, unsafe_fixes, k));
            assert forall|j: int| 0 <= j < k implies #[trigger] round_edits(dss[j], unsafe_fixes).len() > 0 by {
                assert(dss[j] == old_dss[j]);
            }
            assert(edits_applied(dss, unsafe_fixes, k) == edits_applied(old_dss, unsafe_fixes, k - 1)
                + round_edits(old_dss[k - 1], unsafe_fixes).len());
        }
        if none_fixable(&current_diagnostics) {
            proof {
                assert(!has_applicable_fix(current_diagnostics@, unsafe_fixes));
                lemma_round_empty(current_diagnostics@, unsafe_fixes, current_diagnostics@.len() as int);
            }
            break;
        }
        if iteration + 1 == MAX_ITERATIONS {
            break;
        }
        iteration = iteration + 1;
    }
    match loop_detector.check_max_iterations() {
        Err(e) => {
            proof {
                assert(failed_rounds(unsafe_fixes, srcs, dss, loop_detector.seen_checksums@, e));
            }
            return Err(e);
        },
        Ok(()) => {},
    }
    proof {
        assert(rounds_end(unsafe_fixes, srcs, dss, current_source@, total_fixed));
    }
    Ok((current_source, total_fixed))
}

/// Rounds that keep every diagnostic are rounds of all fixes.
proof fn lemma_filtered_all<F: Fn(&Diagnostic) -> bool, R: Fn(&[u8]) -> Vec<Diagnostic>>(
    source: Seq<u8>,
    diagnostics: Seq<Diagnostic>,
    unsafe_fixes: bool,
    filter: F,
    recheck: R,
    out: Seq<u8>,
    n: usize,
)
    requires
        accepts_all(filter),
        corrected_filtered(source, diagnostics, unsafe_fixes, filter, recheck, out, n),
    ensures
        corrected(source, diagnostics, unsafe_fixes, recheck, out, n),
{
    let (srcs, dss) = choose|srcs: Seq<Seq<u8>>, dss: Seq<Seq<Diagnostic>>|
        #![trigger rounds_apply(source, unsafe_fixes, srcs, dss)]
        rounds_apply(source, unsafe_fixes, srcs, dss) && rounds_filtered(diagnostics, filter, recheck, srcs, dss)
            && rounds_end(unsafe_fixes, srcs, dss, out, n);
    assert forall|k: int| 1 <= k < srcs.len() implies #[trigger] rechecked_round(recheck, srcs, dss, k) by {
        let (s, v) = choose|s: &[u8], v: Vec<Diagnostic>|
            s@ == #[trigger] srcs[k] && #[trigger] recheck.ensures((s,), v) && filtered(dss[k], v@, filter);
        assert(copied_all(dss[k], v@));
    }
    assert(rounds_rechecked(diagnostics, recheck, srcs, dss));
}

/// The correction of `source` ended in the loop error `e` after rounds of all fixes,
/// rechecked by `recheck`.
pub open spec fn correction_failed_all<R: Fn(&[u8]) -> Vec<Diagnostic>>(
    source: Seq<u8>,
    diagnostics: Seq<Diagnostic>,
    unsafe_fixes: bool,
    recheck: R,
    e: InfiniteCorrectionLoop,
) -> bool {
    exists|srcs: Seq<Seq<u8>>, dss: Seq<Seq<Diagnostic>>, sums: Seq<u64>|
        #![trigger failed_rounds(unsafe_fixes, srcs, dss, sums, e)]
        rounds_apply(source, unsafe_fixes, srcs, dss) && rounds_rechecked(diagnostics, recheck, srcs, dss)
            && failed_rounds(unsafe_fixes, srcs, dss, sums, e)
}

/// A failure after rounds that keep every diagnostic is one after rounds of all fixes.
proof fn lemma_failed_all<F: Fn(&Diagnostic) -> bool, R: Fn(&[u8]) -> Vec<Diagnostic>>(
    source: Seq<u8>,
    diagnostics: Seq<Diagnostic>,
    unsafe_fixes: bool,
    filter: F,
    recheck: R,
    e: InfiniteCorrectionLoop,
)
    requires
        accepts_all(filter),
        correction_failed(source, diagnostics, unsafe_fixes, filter, recheck, e),
    ensures
        correction_failed_all(source, diagnostics, unsafe_fixes, recheck, e),
{
    let (srcs, dss, sums) = choose|srcs: Seq<Seq<u8>>, dss: Seq<Seq<Diagnostic>>, sums: Seq<u64>|
        #![trigger failed_rounds(unsafe_fixes, srcs, dss, sums, e)]
        rounds_apply(source, unsafe_fixes, srcs, dss) && rounds_filtered(diagnostics, filter, recheck, srcs, dss)
            && failed_rounds(unsafe_fixes, srcs, dss, sums, e);
    assert forall|k: int| 1 <= k < srcs.len() implies #[trigger] rechecked_round(recheck, srcs, dss, k) by {
        let (s, v) = choose|s: &[u8], v: Vec<Diagnostic>|
            s@ == #[trigger] srcs[k] && #[trigger] recheck.ensures((s,), v) && filtered(dss[k], v@, filter);
        assert(copied_all(dss[k], v@));
    }
    assert(rounds_rechecked(diagnostics, recheck, srcs, dss));
    assert(failed_rounds(unsafe_fixes, srcs, dss, sums, e));
}

/// Every diagnostic is accepted.
fn accept_all(_d: &Diagnostic) -> (b: bool)
    ensures
        b,
{
    true
}

/// Apply fixes with infinite loop detection: every diagnostic's fix is offered.
pub fn apply_fixes_with_loop_detection<R>(
    path: Option<&str>,
    source: &[u8],
    diagnostics: &[Diagnostic],
    unsafe_fixes: bool,
    recheck: &R,
) -> (r: Result<(Vec<u8>, usize), InfiniteCorrectionLoop>) where R: Fn(&[u8]) -> Vec<Diagnostic>
    requires
        fixes_within(diagnostics@, source@.len() as int),
        forall|s: &[u8]| #[trigger] recheck.requires((s,)),
        forall|s: &[u8], v: Vec<Diagnostic>| #[trigger]
            recheck.ensures((s,), v) ==> fixes_within(v@, s@.len() as int),
    ensures
        loop_outcome(path, source@, r),
        r matches Ok(v) ==> corrected(source@, diagnostics@, unsafe_fixes, recheck, v.0@, v.1),
        r matches Err(e) ==> correction_failed_all(source@, diagnostics@, unsafe_fixes, recheck, e),
        !has_applicable_fix(diagnostics@, unsafe_fixes) ==> (r matches Ok(v) && v.0@ == source@
            && v.1 == 0),
{
    let r = apply_fixes_filtered_with_loop_detection(
        path,
        source,
        diagnostics,
        unsafe_fixes,
        accept_all,
        recheck,
    );
    proof {
        assert(accepts_all(accept_all));
        match &r {
            Ok(v) => lemma_filtered_all(source@, diagnostics@, unsafe_fixes, accept_all, recheck, v.0@, v.1),
            Err(e) => lemma_failed_all(source@, diagnostics@, unsafe_fixes, accept_all, recheck, *e),
        }
    }
    r
}

/// Apply fixes that `filter` accepts; when the loop gets stuck, the source is returned
/// unchanged with no fix counted.
pub fn apply_fixes_filtered<F, R>(
    path: Option<&str>,
    source: &[u8],
    diagnostics: &[Diagnostic],
    unsafe_fixes: bool,
    filter: F,
    recheck: &R,
) -> (r: (Vec<u8>, usize)) where F: Fn(&Diagnostic) -> bool, R: Fn(&[u8]) -> Vec<Diagnostic>
    requires
        fixes_within(diagnostics@, source@.len() as int),
        forall|d: &Diagnostic| #[trigger] filter.requires((d,)),
        forall|s: &[u8]| #[trigger] recheck.requires((s,)),
        forall|s: &[u8], v: Vec<Diagnostic>| #[trigger]
            recheck.ensures((s,), v) ==> fixes_within(v@, s@.len() as int),
    ensures
        r.1 == 0 ==> r.0@ == source@,
        corrected_filtered(source@, diagnostics@, unsafe_fixes, filter, recheck, r.0@, r.1) || (r.0@
            == source@ && r.1 == 0 && exists|e: InfiniteCorrectionLoop|
            #[trigger] correction_failed(source@, diagnostics@, unsafe_fixes, filter, recheck, e)),
        !accepted_applicable(diagnostics@, filter, unsafe_fixes) ==> r.0@ == source@ && r.1 == 0,
        !has_applicable_fix(diagnostics@, unsafe_fixes) ==> r.0@ == source@ && r.1 == 0,
{
    match apply_fixes_filtered_with_loop_detection(path, source, diagnostics, unsafe_fixes, filter, recheck) {
        Ok((fixed, count)) => (fixed, count),
        Err(_) => (vstd::slice::slice_to_vec(source), 0),
    }
}

/// Apply all fixes from diagnostics to the source code; when the loop gets stuck, the source
/// is returned unchanged with no fix counted.
pub fn apply_fixes<R>(
    path: Option<&str>,
    source: &[u8],
    diagnostics: &[Diagnostic],
    unsafe_fixes: bool,
    recheck: &R,
) -> (r: (Vec<u8>, usize)) where R: Fn(&[u8]) -> Vec<Diagnostic>
    requires
        fixes_within(diagnostics@, source@.len() as int),
        forall|s: &[u8]| #[trigger] recheck.requires((s,)),
        forall|s: &[u8], v: Vec<Diagnostic>| #[trigger]
            recheck.ensures((s,), v) ==> fixes_within(v@, s@.len() as int),
    ensures
        r.1 == 0 ==> r.0@ == source@,
        corrected(source@, diagnostics@, unsafe_fixes, recheck, r.0@, r.1) || (r.0@ == source@ && r.1
            == 0 && exists|e: InfiniteCorrectionLoop|
            #[trigger] correction_failed_all(source@, diagnostics@, unsafe_fixes, recheck, e)),
        !has_applicable_fix(diagnostics@, unsafe_fixes) ==> r.0@ == source@ && r.1 == 0,
{
    match apply_fixes_with_loop_detection(path, source, diagnostics, unsafe_fixes, recheck) {
        Ok((fixed, count)) => (fixed, count),
        Err(_) => (vstd::slice::slice_to_vec(source), 0),
    }
}

/// Apply fixes and return the result along with the diagnostics that remain, as `recheck`
/// gives them for the corrected source.
pub fn apply_fixes_with_remaining<R>(
    path: Option<&str>,
    source: &[u8],
    diagnostics: &[Diagnostic],
    unsafe_fixes: bool,
    recheck: &R,
) -> (r: (Vec<u8>, Vec<Diagnostic>, usize)) where R: Fn(&[u8]) -> Vec<Diagnostic>
    requires
        fixes_within(diagnostics@, source@.len() as int),
        forall|s: &[u8]| #[trigger] recheck.requires((s,)),
        forall|s: &[u8], v: Vec<Diagnostic>| #[trigger]
            recheck.ensures((s,), v) ==> fixes_within(v@, s@.len() as int),
    ensures
        r.2 == 0 ==> r.0@ == source@,
        corrected(source@, diagnostics@, unsafe_fixes, recheck, r.0@, r.2) || (r.0@ == source@ && r.2
            == 0 && exists|e: InfiniteCorrectionLoop|
            #[trigger] correction_failed_all(source@, diagnostics@, unsafe_fixes, recheck, e)),
        !has_applicable_fix(diagnostics@, unsafe_fixes) ==> r.0@ == source@ && r.2 == 0,
        exists|s: &[u8]| s@ == r.0@ && #[trigger] recheck.ensures((s,), r.1),
        fixes_within(r.1@, r.0@.len() as int),
{
    let (fixed_source, fix_count) = apply_fixes(path, source, diagnostics, unsafe_fixes, recheck);
    let fixed = fixed_source.as_slice();
    let remaining = recheck(fixed);
    proof {
        assert(recheck.ensures((fixed,), remaining));
        assert(fixed@ == fixed_source@);
    }
    let r = (fixed_source, remaining, fix_count);
    assert(exists|s: &[u8]| s@ == r.0@ && #[trigger] recheck.ensures((s,), r.1)) by {
        assert(recheck.ensures((fixed,), r.1));
    }
    r
}

} // verus!
