//! Which rules have had their fixes applied in the current round of corrections, and whose
//! fixes must wait for the next round because they conflict with them.
use crate::rule::{spec_conflicts, RuleId};
use vstd::prelude::*;

verus! {

/// Registry to track which rules have had their fixes applied in the current iteration.
///
/// When a rule's fixes are applied it is marked as applied; a rule that conflicts with an
/// applied rule, in either direction, is skipped and retried in the next iteration.
#[derive(Debug)]
pub struct ConflictRegistry {
    applied_rules: Vec<RuleId>,
}

/// Rule `r` conflicts with some rule of `applied`: it declares one of them as conflicting,
/// or one of them declares it.
pub open spec fn spec_conflicts_with_applied(applied: Set<RuleId>, r: RuleId) -> bool {
    exists|a: RuleId|
        #![trigger applied.contains(a)]
        applied.contains(a) && (spec_conflicts(r).contains(a) || spec_conflicts(a).contains(r))
}

impl ConflictRegistry {
    /// The rules applied so far.
    pub closed spec fn applied(&self) -> Set<RuleId> {
        self.applied_rules@.to_set()
    }

    /// Each applied rule is recorded once.
    pub closed spec fn wf(&self) -> bool {
        self.applied_rules@.no_duplicates()
    }

    /// Create a new empty conflict registry.
    pub fn new() -> (r: ConflictRegistry)
        ensures
            r.wf(),
            r.applied() == Set::<RuleId>::empty(),
    {
        let r = ConflictRegistry { applied_rules: Vec::new() };
        assert(r.applied() =~= Set::<RuleId>::empty());
        r
    }

    /// Mark a rule as having had its fixes applied.
    pub fn mark_applied(&mut self, rule_id: RuleId)
        requires
            old(self).wf(),
        ensures
            final(self).wf(),
            final(self).applied() == old(self).applied().insert(rule_id),
    {
        if !self.was_applied(rule_id) {
            let ghost before = self.applied_rules@;
            self.applied_rules.push(rule_id);
            proof {
                before.lemma_push_to_set_commute(rule_id);
            }
        } else {
            assert(self.applied() =~= old(self).applied().insert(rule_id));
        }
    }

    /// Check if a rule was already applied in this iteration.
    pub fn was_applied(&self, rule_id: RuleId) -> (b: bool)
        ensures
            b == self.applied().contains(rule_id),
    {
        let mut i: usize = 0;
        while i < self.applied_rules.len()
            invariant
                0 <= i <= self.applied_rules@.len(),
                forall|j: int| 0 <= j < i ==> self.applied_rules@[j] != rule_id,
            decreases self.applied_rules@.len() - i,
        {
            if self.applied_rules[i] == rule_id {
                assert(self.applied_rules@.contains(rule_id));
                return true;
            }
            i = i + 1;
        }
        false
    }

    /// Check if a rule has conflicts with already-applied rules, in either direction: it
    /// declares an applied rule as conflicting, or an applied rule declares it.
    pub fn conflicts_with_applied(&self, rule_id: RuleId) -> (b: bool)
        ensures
            b == spec_conflicts_with_applied(self.applied(), rule_id),
    {
        let mut i: usize = 0;
        while i < self.applied_rules.len()
            invariant
                0 <= i <= self.applied_rules@.len(),
                forall|j: int|
                    0 <= j < i ==> !(spec_conflicts(rule_id).contains(#[trigger] self.applied_rules@[j])
                        || spec_conflicts(self.applied_rules@[j]).contains(rule_id)),
            decreases self.applied_rules@.len() - i,
        {
            let a = self.applied_rules[i];
            if rule_id.has_conflict_with(a) || a.has_conflict_with(rule_id) {
                assert(self.applied().contains(a));
                return true;
            }
            i = i + 1;
        }
        assert forall|a: RuleId| #![trigger self.applied().contains(a)]
            self.applied().contains(a) implies !(spec_conflicts(rule_id).contains(a)
            || spec_conflicts(a).contains(rule_id)) by {
            let j = choose|j: int| 0 <= j < self.applied_rules@.len() && self.applied_rules@[j] == a;
            assert(self.applied_rules@[j] == a);
        }
        false
    }

    /// Clear the registry for a new iteration.
    pub fn clear(&mut self)
        ensures
            final(self).wf(),
            final(self).applied() == Set::<RuleId>::empty(),
    {
        self.applied_rules.clear();
        assert(self.applied() =~= Set::<RuleId>::empty());
    }

    /// Get the number of rules applied in this iteration.
    pub fn applied_count(&self) -> (n: usize)
        requires
            self.wf(),
        ensures
            n == self.applied().len(),
    {
        proof {
            self.applied_rules@.unique_seq_to_set();
        }
        self.applied_rules.len()
    }
}

impl Default for ConflictRegistry {
    fn default() -> (r: ConflictRegistry)
        ensures
            r.wf(),
            r.applied() == Set::<RuleId>::empty(),
    {
        ConflictRegistry::new()
    }
}

/// Conflicts are symmetric: a rule conflicts with another applied alone exactly when the other
/// conflicts with it applied alone, so whichever comes first wins.
pub proof fn lemma_conflict_symmetric(a: RuleId, b: RuleId)
    ensures
        spec_conflicts_with_applied(Set::empty().insert(a), b) == spec_conflicts_with_applied(
            Set::empty().insert(b),
            a,
        ),
{
    if spec_conflicts_with_applied(Set::empty().insert(a), b) {
        assert(Set::empty().insert(b).contains(b));
    }
    if spec_conflicts_with_applied(Set::empty().insert(b), a) {
        assert(Set::empty().insert(a).contains(a));
    }
}

/// No rule declares a conflict, so nothing conflicts with the rules applied, whatever they
/// are.
pub proof fn lemma_no_conflicts(applied: Set<RuleId>, r: RuleId)
    ensures
        !spec_conflicts_with_applied(applied, r),
{
}

} // verus!
