//! Merging fixes into one set of edits, and applying the edits to a source.
use crate::diagnostic::{Applicability, Edit, Fix};
use vstd::prelude::*;
use vstd::multiset::Multiset;
use vstd::utf8::encode_utf8;

verus! {

broadcast use vstd::seq_lib::group_to_multiset_ensures;

/// Error type for conflicts when merging fixes.
#[derive(Debug)]
pub enum ClobberingError {
    DifferentReplacements { range: (usize, usize), existing_content: String, new_content: String },
    SwallowedInsertion { insertion_pos: usize, deletion_range: (usize, usize) },
    Overlapping { existing: (usize, usize), new: (usize, usize) },
}

/// Corrector that merges multiple fixes and applies them to source code.
#[derive(Debug)]
pub struct Corrector {
    edits: Vec<Edit>,
}

/// The bytes that an edit puts in place of its range.
pub open spec fn edit_bytes(e: Edit) -> Seq<u8> {
    encode_utf8(e.content@)
}

/// `a` comes no later than `b` when edits are ordered by `(start, end)`.
pub open spec fn edit_key_le(a: Edit, b: Edit) -> bool {
    a.start < b.start || (a.start == b.start && a.end <= b.end)
}

/// The edits are ordered by `(start, end)`.
pub open spec fn sorted_edits(s: Seq<Edit>) -> bool {
    forall|i: int, j: int| 0 <= i < j < s.len() ==> edit_key_le(#[trigger] s[i], #[trigger] s[j])
}

/// Where an edit goes in an ordered list: after every edit whose key is not greater.
pub open spec fn insert_position(s: Seq<Edit>, e: Edit) -> int
    decreases s.len(),
{
    if s.len() == 0 {
        0
    } else if edit_key_le(s.last(), e) {
        s.len() as int
    } else {
        insert_position(s.drop_last(), e)
    }
}

/// Insert an edit into an ordered list, after the edits with an equal key.
pub open spec fn insert_sorted(s: Seq<Edit>, e: Edit) -> Seq<Edit> {
    s.insert(insert_position(s, e), e)
}

/// Insert the edits one after another into an ordered list.
pub open spec fn insert_all(s: Seq<Edit>, es: Seq<Edit>) -> Seq<Edit>
    decreases es.len(),
{
    if es.len() == 0 {
        s
    } else {
        insert_all(insert_sorted(s, es[0]), es.drop_first())
    }
}

/// Two half-open ranges share at least one position.
pub open spec fn spec_ranges_overlap(start1: int, end1: int, start2: int, end2: int) -> bool {
    start1 < end2 && start2 < end1
}

/// How a new edit conflicts with one already merged, if it does.
pub open spec fn spec_conflict(x: Edit, e: Edit) -> Option<ClobberingError> {
    if x.start == e.start && x.end == e.end {
        if x.content@ != e.content@ {
            Some(
                ClobberingError::DifferentReplacements {
                    range: (x.start, x.end),
                    existing_content: x.content,
                    new_content: e.content,
                },
            )
        } else {
            None
        }
    } else if e.start == e.end && x.content@.len() == 0 && x.start < e.start && e.start < x.end {
        Some(
            ClobberingError::SwallowedInsertion {
                insertion_pos: e.start,
                deletion_range: (x.start, x.end),
            },
        )
    } else if x.start == x.end && e.content@.len() == 0 && e.start < x.start && x.start < e.end {
        Some(
            ClobberingError::SwallowedInsertion {
                insertion_pos: x.start,
                deletion_range: (e.start, e.end),
            },
        )
    } else if spec_ranges_overlap(x.start as int, x.end as int, e.start as int, e.end as int) {
        Some(ClobberingError::Overlapping { existing: (x.start, x.end), new: (e.start, e.end) })
    } else {
        None
    }
}

/// The first conflict of a new edit with the merged edits, in their order.
pub open spec fn first_conflict(existing: Seq<Edit>, e: Edit) -> Option<ClobberingError>
    decreases existing.len(),
{
    if existing.len() == 0 {
        None
    } else {
        match spec_conflict(existing[0], e) {
            Some(err) => Some(err),
            None => first_conflict(existing.drop_first(), e),
        }
    }
}

/// The first conflict of any of a fix's edits, taken in order, with the merged edits.
pub open spec fn first_fix_conflict(existing: Seq<Edit>, news: Seq<Edit>) -> Option<ClobberingError>
    decreases news.len(),
{
    if news.len() == 0 {
        None
    } else {
        match first_conflict(existing, news[0]) {
            Some(err) => Some(err),
            None => first_fix_conflict(existing, news.drop_first()),
        }
    }
}

/// Applying edits no edit of which needs bytes beyond the source's end.
pub open spec fn applicable_from(edits: Seq<Edit>, last: int, len: int) -> bool
    decreases edits.len(),
{
    if edits.len() == 0 {
        true
    } else {
        (last < edits[0].start ==> edits[0].start <= len) && applicable_from(
            edits.drop_first(),
            edits[0].end as int,
            len,
        )
    }
}

/// The result of applying ordered edits to `src`, the previous edit having ended at `last`
/// and covered the range `prev`: the untouched bytes before each edit, then its content;
/// after the last edit, the rest. An edit over the same range as the one before it repeats
/// it (merging admits it only with the same content) and is applied once.
pub open spec fn apply_from(src: Seq<u8>, edits: Seq<Edit>, last: int, prev: Option<(usize, usize)>) -> Seq<u8>
    decreases edits.len(),
{
    if edits.len() == 0 {
        if last < src.len() {
            src.subrange(last, src.len() as int)
        } else {
            Seq::empty()
        }
    } else {
        let e = edits[0];
        if prev == Some((e.start, e.end)) {
            apply_from(src, edits.drop_first(), last, prev)
        } else {
            let gap = if last < e.start {
                src.subrange(last, e.start as int)
            } else {
                Seq::empty()
            };
            gap + edit_bytes(e) + apply_from(src, edits.drop_first(), e.end as int, Some((e.start, e.end)))
        }
    }
}

/// The result of applying ordered edits to `src`.
pub open spec fn apply_edits(src: Seq<u8>, edits: Seq<Edit>) -> Seq<u8> {
    if edits.len() == 0 {
        src
    } else {
        apply_from(src, edits, 0, None)
    }
}

/// A text encodes to no bytes exactly when it has no characters.
pub proof fn lemma_encode_utf8_empty(c: Seq<char>)
    ensures
        (encode_utf8(c).len() == 0) == (c.len() == 0),
{
    if c.len() > 0 {
        assert(vstd::utf8::encode_scalar(c[0] as u32).len() >= 1);
    }
}

proof fn lemma_insert_position_bounds(s: Seq<Edit>, e: Edit)
    ensures
        0 <= insert_position(s, e) <= s.len(),
        forall|i: int| insert_position(s, e) <= i < s.len() ==> !edit_key_le(#[trigger] s[i], e),
        insert_position(s, e) > 0 ==> edit_key_le(s[insert_position(s, e) - 1], e),
    decreases s.len(),
{
    if s.len() > 0 && !edit_key_le(s.last(), e) {
        lemma_insert_position_bounds(s.drop_last(), e);
        assert forall|i: int| insert_position(s, e) <= i < s.len() implies !edit_key_le(
            #[trigger] s[i],
            e,
        ) by {
            if i < s.len() - 1 {
                assert(s.drop_last()[i] == s[i]);
            }
        }
    }
}

proof fn lemma_insert_sorted(s: Seq<Edit>, e: Edit)
    requires
        sorted_edits(s),
    ensures
        sorted_edits(insert_sorted(s, e)),
        insert_sorted(s, e).to_multiset() =~= s.to_multiset().insert(e),
        insert_sorted(s, e).len() == s.len() + 1,
{
    lemma_insert_position_bounds(s, e);
    let p = insert_position(s, e);
    let t = insert_sorted(s, e);
    assert(t.len() == s.len() + 1);
    assert forall|i: int, j: int| 0 <= i < j < t.len() implies edit_key_le(
        #[trigger] t[i],
        #[trigger] t[j],
    ) by {
        if j < p {
            assert(t[i] == s[i] && t[j] == s[j]);
        } else if j == p {
            assert(t[i] == s[i]);
            assert(edit_key_le(s[p - 1], e));
            if i < p - 1 {
                assert(edit_key_le(s[i], s[p - 1]));
            }
        } else if i < p {
            assert(t[i] == s[i] && t[j] == s[j - 1]);
        } else if i == p {
            assert(t[j] == s[j - 1]);
            assert(!edit_key_le(s[j - 1], e));
        } else {
            assert(t[i] == s[i - 1] && t[j] == s[j - 1]);
        }
    }
    assert(t.remove(p) =~= s);
    assert(t[p] == e);
    assert(t.remove(p).to_multiset() =~= t.to_multiset().remove(e));
    assert(t.to_multiset().count(e) > 0);
}

/// Inserting edits one by one into an ordered list keeps it ordered and keeps every edit.
pub proof fn lemma_insert_all(s: Seq<Edit>, es: Seq<Edit>)
    requires
        sorted_edits(s),
    ensures
        sorted_edits(insert_all(s, es)),
        insert_all(s, es).to_multiset() =~= s.to_multiset().add(es.to_multiset()),
        insert_all(s, es).len() == s.len() + es.len(),
    decreases es.len(),
{
    if es.len() > 0 {
        lemma_insert_sorted(s, es[0]);
        lemma_insert_all(insert_sorted(s, es[0]), es.drop_first());
        assert(es =~= seq![es[0]] + es.drop_first());
        vstd::seq_lib::lemma_multiset_commutative(seq![es[0]], es.drop_first());
        assert(seq![es[0]].to_multiset() =~= Multiset::empty().insert(es[0])) by {
            assert(seq![es[0]] =~= Seq::<Edit>::empty().push(es[0]));
        }
    }
}

proof fn lemma_first_conflict_skip(existing: Seq<Edit>, e: Edit, i: int)
    requires
        0 <= i <= existing.len(),
        forall|j: int| 0 <= j < i ==> spec_conflict(#[trigger] existing[j], e) is None,
    ensures
        first_conflict(existing, e) == first_conflict(existing.subrange(i, existing.len() as int), e),
    decreases i,
{
    if i == 0 {
        assert(existing.subrange(0, existing.len() as int) =~= existing);
    } else {
        assert(existing.subrange(i, existing.len() as int) =~= existing.drop_first().subrange(
            i - 1,
            existing.drop_first().len() as int,
        ));
        assert forall|j: int| 0 <= j < i - 1 implies spec_conflict(
            #[trigger] existing.drop_first()[j],
            e,
        ) is None by {
            assert(existing.drop_first()[j] == existing[j + 1]);
        }
        assert(spec_conflict(existing[0], e) is None);
        lemma_first_conflict_skip(existing.drop_first(), e, i - 1);
    }
}

proof fn lemma_apply_step(src: Seq<u8>, edits: Seq<Edit>, i: int, last: int, prev: Option<(usize, usize)>)
    requires
        0 <= i < edits.len(),
    ensures
        apply_from(src, edits.subrange(i, edits.len() as int), last, prev) == (if prev == Some(
            (edits[i].start, edits[i].end),
        ) {
            apply_from(src, edits.subrange(i + 1, edits.len() as int), last, prev)
        } else {
            (if last < edits[i].start {
                src.subrange(last, edits[i].start as int)
            } else {
                Seq::empty()
            }) + edit_bytes(edits[i]) + apply_from(
                src,
                edits.subrange(i + 1, edits.len() as int),
                edits[i].end as int,
                Some((edits[i].start, edits[i].end)),
            )
        }),
        applicable_from(edits.subrange(i, edits.len() as int), last, src.len() as int) ==> (
        (last < edits[i].start ==> edits[i].start <= src.len()) && applicable_from(
            edits.subrange(i + 1, edits.len() as int),
            edits[i].end as int,
            src.len() as int,
        )),
{
    let s = edits.subrange(i, edits.len() as int);
    assert(s[0] == edits[i]);
    assert(s.drop_first() =~= edits.subrange(i + 1, edits.len() as int));
}

/// Applying no edit gives back the source.
pub proof fn lemma_apply_no_edits(src: Seq<u8>)
    ensures
        apply_edits(src, Seq::empty()) == src,
{
}

/// Applying one edit replaces its range by its content and keeps the rest.
pub proof fn lemma_apply_one_edit(src: Seq<u8>, e: Edit)
    requires
        e.start <= e.end <= src.len(),
    ensures
        apply_edits(src, seq![e]) == src.subrange(0, e.start as int) + edit_bytes(e) + src.subrange(
            e.end as int,
            src.len() as int,
        ),
{
    let s = seq![e];
    assert(s.drop_first() =~= Seq::<Edit>::empty());
    assert(s.len() == 1 && s[0] == e);
    let rest = apply_from(src, Seq::<Edit>::empty(), e.end as int, Some((e.start, e.end)));
    assert(rest =~= src.subrange(e.end as int, src.len() as int));
    let gap = if 0 < e.start {
        src.subrange(0, e.start as int)
    } else {
        Seq::empty()
    };
    assert(apply_from(src, s, 0, None) == gap + edit_bytes(e) + apply_from(src, s.drop_first(), e.end as int, Some((e.start, e.end))));
    if e.start == 0 {
        assert(src.subrange(0, 0) =~= Seq::<u8>::empty());
    }
    if e.end == src.len() {
        assert(src.subrange(e.end as int, src.len() as int) =~= Seq::<u8>::empty());
    }
    assert(apply_edits(src, s) =~= src.subrange(0, e.start as int) + edit_bytes(e) + src.subrange(
        e.end as int,
        src.len() as int,
    ));
}

impl Corrector {
    /// The merged edits, in the order in which they are applied.
    pub closed spec fn edits(&self) -> Seq<Edit> {
        self.edits@
    }

    /// The merged edits are ordered by `(start, end)`.
    pub open spec fn wf(&self) -> bool {
        sorted_edits(self.edits())
    }

    /// Create a new empty corrector.
    pub fn new() -> (c: Corrector)
        ensures
            c.wf(),
            c.edits() == Seq::<Edit>::empty(),
    {
        Corrector { edits: Vec::new() }
    }

    /// Merge a fix into this corrector.
    ///
    /// Every edit of the fix is checked against the edits merged so far; at the first
    /// conflict the corrector is left unchanged and the conflict is returned. Otherwise
    /// each edit is placed after the merged edits that do not come later than it.
    pub fn merge(&mut self, fix: &Fix) -> (r: Result<(), ClobberingError>)
        requires
            old(self).wf(),
        ensures
            final(self).wf(),
            match first_fix_conflict(old(self).edits(), fix.edits@) {
                Some(err) => r == Err::<(), ClobberingError>(err) && final(self).edits() == old(
                    self,
                ).edits(),
                None => r is Ok && final(self).edits() == insert_all(old(self).edits(), fix.edits@),
            },
    {
        assert(fix.edits@.subrange(0, fix.edits@.len() as int) =~= fix.edits@);
        let mut k: usize = 0;
        while k < fix.edits.len()
            invariant
                0 <= k <= fix.edits@.len(),
                self.edits@ == old(self).edits@,
                sorted_edits(self.edits@),
                first_fix_conflict(self.edits@, fix.edits@) == first_fix_conflict(
                    self.edits@,
                    fix.edits@.subrange(k as int, fix.edits@.len() as int),
                ),
            decreases fix.edits@.len() - k,
        {
            let ghost rest = fix.edits@.subrange(k as int, fix.edits@.len() as int);
            assert(rest[0] == fix.edits@[k as int]);
            assert(rest.drop_first() =~= fix.edits@.subrange(k + 1, fix.edits@.len() as int));
            match self.check_conflict(&fix.edits[k]) {
                Err(err) => {
                    return Err(err);
                },
                Ok(()) => {},
            }
            k = k + 1;
        }
        let ghost start = self.edits@;
        let mut i: usize = 0;
        while i < fix.edits.len()
            invariant
                0 <= i <= fix.edits@.len(),
                sorted_edits(self.edits@),
                insert_all(start, fix.edits@) == insert_all(
                    self.edits@,
                    fix.edits@.subrange(i as int, fix.edits@.len() as int),
                ),
            decreases fix.edits@.len() - i,
        {
            let e = fix.edits[i].duplicate();
            let ghost before = self.edits@;
            assert(before.subrange(0, before.len() as int) =~= before);
            let mut pos: usize = self.edits.len();
            while pos > 0 && !key_le(&self.edits[pos - 1], &e)
                invariant
                    0 <= pos <= self.edits@.len(),
                    self.edits@ == before,
                    insert_position(before, e) == insert_position(
                        before.subrange(0, pos as int),
                        e,
                    ),
                decreases pos,
            {
                assert(before.subrange(0, pos as int).drop_last() =~= before.subrange(
                    0,
                    pos - 1,
                ));
                pos = pos - 1;
            }
            proof {
                let pre = before.subrange(0, pos as int);
                if pos > 0 {
                    assert(pre.last() == before[pos - 1]);
                }
                lemma_insert_sorted(before, e);
                let rest = fix.edits@.subrange(i as int, fix.edits@.len() as int);
                assert(rest[0] == e);
                assert(rest.drop_first() =~= fix.edits@.subrange(i + 1, fix.edits@.len() as int));
            }
            self.edits.insert(pos, e);
            i = i + 1;
        }
        assert(fix.edits@.subrange(fix.edits@.len() as int, fix.edits@.len() as int) =~= Seq::<
            Edit,
        >::empty());
        Ok(())
    }

    /// Check if a new edit conflicts with existing edits.
    fn check_conflict(&self, new_edit: &Edit) -> (r: Result<(), ClobberingError>)
        ensures
            match first_conflict(self.edits@, *new_edit) {
                Some(err) => r == Err::<(), ClobberingError>(err),
                None => r is Ok,
            },
    {
        let mut i: usize = 0;
        while i < self.edits.len()
            invariant
                0 <= i <= self.edits@.len(),
                forall|j: int| 0 <= j < i ==> spec_conflict(#[trigger] self.edits@[j], *new_edit) is None,
            decreases self.edits@.len() - i,
        {
            let existing_edit = &self.edits[i];
            proof {
                lemma_first_conflict_skip(self.edits@, *new_edit, i as int);
                let rest = self.edits@.subrange(i as int, self.edits@.len() as int);
                assert(rest[0] == *existing_edit);
            }
            let ex_len = existing_edit.content.as_str().as_bytes().len();
            let new_len = new_edit.content.as_str().as_bytes().len();
            proof {
                lemma_encode_utf8_empty(existing_edit.content@);
                lemma_encode_utf8_empty(new_edit.content@);
            }
            if existing_edit.start == new_edit.start && existing_edit.end == new_edit.end {
                if existing_edit.content != new_edit.content {
                    return Err(
                        ClobberingError::DifferentReplacements {
                            range: (existing_edit.start, existing_edit.end),
                            existing_content: existing_edit.content.clone(),
                            new_content: new_edit.content.clone(),
                        },
                    );
                }
            } else if new_edit.start == new_edit.end && ex_len == 0 && existing_edit.start
                < new_edit.start && new_edit.start < existing_edit.end {
                return Err(
                    ClobberingError::SwallowedInsertion {
                        insertion_pos: new_edit.start,
                        deletion_range: (existing_edit.start, existing_edit.end),
                    },
                );
            } else if existing_edit.start == existing_edit.end && new_len == 0 && new_edit.start
                < existing_edit.start && existing_edit.start < new_edit.end {
                return Err(
                    ClobberingError::SwallowedInsertion {
                        insertion_pos: existing_edit.start,
                        deletion_range: (new_edit.start, new_edit.end),
                    },
                );
            } else if ranges_overlap(
                existing_edit.start,
                existing_edit.end,
                new_edit.start,
                new_edit.end,
            ) {
                return Err(
                    ClobberingError::Overlapping {
                        existing: (existing_edit.start, existing_edit.end),
                        new: (new_edit.start, new_edit.end),
                    },
                );
            }
            i = i + 1;
        }
        proof {
            lemma_first_conflict_skip(self.edits@, *new_edit, i as int);
            assert(self.edits@.subrange(i as int, self.edits@.len() as int).len() == 0);
        }
        Ok(())
    }

    /// Apply all merged edits to the source code; an edit merged twice is applied once.
    pub fn apply(&self, source: &[u8]) -> (r: Vec<u8>)
        requires
            applicable_from(self.edits(), 0, source@.len() as int),
        ensures
            r@ == apply_edits(source@, self.edits()),
    {
        if self.edits.len() == 0 {
            return vstd::slice::slice_to_vec(source);
        }
        assert(self.edits@.subrange(0, self.edits@.len() as int) =~= self.edits@);
        let mut result: Vec<u8> = Vec::with_capacity(source.len());
        let mut last_pos: usize = 0;
        let mut i: usize = 0;
        while i < self.edits.len()
            invariant
                0 <= i <= self.edits@.len(),
                self.edits@.len() > 0,
                i > 0 ==> last_pos == self.edits@[i - 1].end,
                i == 0 ==> last_pos == 0,
                applicable_from(
                    self.edits@.subrange(i as int, self.edits@.len() as int),
                    last_pos as int,
                    source@.len() as int,
                ),
                apply_from(source@, self.edits@, 0, None) == result@ + apply_from(
                    source@,
                    self.edits@.subrange(i as int, self.edits@.len() as int),
                    last_pos as int,
                    if i > 0 {
                        Some((self.edits@[i - 1].start, self.edits@[i - 1].end))
                    } else {
                        None
                    },
                ),
            decreases self.edits@.len() - i,
        {
            let edit = &self.edits[i];
            let ghost prev = if i > 0 {
                Some((self.edits@[i - 1].start, self.edits@[i - 1].end))
            } else {
                None
            };
            proof {
                lemma_apply_step(source@, self.edits@, i as int, last_pos as int, prev);
            }
            let repeat = i > 0 && self.edits[i - 1].start == edit.start && self.edits[i - 1].end
                == edit.end;
            if !repeat {
                let ghost before = result@;
                if last_pos < edit.start {
                    result.extend_from_slice(&source[last_pos..edit.start]);
                }
                result.extend_from_slice(edit.content.as_str().as_bytes());
                proof {
                    let gap = if last_pos < edit.start {
                        source@.subrange(last_pos as int, edit.start as int)
                    } else {
                        Seq::empty()
                    };
                    assert(result@ =~= before + gap + edit_bytes(*edit));
                }
            }
            last_pos = edit.end;
            i = i + 1;
        }
        let ghost before = result@;
        if last_pos < source.len() {
            result.extend_from_slice(&source[last_pos..source.len()]);
        }
        assert(self.edits@.subrange(self.edits@.len() as int, self.edits@.len() as int) =~= Seq::<
            Edit,
        >::empty());
        assert(result@ =~= apply_from(source@, self.edits@, 0, None));
        result
    }

    /// Returns the number of edits that will be applied.
    pub fn edit_count(&self) -> (n: usize)
        ensures
            n == self.edits().len(),
    {
        self.edits.len()
    }

    /// Returns true if there are no edits to apply.
    pub fn is_empty(&self) -> (b: bool)
        ensures
            b == (self.edits().len() == 0),
    {
        self.edits.len() == 0
    }
}

/// Whether `a` is ordered no later than `b` by `(start, end)`.
fn key_le(a: &Edit, b: &Edit) -> (r: bool)
    ensures
        r == edit_key_le(*a, *b),
{
    a.start < b.start || (a.start == b.start && a.end <= b.end)
}

/// Check if two ranges overlap.
pub fn ranges_overlap(start1: usize, end1: usize, start2: usize, end2: usize) -> (r: bool)
    ensures
        r == spec_ranges_overlap(start1 as int, end1 as int, start2 as int, end2 as int),
{
    start1 < end2 && start2 < end1
}

/// Whether a fix with the given applicability is applied.
pub open spec fn spec_should_apply(a: Applicability, unsafe_fixes: bool) -> bool {
    match a {
        Applicability::Safe => true,
        Applicability::Unsafe => unsafe_fixes,
        Applicability::DisplayOnly => false,
    }
}

/// Check if a fix should be applied based on its applicability.
pub fn should_apply_fix(fix: &Fix, unsafe_fixes: bool) -> (b: bool)
    ensures
        b == spec_should_apply(fix.applicability, unsafe_fixes),
{
    match fix.applicability {
        Applicability::Safe => true,
        Applicability::Unsafe => unsafe_fixes,
        Applicability::DisplayOnly => false,
    }
}

} // verus!
