//! Merging a configuration with the configurations it inherits from: the child's settings
//! override the parent's, and the parent's settings stay where the child sets nothing.
use crate::config::converter::{apply_named, spec_from_cops};
use crate::config::yaml::{AllCopsConfig, CopConfig, RubocopYaml};
use crate::config::Config;
use crate::text::str_eq;
use vstd::prelude::*;

verus! {

/// The child's value where it has one, the parent's otherwise.
pub open spec fn or_string(child: Option<String>, parent: Option<String>) -> Option<Seq<char>> {
    match child {
        Some(c) => Some(c@),
        None => match parent {
            Some(p) => Some(p@),
            None => None,
        },
    }
}

/// The texts of a list of strings.
pub open spec fn texts(v: Seq<String>) -> Seq<Seq<char>> {
    v.map_values(|s: String| s@)
}

fn or_string_exec(child: Option<String>, parent: Option<String>) -> (r: Option<String>)
    ensures
        match (r, or_string(child, parent)) {
            (None, None) => true,
            (Some(a), Some(b)) => a@ == b,
            _ => false,
        },
{
    match child {
        Some(c) => Some(c),
        None => parent,
    }
}

/// The child's text where it has one, the parent's otherwise, as `r` holds it.
pub open spec fn or_string_is(r: Option<String>, child: Option<String>, parent: Option<String>) -> bool {
    match (r, or_string(child, parent)) {
        (None, None) => true,
        (Some(a), Some(b)) => a@ == b,
        _ => false,
    }
}

/// The child's list where it is not empty, the parent's otherwise, as `r` holds it.
pub open spec fn list_is(r: Vec<String>, child: Vec<String>, parent: Vec<String>) -> bool {
    texts(r@) == if child@.len() == 0 {
        texts(parent@)
    } else {
        texts(child@)
    }
}

/// `r` takes each global setting from `child` where it has one, from `parent` otherwise;
/// a list that `child` leaves empty is the parent's.
pub open spec fn merged_all_cops(parent: AllCopsConfig, child: AllCopsConfig, r: AllCopsConfig) -> bool {
    &&& or_string_is(r.target_ruby_version, child.target_ruby_version, parent.target_ruby_version)
    &&& list_is(r.exclude, child.exclude, parent.exclude)
    &&& list_is(r.included, child.included, parent.included)
    &&& r.use_cache == (match child.use_cache {
        Some(b) => Some(b),
        None => parent.use_cache,
    })
    &&& or_string_is(r.cache_root_directory, child.cache_root_directory, parent.cache_root_directory)
    &&& or_string_is(r.new_cops, child.new_cops, parent.new_cops)
    &&& r.suggested_extensions == (match child.suggested_extensions {
        Some(b) => Some(b),
        None => parent.suggested_extensions,
    })
}

/// Merge AllCops configuration. Child values override parent values; a list the child leaves
/// empty is the parent's.
pub fn merge_all_cops(parent: AllCopsConfig, child: AllCopsConfig) -> (r: AllCopsConfig)
    ensures
        merged_all_cops(parent, child, r),
{
    let exclude = if child.exclude.len() == 0 {
        parent.exclude
    } else {
        child.exclude
    };
    let included = if child.included.len() == 0 {
        parent.included
    } else {
        child.included
    };
    let use_cache = match child.use_cache {
        Some(b) => Some(b),
        None => parent.use_cache,
    };
    let suggested_extensions = match child.suggested_extensions {
        Some(b) => Some(b),
        None => parent.suggested_extensions,
    };
    AllCopsConfig {
        target_ruby_version: or_string_exec(child.target_ruby_version, parent.target_ruby_version),
        exclude,
        included,
        use_cache,
        cache_root_directory: or_string_exec(child.cache_root_directory, parent.cache_root_directory),
        new_cops: or_string_exec(child.new_cops, parent.new_cops),
        suggested_extensions,
    }
}

/// Merge two configurations. Child values override parent values: the child's cop settings
/// come after the parent's, so that a setting the child makes wins and one it leaves out
/// stays the parent's. The files to inherit from are the child's.
pub fn merge_configs(parent: RubocopYaml, child: RubocopYaml) -> (r: RubocopYaml)
    ensures
        r.inherit_from == child.inherit_from,
        merged_all_cops(parent.all_cops, child.all_cops, r.all_cops),
        r.cops@ == parent.cops@ + child.cops@,
{
    let mut cops = parent.cops;
    let mut extra = child.cops;
    let ghost pc = cops@;
    let ghost cc = extra@;
    cops.append(&mut extra);
    assert(cops@ == pc + cc);
    let all_cops = merge_all_cops(parent.all_cops, child.all_cops);
    RubocopYaml { inherit_from: child.inherit_from, all_cops, cops }
}

/// The cop settings of the first `k` inherited files, in order: a later file's come after an
/// earlier one's, so that a later file overrides an earlier one.
pub open spec fn inherited_cops(parents: Seq<RubocopYaml>, k: int) -> Seq<(String, CopConfig)>
    decreases k,
{
    if k <= 0 {
        Seq::empty()
    } else {
        inherited_cops(parents, k - 1) + parents[k - 1].cops@
    }
}

/// `chain` holds the global settings of the inherited files `parents` merged in order, one
/// file at a time: it starts from no setting, and each later file's settings override those
/// merged before it.
pub open spec fn inherited_chain(parents: Seq<RubocopYaml>, chain: Seq<AllCopsConfig>) -> bool {
    &&& chain.len() == parents.len() + 1
    &&& chain[0].is_unset()
    &&& forall|k: int|
        0 < k < chain.len() ==> merged_all_cops(chain[k - 1], parents[k - 1].all_cops, #[trigger] chain[k])
}

/// Resolve inheritance: the configurations that `config` inherits from, in the order it lists
/// them, are merged so that later files override earlier ones, and `config` overrides them
/// all. The files to inherit from are those of `config`.
pub fn merge_inherited(config: RubocopYaml, parents: Vec<RubocopYaml>) -> (r: RubocopYaml)
    ensures
        r.inherit_from == config.inherit_from,
        r.cops@ == inherited_cops(parents@, parents@.len() as int) + config.cops@,
        exists|chain: Seq<AllCopsConfig>|
            #![trigger inherited_chain(parents@, chain)]
            inherited_chain(parents@, chain) && merged_all_cops(chain.last(), config.all_cops, r.all_cops),
{
    let ghost all = parents@;
    let mut rest = parents;
    let mut base = RubocopYaml::default();
    let ghost mut chain: Seq<AllCopsConfig> = seq![base.all_cops];
    let mut i: usize = 0;
    let total = rest.len();
    proof {
        assert(base.cops@ =~= inherited_cops(all, 0));
    }
    while rest.len() > 0
        invariant
            i + rest@.len() == all.len(),
            all.len() == total,
            rest@ == all.subrange(i as int, all.len() as int),
            base.cops@ == inherited_cops(all, i as int),
            chain.len() == i + 1,
            chain[0].is_unset(),
            chain.last() == base.all_cops,
            forall|k: int|
                0 < k < chain.len() ==> merged_all_cops(chain[k - 1], all[k - 1].all_cops, #[trigger] chain[k]),
        decreases rest@.len(),
    {
        let p = rest.remove(0);
        assert(p == all[i as int]);
        base = merge_configs(base, p);
        proof {
            let old_chain = chain;
            chain = old_chain.push(base.all_cops);
            assert forall|k: int| 0 < k < chain.len() implies merged_all_cops(chain[k - 1], all[k - 1].all_cops, #[trigger] chain[k]) by {
                if k < old_chain.len() {
                    assert(chain[k] == old_chain[k] && chain[k - 1] == old_chain[k - 1]);
                }
            }
            assert(rest@ =~= all.subrange(i + 1, all.len() as int));
        }
        i = i + 1;
    }
    let ghost last = base.all_cops;
    let r = merge_configs(base, config);
    proof {
        assert(inherited_chain(all, chain));
    }
    r
}

/// Enter the file `p` while resolving inheritance: `true` where it was not visited yet, and
/// it is now; `false` where it was, which is circular inheritance.
pub fn enter(visited: &mut Vec<String>, p: String) -> (r: bool)
    ensures
        r == !texts(old(visited)@).contains(p@),
        texts(final(visited)@) == if r {
            texts(old(visited)@).push(p@)
        } else {
            texts(old(visited)@)
        },
{
    let mut i: usize = 0;
    while i < visited.len()
        invariant
            0 <= i <= visited@.len(),
            forall|j: int| 0 <= j < i ==> visited@[j]@ != p@,
        decreases visited@.len() - i,
    {
        if str_eq(visited[i].as_str(), p.as_str()) {
            assert(texts(visited@)[i as int] == p@);
            return false;
        }
        i = i + 1;
    }
    proof {
        assert forall|j: int| 0 <= j < texts(visited@).len() implies texts(visited@)[j] != p@ by {
            assert(texts(visited@)[j] == visited@[j]@);
        }
    }
    let ghost before = visited@;
    visited.push(p);
    proof {
        assert(texts(visited@) =~= texts(before).push(p@));
    }
    true
}

/// The configuration `start` with the first `k` cop settings of `cops` applied, in order.
pub open spec fn apply_cops(start: Config, cops: Seq<(String, CopConfig)>, k: int) -> Config
    decreases k,
{
    if k <= 0 {
        start
    } else {
        apply_named(apply_cops(start, cops, k - 1), cops[k - 1].0@, cops[k - 1].1)
    }
}

/// Reading a configuration applies its cop settings, in order, over the defaults.
pub proof fn lemma_from_cops(cops: Seq<(String, CopConfig)>, k: int)
    requires
        0 <= k <= cops.len(),
    ensures
        spec_from_cops(cops, k) == apply_cops(Config::spec_default(), cops, k),
    decreases k,
{
    if k > 0 {
        lemma_from_cops(cops, k - 1);
    }
}

/// Applying the settings of `p` and then those of `c` is applying those of `p + c`.
pub proof fn lemma_apply_cops_append(start: Config, p: Seq<(String, CopConfig)>, c: Seq<(String, CopConfig)>, k: int)
    requires
        0 <= k <= c.len(),
    ensures
        apply_cops(start, p + c, p.len() + k) == apply_cops(apply_cops(start, p, p.len() as int), c, k),
    decreases k,
{
    if k == 0 {
        lemma_apply_cops_prefix(start, p, c, p.len() as int);
    } else {
        lemma_apply_cops_append(start, p, c, k - 1);
        assert((p + c)[p.len() + k - 1] == c[k - 1]);
    }
}

/// Applying the first `k` settings of `p + c`, with `k` within `p`, is applying those of `p`.
proof fn lemma_apply_cops_prefix(start: Config, p: Seq<(String, CopConfig)>, c: Seq<(String, CopConfig)>, k: int)
    requires
        0 <= k <= p.len(),
    ensures
        apply_cops(start, p + c, k) == apply_cops(start, p, k),
    decreases k,
{
    if k > 0 {
        lemma_apply_cops_prefix(start, p, c, k - 1);
        assert((p + c)[k - 1] == p[k - 1]);
    }
}

/// The configuration read from a merged file is the child's settings applied over the
/// configuration read from the parent: every setting the child makes overrides the parent's,
/// and every setting it leaves out stays the parent's.
pub proof fn lemma_merge_overrides(parent: RubocopYaml, child: RubocopYaml, merged: RubocopYaml)
    requires
        merged.cops@ == parent.cops@ + child.cops@,
    ensures
        spec_from_cops(merged.cops@, merged.cops@.len() as int) == apply_cops(
            spec_from_cops(parent.cops@, parent.cops@.len() as int),
            child.cops@,
            child.cops@.len() as int,
        ),
{
    lemma_from_cops(merged.cops@, merged.cops@.len() as int);
    lemma_from_cops(parent.cops@, parent.cops@.len() as int);
    lemma_apply_cops_append(Config::spec_default(), parent.cops@, child.cops@, child.cops@.len() as int);
}

} // verus!
