//! Which cops check which file: each cop's `Include` and `Exclude` patterns, matched against
//! the file's path by `globset`.
use crate::checker::spec_check;
use crate::config::{Config, CopConfig};
use crate::diagnostic::{diagnostic_models, Diagnostic, DiagnosticModel};
use crate::fix::fixes_within;
use crate::rule::spec_full_name;
use crate::syntax::SyntaxNode;
use crate::text::str_eq;
use vstd::prelude::*;

verus! {

/// Whether `path` matches the glob `pattern`, as a `globset::GlobSet` built from that one
/// pattern answers where neither holds a backslash; `false` for a pattern that is no glob.
pub uninterp spec fn glob_matches(pattern: Seq<char>, path: Seq<char>) -> bool;

/// A text without a backslash, on which globset answers alike on every platform: elsewhere
/// than on Unix it reads a backslash as a path separator, in paths and in patterns.
pub open spec fn plain(s: Seq<char>) -> bool {
    !s.contains('\\')
}

/// Every pattern of `patterns` is plain.
pub open spec fn plain_patterns(patterns: Seq<String>) -> bool {
    forall|i: int| 0 <= i < patterns.len() ==> plain(#[trigger] patterns[i]@)
}

/// Whether `path` matches the glob `pattern`: `globset::Glob::new` parses the pattern, a
/// `globset::GlobSetBuilder` builds a set of it, and `GlobSet::is_match` tests the path. A
/// pattern that does not parse, or a set that does not build, matches nothing. Where the
/// pattern and the path are plain, the answer is named by `glob_matches`; where either holds a
/// backslash, it depends on the platform and nothing is stated of it.
#[verifier::external_body]
fn glob_match(pattern: &str, path: &str) -> (r: bool)
    ensures
        plain(pattern@) && plain(path@) ==> r == glob_matches(pattern@, path@),
{
    let mut builder = globset::GlobSetBuilder::new();
    match globset::Glob::new(pattern) {
        Ok(glob) => {
            builder.add(glob);
        },
        Err(_) => return false,
    }
    match builder.build() {
        Ok(set) => set.is_match(path),
        Err(_) => false,
    }
}

/// Some pattern of `patterns` matches `path`.
pub open spec fn any_matches(patterns: Seq<String>, path: Seq<char>) -> bool {
    exists|i: int| 0 <= i < patterns.len() && #[trigger] glob_matches(patterns[i]@, path)
}

/// A cop with these patterns checks `path`: its `Include` patterns, where it has any, match
/// the path, and none of its `Exclude` patterns does.
pub open spec fn allows(included: Seq<String>, exclude: Seq<String>, path: Seq<char>) -> bool {
    (included.len() == 0 || any_matches(included, path)) && !any_matches(exclude, path)
}

/// The cop named `name` checks `path`: every setting of it in `cops` allows the path.
pub open spec fn cop_runs(cops: Seq<(String, CopConfig)>, name: Seq<char>, path: Seq<char>) -> bool {
    forall|i: int|
        0 <= i < cops.len() && (#[trigger] cops[i]).0@ == name ==> allows(
            cops[i].1.included@,
            cops[i].1.exclude@,
            path,
        )
}

/// Every `Include` and `Exclude` pattern of `cops` is plain.
pub open spec fn plain_settings(cops: Seq<(String, CopConfig)>) -> bool {
    forall|i: int|
        0 <= i < cops.len() ==> plain_patterns((#[trigger] cops[i]).1.included@) && plain_patterns(
            cops[i].1.exclude@,
        )
}

/// The diagnostics of `ds` that `keep` keeps, in order.
pub open spec fn selected(ds: Seq<DiagnosticModel>, keep: Seq<bool>) -> Seq<DiagnosticModel>
    decreases ds.len(),
{
    if ds.len() == 0 || keep.len() != ds.len() {
        Seq::empty()
    } else if keep.last() {
        selected(ds.drop_last(), keep.drop_last()).push(ds.last())
    } else {
        selected(ds.drop_last(), keep.drop_last())
    }
}

/// The diagnostics of `ds` whose cop checks the file at `path`; all of them where there is no
/// path.
pub open spec fn for_path(ds: Seq<DiagnosticModel>, cops: Seq<(String, CopConfig)>, path: Option<Seq<char>>) -> Seq<
    DiagnosticModel,
>
    decreases ds.len(),
{
    if ds.len() == 0 {
        Seq::empty()
    } else {
        let rest = for_path(ds.drop_last(), cops, path);
        match path {
            Some(p) => if cop_runs(cops, spec_full_name(ds.last().rule_id), p) {
                rest.push(ds.last())
            } else {
                rest
            },
            None => rest.push(ds.last()),
        }
    }
}

/// Whether some pattern of `patterns` matches `path`.
fn any_match(patterns: &Vec<String>, path: &str) -> (r: bool)
    ensures
        plain_patterns(patterns@) && plain(path@) ==> r == any_matches(patterns@, path@),
{
    let mut i: usize = 0;
    while i < patterns.len()
        invariant
            0 <= i <= patterns@.len(),
            plain_patterns(patterns@) && plain(path@) ==> forall|j: int|
                0 <= j < i ==> !glob_matches(#[trigger] patterns@[j]@, path@),
        decreases patterns@.len() - i,
    {
        if glob_match(patterns[i].as_str(), path) {
            proof {
                if plain_patterns(patterns@) && plain(path@) {
                    assert(plain(patterns@[i as int]@));
                }
            }
            return true;
        }
        proof {
            if plain_patterns(patterns@) && plain(path@) {
                assert(plain(patterns@[i as int]@));
            }
        }
        i = i + 1;
    }
    false
}

/// Whether a cop with these `Include` and `Exclude` patterns checks the file at `path`.
pub fn should_run_cop(included: &Vec<String>, exclude: &Vec<String>, path: &str) -> (r: bool)
    ensures
        plain_patterns(included@) && plain_patterns(exclude@) && plain(path@) ==> r == allows(
            included@,
            exclude@,
            path@,
        ),
{
    (included.len() == 0 || any_match(included, path)) && !any_match(exclude, path)
}

/// Whether the cop named `name` checks the file at `path`, by its settings in `cops`.
pub fn cop_runs_on(cops: &Vec<(String, CopConfig)>, name: &str, path: &str) -> (r: bool)
    ensures
        plain_settings(cops@) && plain(path@) ==> r == cop_runs(cops@, name@, path@),
{
    let mut i: usize = 0;
    while i < cops.len()
        invariant
            0 <= i <= cops@.len(),
            plain_settings(cops@) && plain(path@) ==> forall|j: int|
                0 <= j < i && (#[trigger] cops@[j]).0@ == name@ ==> allows(
                    cops@[j].1.included@,
                    cops@[j].1.exclude@,
                    path@,
                ),
        decreases cops@.len() - i,
    {
        let (n, c) = &cops[i];
        proof {
            if plain_settings(cops@) {
                assert(plain_patterns(cops@[i as int].1.included@));
            }
        }
        if str_eq(n.as_str(), name) && !should_run_cop(&c.included, &c.exclude, path) {
            return false;
        }
        i = i + 1;
    }
    true
}

/// Check a Ruby source, whose syntax tree is `tree`, under `config`, for the file at
/// `file_path`: a cop reports nothing on a file that its `Include` and `Exclude` patterns in
/// `cops`, the cop settings the configuration was read from, leave out. The diagnostics are
/// always those of `check_with_config` that the patterns keep, in order; which they keep is
/// stated where the path and the patterns hold no backslash, or where there is no path.
pub fn check_with_config_and_path(
    source: &[u8],
    config: &Config,
    tree: &Vec<SyntaxNode>,
    file_path: Option<&str>,
    cops: &Vec<(String, CopConfig)>,
) -> (v: Vec<Diagnostic>)
    requires
        source@.len() <= isize::MAX,
        tree@.len() <= isize::MAX,
    ensures
        exists|keep: Seq<bool>|
            keep.len() == spec_check(source@, *config, tree@).len() && diagnostic_models(v@)
                == #[trigger] selected(spec_check(source@, *config, tree@), keep),
        (match file_path {
            Some(p) => plain_settings(cops@) && plain(p@),
            None => true,
        }) ==> diagnostic_models(v@) == for_path(
            spec_check(source@, *config, tree@),
            cops@,
            match file_path {
                Some(p) => Some(p@),
                None => None,
            },
        ),
        fixes_within(v@, source@.len() as int),
{
    let all = crate::check_with_config(source, config, tree);
    let ghost models = diagnostic_models(all@);
    let ghost path = match file_path {
        Some(p) => Some(p@),
        None => None::<Seq<char>>,
    };
    let ghost exact = match file_path {
        Some(p) => plain_settings(cops@) && plain(p@),
        None => true,
    };
    let ghost mut keeps: Seq<bool> = Seq::empty();
    let mut out: Vec<Diagnostic> = Vec::new();
    let mut i: usize = 0;
    assert(models.subrange(0, 0) =~= Seq::<DiagnosticModel>::empty());
    while i < all.len()
        invariant
            0 <= i <= all@.len(),
            models == diagnostic_models(all@),
            keeps.len() == i,
            diagnostic_models(out@) == selected(models.subrange(0, i as int), keeps),
            exact ==> diagnostic_models(out@) == for_path(models.subrange(0, i as int), cops@, path),
            fixes_within(all@, source@.len() as int),
            fixes_within(out@, source@.len() as int),
            path == match file_path {
                Some(p) => Some(p@),
                None => None::<Seq<char>>,
            },
            exact == match file_path {
                Some(p) => plain_settings(cops@) && plain(p@),
                None => true,
            },
        decreases all@.len() - i,
    {
        let d = &all[i];
        let keep = match file_path {
            Some(p) => cop_runs_on(cops, d.rule_id.full_name(), p),
            None => true,
        };
        let ghost prefix = models.subrange(0, i + 1);
        let ghost old_keeps = keeps;
        proof {
            assert(prefix.drop_last() =~= models.subrange(0, i as int));
            assert(prefix.last() == all@[i as int]@);
            keeps = old_keeps.push(keep);
            assert(keeps.drop_last() =~= old_keeps);
        }
        if keep {
            let c = d.duplicate();
            let ghost before = out@;
            out.push(c);
            proof {
                assert(c@ == all@[i as int]@);
                assert(diagnostic_models(out@) =~= diagnostic_models(before).push(c@));
                assert forall|a: int, k: int|
                    0 <= a < out@.len() && out@[a].fix is Some && 0 <= k < out@[a].fix->0.edits@.len()
                    implies (#[trigger] out@[a].fix->0.edits@[k]).start <= source@.len() by {
                    if a < before.len() {
                        assert(out@[a] == before[a]);
                    } else {
                        assert(out@[a].fix->0.edits@[k] == all@[i as int].fix->0.edits@[k]);
                    }
                }
            }
        }
        i = i + 1;
    }
    assert(models.subrange(0, all@.len() as int) =~= models);
    assert(keeps.len() == models.len());
    out
}

} // verus!
