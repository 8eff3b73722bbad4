//! Expanding a file-set specification to concrete paths.
//!
//! The specification is split into inclusion and exclusion glob patterns; the
//! inclusion patterns are expanded against the working directory and every
//! resulting path matched by an exclusion pattern is dropped.  Duplicates are
//! kept, and path order follows pattern order, then expansion order.

use vstd::prelude::*;
use vstd::string::*;

use crate::config::Files;
use crate::errors::WorkbenchError;

verus! {

/// Whether a flat-list entry marks an exclusion: a leading `!`.
pub open spec fn is_excl_entry(s: Seq<char>) -> bool {
    s.len() > 0 && s[0] == '!'
}

/// The inclusion patterns among a flat pattern list.
pub open spec fn spec_selections(ps: Seq<String>) -> Seq<Seq<char>>
    decreases ps.len(),
{
    if ps.len() == 0 {
        Seq::empty()
    } else {
        let rest = spec_selections(ps.skip(1));
        if is_excl_entry(ps[0]@) {
            rest
        } else {
            seq![ps[0]@] + rest
        }
    }
}

/// The exclusion patterns among a flat pattern list, their `!` stripped.
pub open spec fn spec_exclusions(ps: Seq<String>) -> Seq<Seq<char>>
    decreases ps.len(),
{
    if ps.len() == 0 {
        Seq::empty()
    } else {
        let rest = spec_exclusions(ps.skip(1));
        if is_excl_entry(ps[0]@) {
            seq![ps[0]@.skip(1)] + rest
        } else {
            rest
        }
    }
}

/// The inclusion patterns of a file-set specification.
pub open spec fn spec_include_patterns(files: Files) -> Seq<Seq<char>> {
    match files {
        Files::List(ps) => spec_selections(ps@),
        Files::Object { included, .. } => included.deep_view(),
    }
}

/// The exclusion patterns of a file-set specification.
pub open spec fn spec_exclude_patterns(files: Files) -> Seq<Seq<char>> {
    match files {
        Files::List(ps) => spec_exclusions(ps@),
        Files::Object { excluded, .. } => excluded.deep_view(),
    }
}

proof fn lemma_selections_push(ps: Seq<String>, x: String)
    ensures
        spec_selections(ps.push(x)) == spec_selections(ps) + (if is_excl_entry(x@) {
            Seq::<Seq<char>>::empty()
        } else {
            seq![x@]
        }),
    decreases ps.len(),
{
    let tail: Seq<Seq<char>> = if is_excl_entry(x@) {
        Seq::empty()
    } else {
        seq![x@]
    };
    if ps.len() == 0 {
        assert(ps.push(x).skip(1) =~= ps);
        assert(spec_selections(ps.push(x)) =~= spec_selections(ps) + tail);
    } else {
        lemma_selections_push(ps.skip(1), x);
        assert(ps.push(x).skip(1) =~= ps.skip(1).push(x));
        assert(ps.push(x)[0] == ps[0]);
        if is_excl_entry(ps[0]@) {
        } else {
            assert(seq![ps[0]@] + (spec_selections(ps.skip(1)) + tail) =~= (seq![ps[0]@]
                + spec_selections(ps.skip(1))) + tail);
        }
    }
}

proof fn lemma_exclusions_push(ps: Seq<String>, x: String)
    ensures
        spec_exclusions(ps.push(x)) == spec_exclusions(ps) + (if is_excl_entry(x@) {
            seq![x@.skip(1)]
        } else {
            Seq::<Seq<char>>::empty()
        }),
    decreases ps.len(),
{
    let tail: Seq<Seq<char>> = if is_excl_entry(x@) {
        seq![x@.skip(1)]
    } else {
        Seq::empty()
    };
    if ps.len() == 0 {
        assert(ps.push(x).skip(1) =~= ps);
        assert(spec_exclusions(ps.push(x)) =~= spec_exclusions(ps) + tail);
    } else {
        lemma_exclusions_push(ps.skip(1), x);
        assert(ps.push(x).skip(1) =~= ps.skip(1).push(x));
        assert(ps.push(x)[0] == ps[0]);
        if is_excl_entry(ps[0]@) {
            assert(seq![ps[0]@.skip(1)] + (spec_exclusions(ps.skip(1)) + tail) =~= (seq![
                ps[0]@.skip(1),
            ] + spec_exclusions(ps.skip(1))) + tail);
        }
    }
}

fn entry_is_exclusion(s: &String) -> (r: bool)
    ensures
        r == is_excl_entry(s@),
{
    let n = s.as_str().unicode_len();
    n > 0 && s.as_str().get_char(0) == '!'
}

pub(crate) fn clone_strings(v: &Vec<String>) -> (r: Vec<String>)
    ensures
        r@ == v@,
{
    let mut out: Vec<String> = Vec::new();
    let mut i: usize = 0;
    while i < v.len()
        invariant
            0 <= i <= v@.len(),
            out@ == v@.take(i as int),
        decreases v@.len() - i,
    {
        out.push(v[i].clone());
        proof {
            assert(out@ =~= v@.take(i + 1));
        }
        i += 1;
    }
    proof {
        assert(v@.take(v@.len() as int) =~= v@);
    }
    out
}

/// The patterns a file set expands: its inclusion side.
pub fn resolve_include_patterns(files: &Files) -> (r: Vec<String>)
    ensures
        r.deep_view() == spec_include_patterns(*files),
{
    match files {
        Files::List(ps) => {
            let mut out: Vec<String> = Vec::new();
            let mut i: usize = 0;
            while i < ps.len()
                invariant
                    0 <= i <= ps@.len(),
                    out.deep_view() == spec_selections(ps@.take(i as int)),
                decreases ps@.len() - i,
            {
                proof {
                    lemma_selections_push(ps@.take(i as int), ps@[i as int]);
                    assert(ps@.take(i + 1) =~= ps@.take(i as int).push(ps@[i as int]));
                }
                if !entry_is_exclusion(&ps[i]) {
                    out.push(ps[i].clone());
                }
                proof {
                    assert(out.deep_view() =~= spec_selections(ps@.take(i + 1)));
                }
                i += 1;
            }
            proof {
                assert(ps@.take(ps@.len() as int) =~= ps@);
            }
            out
        },
        Files::Object { included, .. } => {
            let r = clone_strings(included);
            proof {
                assert(r.deep_view() =~= included.deep_view());
            }
            r
        },
    }
}

/// The patterns a file set drops: its exclusion side, `!` markers stripped.
pub fn resolve_exclude_patterns(files: &Files) -> (r: Vec<String>)
    ensures
        r.deep_view() == spec_exclude_patterns(*files),
{
    match files {
        Files::List(ps) => {
            let mut out: Vec<String> = Vec::new();
            let mut i: usize = 0;
            while i < ps.len()
                invariant
                    0 <= i <= ps@.len(),
                    out.deep_view() == spec_exclusions(ps@.take(i as int)),
                decreases ps@.len() - i,
            {
                proof {
                    lemma_exclusions_push(ps@.take(i as int), ps@[i as int]);
                    assert(ps@.take(i + 1) =~= ps@.take(i as int).push(ps@[i as int]));
                }
                if entry_is_exclusion(&ps[i]) {
                    let n = ps[i].as_str().unicode_len();
                    let stripped = ps[i].as_str().substring_char(1, n).to_owned();
                    proof {
                        assert(stripped@ =~= ps@[i as int]@.skip(1));
                    }
                    out.push(stripped);
                }
                proof {
                    assert(out.deep_view() =~= spec_exclusions(ps@.take(i + 1)));
                }
                i += 1;
            }
            proof {
                assert(ps@.take(ps@.len() as int) =~= ps@);
            }
            out
        },
        Files::Object { excluded, .. } => {
            let r = clone_strings(excluded);
            proof {
                assert(r.deep_view() =~= excluded.deep_view());
            }
            r
        },
    }
}

/// What `glob::Pattern::new` decides: whether a pattern text compiles, a
/// function of the text alone.
pub uninterp spec fn pattern_ok(p: Seq<char>) -> bool;

/// What `glob::Pattern::matches_path` decides for a compiling pattern: a
/// function of the pattern and path texts alone.
pub uninterp spec fn pattern_matches(p: Seq<char>, path: Seq<char>) -> bool;

/// Relies on `glob::Pattern::new`: whether a pattern compiles depends on the
/// pattern text alone.
#[verifier::external_body]
fn pattern_compiles(pattern: &String) -> (r: bool)
    ensures
        r == pattern_ok(pattern@),
{
    glob::Pattern::new(pattern.as_str()).is_ok()
}

/// Relies on `glob::Pattern::new` and `glob::Pattern::matches_path`: for a
/// pattern that compiles, whether it matches a path depends on the two texts
/// alone.
#[verifier::external_body]
fn pattern_match(pattern: &String, path: &String) -> (r: bool)
    requires
        pattern_ok(pattern@),
    ensures
        r == pattern_matches(pattern@, path@),
{
    match glob::Pattern::new(pattern.as_str()) {
        Ok(p) => p.matches_path(std::path::Path::new(path.as_str())),
        Err(_) => false,
    }
}

/// Relies on `glob::glob`: expands a pattern against the working directory.
/// `glob` checks the whole pattern before reading anything, so a pattern
/// that does not compile always fails as a pattern failure; what else comes
/// back depends on the filesystem, so only the error classes are promised.
#[verifier::external_body]
fn glob_expand(pattern: &String) -> (r: Result<Vec<String>, WorkbenchError>)
    ensures
        (match r {
            Err(WorkbenchError::GlobPattern(_)) => true,
            _ => pattern_ok(pattern@),
        }),
        r matches Err(e) ==> e matches WorkbenchError::GlobPattern(_) || e
            matches WorkbenchError::GlobIo(_),
{
    match glob::glob(pattern.as_str()) {
        Ok(paths) => {
            let mut out = Vec::new();
            for item in paths {
                match item {
                    Ok(p) => out.push(p.to_string_lossy().into_owned()),
                    Err(e) => return Err(WorkbenchError::GlobIo(e.to_string())),
                }
            }
            Ok(out)
        },
        Err(e) => Err(WorkbenchError::GlobPattern(e.to_string())),
    }
}

/// Whether some exclusion pattern matches the path.
pub open spec fn spec_excluded(excludes: Seq<Seq<char>>, path: Seq<char>) -> bool {
    exists|k: int| 0 <= k < excludes.len() && pattern_matches(#[trigger] excludes[k], path)
}

fn any_pattern_match(excludes: &Vec<String>, path: &String) -> (r: bool)
    requires
        forall|k: int| 0 <= k < excludes@.len() ==> pattern_ok(#[trigger] excludes@[k]@),
    ensures
        r == spec_excluded(excludes.deep_view(), path@),
{
    let mut k: usize = 0;
    while k < excludes.len()
        invariant
            0 <= k <= excludes@.len(),
            forall|j: int| 0 <= j < excludes@.len() ==> pattern_ok(#[trigger] excludes@[j]@),
            forall|j: int|
                0 <= j < k ==> !pattern_matches(#[trigger] excludes.deep_view()[j], path@),
        decreases excludes@.len() - k,
    {
        if pattern_match(&excludes[k], path) {
            assert(excludes.deep_view()[k as int] == excludes@[k as int]@);
            return true;
        }
        assert(excludes.deep_view()[k as int] == excludes@[k as int]@);
        k += 1;
    }
    false
}

/// The paths left after dropping every path an exclusion pattern matches.
pub open spec fn spec_filter_excluded(paths: Seq<String>, excludes: Seq<Seq<char>>) -> Seq<String>
    decreases paths.len(),
{
    if paths.len() == 0 {
        Seq::empty()
    } else {
        let rest = spec_filter_excluded(paths.skip(1), excludes);
        if spec_excluded(excludes, paths[0]@) {
            rest
        } else {
            seq![paths[0]] + rest
        }
    }
}

proof fn lemma_filter_excluded_push(paths: Seq<String>, excludes: Seq<Seq<char>>, x: String)
    ensures
        spec_filter_excluded(paths.push(x), excludes) == spec_filter_excluded(paths, excludes) + (
        if spec_excluded(excludes, x@) {
            Seq::<String>::empty()
        } else {
            seq![x]
        }),
    decreases paths.len(),
{
    let tail: Seq<String> = if spec_excluded(excludes, x@) {
        Seq::empty()
    } else {
        seq![x]
    };
    if paths.len() == 0 {
        assert(paths.push(x).skip(1) =~= paths);
        assert(spec_filter_excluded(paths.push(x), excludes) =~= spec_filter_excluded(
            paths,
            excludes,
        ) + tail);
    } else {
        lemma_filter_excluded_push(paths.skip(1), excludes, x);
        assert(paths.push(x).skip(1) =~= paths.skip(1).push(x));
        assert(paths.push(x)[0] == paths[0]);
        if !spec_excluded(excludes, paths[0]@) {
            assert(seq![paths[0]] + (spec_filter_excluded(paths.skip(1), excludes) + tail) =~= (
            seq![paths[0]] + spec_filter_excluded(paths.skip(1), excludes)) + tail);
        }
    }
}

/// No path that survives the filter is matched by an exclusion pattern.
proof fn lemma_filter_excluded_members(paths: Seq<String>, excludes: Seq<Seq<char>>)
    ensures
        forall|i: int|
            0 <= i < spec_filter_excluded(paths, excludes).len() ==> !spec_excluded(
                excludes,
                #[trigger] spec_filter_excluded(paths, excludes)[i]@,
            ),
    decreases paths.len(),
{
    if paths.len() > 0 {
        lemma_filter_excluded_members(paths.skip(1), excludes);
        let rest = spec_filter_excluded(paths.skip(1), excludes);
        if !spec_excluded(excludes, paths[0]@) {
            assert forall|i: int|
                0 <= i < spec_filter_excluded(paths, excludes).len() implies !spec_excluded(
                excludes,
                spec_filter_excluded(paths, excludes)[i]@,
            ) by {
                if i > 0 {
                    assert(spec_filter_excluded(paths, excludes)[i] == rest[i - 1]);
                }
            }
        }
    }
}

fn filter_excluded(paths: Vec<String>, excludes: &Vec<String>) -> (r: Vec<String>)
    requires
        forall|k: int| 0 <= k < excludes@.len() ==> pattern_ok(#[trigger] excludes@[k]@),
    ensures
        r@ == spec_filter_excluded(paths@, excludes.deep_view()),
{
    let mut out: Vec<String> = Vec::new();
    let mut i: usize = 0;
    while i < paths.len()
        invariant
            0 <= i <= paths@.len(),
            forall|k: int| 0 <= k < excludes@.len() ==> pattern_ok(#[trigger] excludes@[k]@),
            out@ == spec_filter_excluded(paths@.take(i as int), excludes.deep_view()),
        decreases paths@.len() - i,
    {
        proof {
            lemma_filter_excluded_push(
                paths@.take(i as int),
                excludes.deep_view(),
                paths@[i as int],
            );
            assert(paths@.take(i + 1) =~= paths@.take(i as int).push(paths@[i as int]));
        }
        if !any_pattern_match(excludes, &paths[i]) {
            out.push(paths[i].clone());
        }
        proof {
            assert(out@ =~= spec_filter_excluded(paths@.take(i + 1), excludes.deep_view()));
        }
        i += 1;
    }
    proof {
        assert(paths@.take(paths@.len() as int) =~= paths@);
    }
    out
}

/// Per-expansion filtering, concatenated in expansion order: what the
/// resolver returns, as a function of whatever each inclusion pattern
/// expanded to.
pub open spec fn spec_filtered_concat(
    expansions: Seq<Seq<String>>,
    excludes: Seq<Seq<char>>,
) -> Seq<String>
    decreases expansions.len(),
{
    if expansions.len() == 0 {
        Seq::empty()
    } else {
        spec_filter_excluded(expansions[0], excludes) + spec_filtered_concat(
            expansions.skip(1),
            excludes,
        )
    }
}

proof fn lemma_filtered_concat_push(
    expansions: Seq<Seq<String>>,
    excludes: Seq<Seq<char>>,
    x: Seq<String>,
)
    ensures
        spec_filtered_concat(expansions.push(x), excludes) == spec_filtered_concat(
            expansions,
            excludes,
        ) + spec_filter_excluded(x, excludes),
    decreases expansions.len(),
{
    if expansions.len() == 0 {
        assert(expansions.push(x).skip(1) =~= expansions);
        assert(spec_filtered_concat(expansions.push(x), excludes) =~= spec_filtered_concat(
            expansions,
            excludes,
        ) + spec_filter_excluded(x, excludes));
    } else {
        lemma_filtered_concat_push(expansions.skip(1), excludes, x);
        assert(expansions.push(x).skip(1) =~= expansions.skip(1).push(x));
        assert(expansions.push(x)[0] == expansions[0]);
        assert(spec_filter_excluded(expansions[0], excludes) + (spec_filtered_concat(
            expansions.skip(1),
            excludes,
        ) + spec_filter_excluded(x, excludes)) =~= (spec_filter_excluded(expansions[0], excludes)
            + spec_filtered_concat(expansions.skip(1), excludes)) + spec_filter_excluded(
            x,
            excludes,
        ));
    }
}

/// Expand a file-set specification to the list of matching paths: each
/// inclusion pattern is expanded in order, and every path matched by an
/// exclusion pattern is dropped.  Fails when an exclusion pattern does not
/// compile, or when expansion reports a pattern or I/O failure.
pub fn resolve_paths(files: &Files) -> (r: Result<Vec<String>, WorkbenchError>)
    ensures
        r is Ok ==> forall|k: int|
            0 <= k < spec_exclude_patterns(*files).len() ==> pattern_ok(
                #[trigger] spec_exclude_patterns(*files)[k],
            ),
        r is Ok ==> forall|k: int|
            0 <= k < spec_include_patterns(*files).len() ==> pattern_ok(
                #[trigger] spec_include_patterns(*files)[k],
            ),
        r matches Ok(v) ==> forall|i: int|
            0 <= i < v@.len() ==> !spec_excluded(spec_exclude_patterns(*files), #[trigger] v@[i]@),
        r matches Ok(v) ==> exists|expansions: Seq<Seq<String>>|
            expansions.len() == spec_include_patterns(*files).len() && v@
                == spec_filtered_concat(expansions, spec_exclude_patterns(*files)),
        spec_include_patterns(*files).len() == 0 && (forall|k: int|
            0 <= k < spec_exclude_patterns(*files).len() ==> pattern_ok(
                #[trigger] spec_exclude_patterns(*files)[k],
            )) ==> (r matches Ok(v) && v@.len() == 0),
        (exists|k: int|
            0 <= k < spec_exclude_patterns(*files).len() && !pattern_ok(
                #[trigger] spec_exclude_patterns(*files)[k],
            )) ==> (r matches Err(e) && e matches WorkbenchError::GlobPattern(_)),
        r matches Err(e) ==> e matches WorkbenchError::GlobPattern(_) || e
            matches WorkbenchError::GlobIo(_),
{
    let excludes = resolve_exclude_patterns(files);
    let mut k: usize = 0;
    while k < excludes.len()
        invariant
            0 <= k <= excludes@.len(),
            excludes.deep_view() == spec_exclude_patterns(*files),
            forall|j: int| 0 <= j < k ==> pattern_ok(#[trigger] excludes@[j]@),
        decreases excludes@.len() - k,
    {
        if !pattern_compiles(&excludes[k]) {
            proof {
                assert(spec_exclude_patterns(*files)[k as int] == excludes@[k as int]@);
            }
            return Err(WorkbenchError::GlobPattern(excludes[k].clone()));
        }
        k += 1;
    }
    proof {
        assert forall|j: int|
            0 <= j < spec_exclude_patterns(*files).len() implies pattern_ok(
            #[trigger] spec_exclude_patterns(*files)[j],
        ) by {
            assert(spec_exclude_patterns(*files)[j] == excludes@[j]@);
        }
    }

    let selections = resolve_include_patterns(files);
    let mut result: Vec<String> = Vec::new();
    let ghost mut expansions: Seq<Seq<String>> = Seq::empty();
    let mut i: usize = 0;
    while i < selections.len()
        invariant
            0 <= i <= selections@.len(),
            forall|k2: int| 0 <= k2 < excludes@.len() ==> pattern_ok(#[trigger] excludes@[k2]@),
            excludes.deep_view() == spec_exclude_patterns(*files),
            selections.deep_view() == spec_include_patterns(*files),
            expansions.len() == i,
            result@ == spec_filtered_concat(expansions, spec_exclude_patterns(*files)),
            forall|j: int| 0 <= j < i ==> pattern_ok(#[trigger] selections@[j]@),
            forall|j: int|
                0 <= j < result@.len() ==> !spec_excluded(
                    spec_exclude_patterns(*files),
                    #[trigger] result@[j]@,
                ),
        decreases selections@.len() - i,
    {
        let expanded = match glob_expand(&selections[i]) {
            Ok(v) => v,
            Err(e) => {
                return Err(e);
            },
        };
        proof {
            assert(spec_include_patterns(*files)[i as int] == selections@[i as int]@);
        }
        let ghost expanded_view = expanded@;
        let mut kept = filter_excluded(expanded, &excludes);
        proof {
            lemma_filter_excluded_members(expanded_view, excludes.deep_view());
            lemma_filtered_concat_push(expansions, excludes.deep_view(), expanded_view);
            expansions = expansions.push(expanded_view);
        }
        let ghost before = result@;
        result.append(&mut kept);
        proof {
            assert forall|j: int|
                0 <= j < result@.len() implies !spec_excluded(
                spec_exclude_patterns(*files),
                #[trigger] result@[j]@,
            ) by {
                if j >= before.len() {
                    assert(result@[j] == spec_filter_excluded(
                        expanded_view,
                        excludes.deep_view(),
                    )[j - before.len()]);
                }
            }
        }
        i += 1;
    }
    proof {
        assert forall|j: int|
            0 <= j < spec_include_patterns(*files).len() implies pattern_ok(
            #[trigger] spec_include_patterns(*files)[j],
        ) by {
            assert(spec_include_patterns(*files)[j] == selections@[j]@);
        }
    }
    Ok(result)
}

} // verus!
