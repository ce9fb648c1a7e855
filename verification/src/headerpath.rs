//! Resolves a header's include path against the include directories.

use vstd::prelude::*;

use crate::strutil::views_of;

verus! {

/// The relative path from `base` to `path` as `pathdiff::diff_paths`
/// computes it; a function of the two path texts alone.
pub uninterp spec fn rel_path_of(path: Seq<char>, base: Seq<char>) -> Option<Seq<char>>;

/// Relies on `pathdiff::diff_paths`: constructs a relative path from `base`
/// to `path` by walking their components, with no look at the file system;
/// the result is a function of the two texts alone (named by `rel_path_of`).
#[verifier::external_body]
fn diff_paths_str(path: &str, base: &str) -> (r: Option<String>)
    ensures
        r.deep_view() == rel_path_of(path@, base@),
{
    pathdiff::diff_paths(path, base).map(|p| p.to_string_lossy().into_owned())
}

pub open spec fn is_sep_char(c: char) -> bool {
    c == '/' || c == '\\'
}

/// The number of separator-delimited segments of `s` after position 0,
/// given whether a separator (or the start) stands just before.
pub open spec fn spec_seg_count(s: Seq<char>, after_sep: bool) -> nat
    decreases s.len(),
{
    if s.len() == 0 {
        0
    } else if is_sep_char(s[0]) {
        spec_seg_count(s.drop_first(), true)
    } else {
        (if after_sep {
            1nat
        } else {
            0nat
        }) + spec_seg_count(s.drop_first(), false)
    }
}

/// The number of components of a path text: its separator-delimited
/// segments, plus one for a leading root separator.
pub open spec fn spec_component_count(s: Seq<char>) -> nat {
    spec_seg_count(s, true) + (if s.len() > 0 && is_sep_char(s[0]) {
        1nat
    } else {
        0nat
    })
}

fn is_sep(c: char) -> (r: bool)
    ensures
        r == is_sep_char(c),
{
    c == '/' || c == '\\'
}

/// Counts the components of a path text.
fn count_components(s: &str) -> (r: usize)
    ensures
        r as nat == spec_component_count(s@),
{
    let n = s.unicode_len();
    let mut count: usize = 0;
    let mut after_sep = true;
    let mut i: usize = 0;
    if n > 0 && is_sep(s.get_char(0)) {
        count = 1;
    }
    proof {
        assert(s@.skip(0) =~= s@);
    }
    while i < n
        invariant
            n == s@.len(),
            i <= n,
            i == 0 ==> count <= 1,
            i == 0 && count == 1 ==> n > 0 && is_sep_char(s@[0]),
            i > 0 ==> count as int <= i as int,
            count as nat + spec_seg_count(s@.skip(i as int), after_sep) == spec_component_count(
                s@,
            ),
        decreases n - i,
    {
        let ghost rem = s@.skip(i as int);
        let c = s.get_char(i);
        proof {
            assert(rem[0] == s@[i as int]);
            assert(rem.drop_first() =~= s@.skip(i + 1));
        }
        if is_sep(c) {
            after_sep = true;
        } else {
            if after_sep {
                count = count + 1;
            }
            after_sep = false;
        }
        i = i + 1;
    }
    proof {
        assert(s@.skip(n as int) =~= Seq::<char>::empty());
    }
    count
}

/// Backslashes turned into forward slashes, so that output paths look the
/// same on every platform.
pub open spec fn spec_forward_slashes(s: Seq<char>) -> Seq<char> {
    s.map_values(|c: char| if c == '\\' { '/' } else { c })
}

fn forward_slashes(s: &str) -> (r: String)
    ensures
        r@ == spec_forward_slashes(s@),
{
    let r = crate::strutil::replace_char(s, '\\', '/');
    proof {
        let f = |c: char| if c == '\\' { '/' } else { c };
        assert forall|j: int| 0 <= j < s@.len() implies s@.map_values(f)[j]
            == spec_forward_slashes(s@)[j] by {}
        assert(s@.map_values(f) =~= spec_forward_slashes(s@));
    }
    r
}

/// The best relative path so far after folding over the directories in
/// order: a new candidate wins only with strictly fewer components, so the
/// earliest shortest match is kept.
pub open spec fn spec_fold_best(
    header: Seq<char>,
    dirs: Seq<Seq<char>>,
    best: Option<Seq<char>>,
) -> Option<Seq<char>>
    decreases dirs.len(),
{
    if dirs.len() == 0 {
        best
    } else {
        let next = match (rel_path_of(header, dirs[0]), best) {
            (Some(c), Some(b)) => if spec_component_count(c) < spec_component_count(b) {
                Some(c)
            } else {
                Some(b)
            },
            (Some(c), None) => Some(c),
            (None, b) => b,
        };
        spec_fold_best(header, dirs.drop_first(), next)
    }
}

/// The include path a header resolves to: the relative path from the best
/// matching directory, else the header's own path; forward slashes either
/// way.
pub open spec fn spec_header_path(header: Seq<char>, dirs: Seq<Seq<char>>) -> Seq<char> {
    match spec_fold_best(header, dirs, None) {
        Some(b) => spec_forward_slashes(b),
        None => spec_forward_slashes(header),
    }
}

/// The relative path from the best matching include directory to the
/// header, when one of them yields any: the earliest with the fewest
/// components wins. `None` leaves the fallback to the caller, who may hold
/// the header's path in a more original spelling.
pub fn best_relative_path(header: &str, include_paths: &Vec<String>) -> (r: Option<String>)
    ensures
        r.deep_view() == spec_fold_best(header@, views_of(include_paths@), None),
{
    let ghost dirs = views_of(include_paths@);
    let mut maybe_best_match: Option<String> = None;
    let mut i: usize = 0;
    proof {
        assert(dirs.skip(0) =~= dirs);
    }
    while i < include_paths.len()
        invariant
            dirs == views_of(include_paths@),
            dirs.len() == include_paths@.len(),
            i <= include_paths@.len(),
            spec_fold_best(header@, dirs, None) == spec_fold_best(
                header@,
                dirs.skip(i as int),
                maybe_best_match.deep_view(),
            ),
        decreases include_paths@.len() - i,
    {
        let ghost rem = dirs.skip(i as int);
        proof {
            assert(rem[0] == dirs[i as int]);
            assert(dirs[i as int] == include_paths@[i as int]@);
            assert(rem.drop_first() =~= dirs.skip(i + 1));
        }
        let relative = diff_paths_str(header, include_paths[i].as_str());
        match relative {
            Some(rel) => {
                match &maybe_best_match {
                    Some(best) => {
                        if count_components(rel.as_str()) < count_components(best.as_str()) {
                            maybe_best_match = Some(rel);
                        }
                    },
                    None => {
                        maybe_best_match = Some(rel);
                    },
                }
            },
            None => {},
        }
        i = i + 1;
    }
    proof {
        assert(dirs.skip(dirs.len() as int) =~= Seq::<Seq<char>>::empty());
    }
    maybe_best_match
}

/// Finds the shortest relative path to a header file from a list of include
/// directories; the header's own path when no directory yields one.
/// Callers canonicalize the paths beforehand where they exist on disk.
pub fn header_path(header: &str, include_paths: &Vec<String>) -> (r: String)
    ensures
        r@ == spec_header_path(header@, views_of(include_paths@)),
{
    match best_relative_path(header, include_paths) {
        Some(best) => forward_slashes(best.as_str()),
        None => forward_slashes(header),
    }
}

} // verus!
