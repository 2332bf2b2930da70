use vstd::prelude::*;

verus! {

/// Whether `path` matches the pattern `glob`, as glob_match decides it.
pub uninterp spec fn glob_matches(glob: Seq<char>, path: Seq<char>) -> bool;

/// Relies on glob_match::glob_match: whether `path` matches the pattern
/// `glob`; the answer depends on the two strings alone.
#[verifier::external_body]
fn glob_match_text(glob: &str, path: &str) -> (r: bool)
    ensures
        r == glob_matches(glob@, path@),
{
    glob_match::glob_match(glob, path)
}

/// A path passes a glob filter when the filter is empty (it then matches
/// everything) or when some pattern matched: `matched` holds one answer per
/// pattern.
pub fn passes_glob_filter(matched: &Vec<bool>) -> (r: bool)
    ensures
        r == (matched@.len() == 0 || exists|i: int| 0 <= i < matched@.len() && matched@[i]),
{
    if matched.len() == 0 {
        return true;
    }
    let mut i: usize = 0;
    while i < matched.len()
        invariant
            0 <= i <= matched@.len(),
            forall|j: int| 0 <= j < i ==> !matched@[j],
        decreases matched@.len() - i,
    {
        if matched[i] {
            return true;
        }
        i = i + 1;
    }
    false
}

/// Whether `path` matches one of `globs`; an empty set matches everything.
pub fn matches_any_globs(path: &str, globs: &Vec<String>) -> (r: bool)
    ensures
        r == (globs@.len() == 0 || exists|i: int|
            0 <= i < globs@.len() && glob_matches((#[trigger] globs@[i])@, path@)),
{
    let mut matched: Vec<bool> = Vec::new();
    let mut i: usize = 0;
    while i < globs.len()
        invariant
            0 <= i <= globs@.len(),
            matched@.len() == i,
            forall|j: int| 0 <= j < i ==> matched@[j] == glob_matches(globs@[j]@, path@),
        decreases globs@.len() - i,
    {
        matched.push(glob_match_text(globs[i].as_str(), path));
        i = i + 1;
    }
    let r = passes_glob_filter(&matched);
    assert(r == (globs@.len() == 0 || exists|j: int|
        0 <= j < globs@.len() && glob_matches((#[trigger] globs@[j])@, path@))) by {
        if r && globs@.len() > 0 {
            let j = choose|j: int| 0 <= j < matched@.len() && matched@[j];
            assert(glob_matches(globs@[j]@, path@));
        }
        if !r && globs@.len() > 0 {
            assert forall|j: int| 0 <= j < globs@.len() implies !glob_matches(
                (#[trigger] globs@[j])@,
                path@,
            ) by {
                assert(!matched@[j]);
            }
        }
    }
    r
}

} // verus!
