//! Where the web GUI's built files are looked for.

use vstd::prelude::*;

verus! {

/// The directories where the GUI's build (its `index.html`) is looked for,
/// in order.
pub open spec fn static_dir_candidates() -> Seq<Seq<char>> {
    seq!["gui/dist"@, "../gui/dist"@, "dist"@, "../Resources/dist"@]
}

/// The first candidate, from the `i`-th on, that holds an `index.html`;
/// `has_index[k]` says whether the `k`-th candidate does (a missing entry
/// counts as no).
pub open spec fn static_dir_from(has_index: Seq<bool>, i: int) -> Option<Seq<char>>
    decreases 4 - i,
{
    if i < 0 || i >= 4 || i >= has_index.len() {
        None
    } else if has_index[i] {
        Some(static_dir_candidates()[i])
    } else {
        static_dir_from(has_index, i + 1)
    }
}

/// The candidate directories, in order.
pub fn static_dir_candidate_list() -> (r: Vec<String>)
    ensures
        r@.len() == 4,
        forall|k: int| 0 <= k < 4 ==> (#[trigger] r@[k])@ == static_dir_candidates()[k],
{
    let mut r: Vec<String> = Vec::new();
    r.push(String::from_str("gui/dist"));
    r.push(String::from_str("../gui/dist"));
    r.push(String::from_str("dist"));
    r.push(String::from_str("../Resources/dist"));
    r
}

/// The directory the GUI is served from: the first candidate that holds an
/// `index.html`, if any.
pub fn find_static_dir(has_index: &Vec<bool>) -> (r: Option<String>)
    ensures
        match (r, static_dir_from(has_index@, 0)) {
            (Some(d), Some(e)) => d@ == e,
            (None, None) => true,
            _ => false,
        },
{
    let candidates = static_dir_candidate_list();
    let mut i: usize = 0;
    while i < 4 && i < has_index.len()
        invariant
            i <= 4,
            candidates@.len() == 4,
            forall|k: int| 0 <= k < 4 ==> (#[trigger] candidates@[k])@ == static_dir_candidates()[k],
            static_dir_from(has_index@, 0) == static_dir_from(has_index@, i as int),
        decreases 4 - i,
    {
        if has_index[i] {
            return Some(candidates[i].clone());
        }
        i = i + 1;
    }
    None
}

} // verus!
