//! Suggestions for mistyped subcommands: the candidate at the smallest
//! Damerau-Levenshtein distance from what was typed.
use vstd::prelude::*;

verus! {

/// The Damerau-Levenshtein distance between two strings. What the number
/// is for given strings is fixed by the external implementation alone.
pub uninterp spec fn dl_distance(a: Seq<char>, b: Seq<char>) -> nat;

/// Relies on strsim::damerau_levenshtein: the Damerau-Levenshtein edit
/// distance, a function of the two strings alone.
#[verifier::external_body]
fn damerau_levenshtein(a: &str, b: &str) -> (r: usize)
    ensures
        r as nat == dl_distance(a@, b@),
{
    strsim::damerau_levenshtein(a, b)
}

/// The index of a closest candidate: the first one whose distance to
/// `input` is minimal.
pub open spec fn is_first_closest(
    input: Seq<char>,
    candidates: Seq<Seq<char>>,
    i: int,
) -> bool {
    &&& 0 <= i < candidates.len()
    &&& forall|j: int|
        0 <= j < candidates.len() ==> dl_distance(input, candidates[i]) <= dl_distance(
            input,
            candidates[j],
        )
    &&& forall|j: int|
        0 <= j < i ==> dl_distance(input, candidates[j]) > dl_distance(input, candidates[i])
}

/// Picks the candidate closest to `input` in edit distance; on a tie, the
/// earliest. `None` only when there are no candidates.
pub fn closest_subcommand(input: &str, candidates: &Vec<String>) -> (r: Option<usize>)
    ensures
        match r {
            Some(i) => is_first_closest(
                input@,
                Seq::new(candidates@.len(), |k: int| candidates@[k]@),
                i as int,
            ),
            None => candidates@.len() == 0,
        },
{
    if candidates.len() == 0 {
        return None;
    }
    let ghost cs = Seq::new(candidates@.len(), |k: int| candidates@[k]@);
    let mut best: usize = 0;
    let mut best_d: usize = damerau_levenshtein(input, candidates[0].as_str());
    let mut i: usize = 1;
    while i < candidates.len()
        invariant
            0 <= best < i <= candidates.len(),
            cs == Seq::new(candidates@.len(), |k: int| candidates@[k]@),
            best_d as nat == dl_distance(input@, cs[best as int]),
            forall|j: int| 0 <= j < i ==> dl_distance(input@, cs[best as int]) <= dl_distance(
                input@,
                cs[j],
            ),
            forall|j: int| 0 <= j < best ==> dl_distance(input@, cs[j]) > dl_distance(
                input@,
                cs[best as int],
            ),
        decreases candidates.len() - i,
    {
        let d = damerau_levenshtein(input, candidates[i].as_str());
        if d < best_d {
            best = i;
            best_d = d;
        }
        i = i + 1;
    }
    Some(best)
}

} // verus!
