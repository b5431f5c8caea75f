use vstd::prelude::*;
use crate::types::ProverType;
use crate::Degree;

verus! {

broadcast use vstd::seq_lib::lemma_seq_contains_after_push;

/// Whether a degree already occurs in a list of degrees.
pub fn degree_in(degrees: &Vec<Degree>, d: Degree) -> (b: bool)
    ensures
        b == degrees@.contains(d),
{
    let mut i: usize = 0;
    while i < degrees.len()
        invariant
            0 <= i <= degrees@.len(),
            forall|j: int| 0 <= j < i ==> degrees@[j] != d,
        decreases degrees@.len() - i,
    {
        if degrees[i] == d {
            return true;
        }
        i += 1;
    }
    false
}

/// The deduplicated union of the given degree lists: a degree is in the
/// result exactly when some list contains it, and it occurs exactly once.
/// The order of the result is left unspecified; its consumers read it as a
/// set.
pub fn degrees_union(lists: &Vec<Vec<Degree>>) -> (r: Vec<Degree>)
    ensures
        r@.no_duplicates(),
        forall|d: Degree|
            r@.contains(d) <==> exists|i: int|
                0 <= i < lists@.len() && #[trigger] lists@[i]@.contains(d),
{
    let mut r: Vec<Degree> = Vec::new();
    let mut i: usize = 0;
    while i < lists.len()
        invariant
            0 <= i <= lists@.len(),
            r@.no_duplicates(),
            forall|d: Degree|
                r@.contains(d) <==> exists|ii: int|
                    0 <= ii < i && #[trigger] lists@[ii]@.contains(d),
        decreases lists@.len() - i,
    {
        let list = &lists[i];
        let mut j: usize = 0;
        while j < list.len()
            invariant
                0 <= i < lists@.len(),
                list@ == lists@[i as int]@,
                0 <= j <= list@.len(),
                r@.no_duplicates(),
                forall|d: Degree|
                    r@.contains(d) <==> (exists|ii: int|
                        0 <= ii < i && #[trigger] lists@[ii]@.contains(d)) || list@.subrange(
                        0,
                        j as int,
                    ).contains(d),
            decreases list@.len() - j,
        {
            let x = list[j];
            proof {
                assert(list@.subrange(0, (j + 1) as int) =~= list@.subrange(0, j as int).push(
                    list@[j as int],
                ));
            }
            if !degree_in(&r, x) {
                let ghost old_r = r@;
                r.push(x);
                proof {
                    assert forall|p: int, q: int|
                        0 <= p < r@.len() && 0 <= q < r@.len() && p != q implies r@[p]
                        != r@[q] by {
                        if p < old_r.len() && q < old_r.len() {
                        } else if p == old_r.len() {
                            assert(old_r.contains(r@[q]) == false || r@[q] != x);
                        } else {
                            assert(old_r.contains(r@[p]) == false || r@[p] != x);
                        }
                    }
                    assert(r@.no_duplicates());
                }
            }
            j += 1;
        }
        proof {
            assert(list@.subrange(0, list@.len() as int) =~= list@);
            assert forall|d: Degree| r@.contains(d) implies (exists|ii: int|
                0 <= ii < i + 1 && #[trigger] lists@[ii]@.contains(d)) by {
                if list@.contains(d) {
                    assert(lists@[i as int]@.contains(d));
                }
            }
        }
        i += 1;
    }
    r
}

/// The deduplicated union of the degrees the active prover variants need:
/// asks `f` for each variant's required degrees and returns every degree that
/// occurs in some answer, exactly once. A variant listed twice adds nothing
/// beyond its first occurrence, and no variants need no degrees. The order of
/// the result is left unspecified; its consumer reads it as a set.
pub fn get_degrees<F: Fn(ProverType) -> Vec<Degree>>(
    prover_types: &Vec<ProverType>,
    f: F,
) -> (r: Vec<Degree>)
    requires
        forall|i: int| 0 <= i < prover_types@.len() ==> call_requires(f, (prover_types@[i],)),
    ensures
        r@.no_duplicates(),
        exists|lists: Seq<Vec<Degree>>|
            #![trigger lists.len()]
            lists.len() == prover_types@.len() && (forall|i: int|
                0 <= i < lists.len() ==> call_ensures(f, (prover_types@[i],), #[trigger] lists[i]))
                && (forall|d: Degree|
                r@.contains(d) <==> exists|i: int|
                    0 <= i < lists.len() && #[trigger] lists[i]@.contains(d)),
{
    let mut collected: Vec<Vec<Degree>> = Vec::new();
    let mut i: usize = 0;
    while i < prover_types.len()
        invariant
            forall|k: int| 0 <= k < prover_types@.len() ==> call_requires(f, (prover_types@[k],)),
            0 <= i <= prover_types@.len(),
            collected@.len() == i,
            forall|k: int|
                0 <= k < i ==> call_ensures(f, (prover_types@[k],), #[trigger] collected@[k]),
        decreases prover_types@.len() - i,
    {
        let lv = f(prover_types[i]);
        collected.push(lv);
        i += 1;
    }
    let r = degrees_union(&collected);
    proof {
        assert(collected@.len() == prover_types@.len());
    }
    r
}

} // verus!
