use prover::degrees::{degree_in, degrees_union, get_degrees};
use prover::types::ProverType;

fn needed(t: ProverType) -> Vec<u32> {
    match t {
        ProverType::Chunk => vec![18, 20],
        ProverType::Batch => vec![20, 22],
    }
}

#[test]
fn union_of_two_variants_deduplicates() {
    let mut out = get_degrees(&vec![ProverType::Chunk, ProverType::Batch], needed);
    out.sort();
    assert_eq!(out, vec![18, 20, 22]);
}

#[test]
fn empty_variant_set_yields_empty_union() {
    let out = get_degrees(&Vec::new(), needed);
    assert!(out.is_empty());
}

#[test]
fn duplicate_variants_collapse() {
    let mut once = get_degrees(&vec![ProverType::Chunk], needed);
    let mut twice = get_degrees(&vec![ProverType::Chunk, ProverType::Chunk], needed);
    once.sort();
    twice.sort();
    assert_eq!(once, vec![18, 20]);
    assert_eq!(twice, once);
}

#[test]
fn union_is_complete_and_duplicate_free() {
    let lists = vec![vec![1, 2, 3], vec![], vec![3, 3, 4], vec![2]];
    let mut out = degrees_union(&lists);
    out.sort();
    assert_eq!(out, vec![1, 2, 3, 4]);
}

#[test]
fn membership_check_finds_present_and_absent() {
    let degrees = vec![18, 20, 22];
    assert!(degree_in(&degrees, 20));
    assert!(!degree_in(&degrees, 19));
    assert!(!degree_in(&Vec::new(), 0));
}
