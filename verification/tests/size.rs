use proof_bench::size::{
    Element, ExtPresent, MultiPointProof, Size, VerificationHint, VerkleProof,
};
use std::mem::size_of;

fn hint(depths: usize, extensions: usize, stems: usize) -> VerificationHint {
    VerificationHint::new(
        vec![3u8; depths],
        vec![ExtPresent::Present; extensions],
        vec![[1u8; 31]; stems],
    )
    .unwrap()
}

fn hint_bytes(depths: usize, extensions: usize, stems: usize) -> usize {
    size_of::<Vec<u8>>()
        + depths
        + size_of::<Vec<ExtPresent>>()
        + extensions * size_of::<ExtPresent>()
        + size_of::<Vec<[u8; 31]>>()
        + stems * 31
}

#[test]
fn element_takes_thirty_two_bytes() {
    assert_eq!(Element { bytes: [0u8; 32] }.serialized_size(), 32);
    assert_eq!(Element { bytes: [255u8; 32] }.serialized_size(), 32);
}

#[test]
fn multiproof_takes_the_bytes_of_its_opening_argument() {
    assert_eq!(MultiPointProof { open_proof: Vec::new() }.serialized_size(), 0);
    assert_eq!(MultiPointProof { open_proof: vec![7u8; 544] }.serialized_size(), 544);
}

#[test]
fn hint_takes_its_three_lists_and_their_items() {
    assert_eq!(hint(0, 0, 0).serialized_size(), hint_bytes(0, 0, 0));
    assert_eq!(hint(5, 5, 2).serialized_size(), hint_bytes(5, 5, 2));
    assert_eq!(
        hint(5000, 5000, 17).serialized_size() - hint(0, 0, 0).serialized_size(),
        5000 + 5000 * size_of::<ExtPresent>() + 17 * 31
    );
}

#[test]
fn extension_status_takes_one_byte() {
    assert_eq!(size_of::<ExtPresent>(), 1);
    assert_eq!(hint(0, 9, 0).serialized_size() - hint(0, 0, 0).serialized_size(), 9);
}

#[test]
fn proof_takes_its_parts_and_the_count_prefix() {
    let commitments = vec![Element { bytes: [9u8; 32] }; 11];
    let multiproof = MultiPointProof { open_proof: vec![0u8; 544] };
    let elements: usize = commitments.iter().map(|c| c.serialized_size()).sum();
    let expected = hint(5, 5, 2).serialized_size() + 4 + elements + multiproof.serialized_size();
    let proof = VerkleProof::new(hint(5, 5, 2), commitments, multiproof).unwrap();
    assert_eq!(proof.serialized_size(), expected);
    assert_eq!(proof.serialized_size(), hint_bytes(5, 5, 2) + 4 + 11 * 32 + 544);
}

#[test]
fn proof_without_commitments_still_has_the_count_prefix() {
    let proof =
        VerkleProof::new(hint(0, 0, 0), Vec::new(), MultiPointProof { open_proof: Vec::new() })
            .unwrap();
    assert_eq!(proof.serialized_size(), hint_bytes(0, 0, 0) + 4);
}

#[test]
fn one_more_commitment_adds_thirty_two_bytes() {
    let small = VerkleProof::new(
        hint(1, 1, 0),
        vec![Element { bytes: [0u8; 32] }; 3],
        MultiPointProof { open_proof: vec![1u8; 10] },
    )
    .unwrap();
    let large = VerkleProof::new(
        hint(1, 1, 0),
        vec![Element { bytes: [0u8; 32] }; 4],
        MultiPointProof { open_proof: vec![1u8; 10] },
    )
    .unwrap();
    assert_eq!(large.serialized_size(), small.serialized_size() + 32);
}
