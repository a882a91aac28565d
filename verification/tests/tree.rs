use dusk_bls12_381::BlsScalar;
use dusk_poseidon::Domain;
use ff::Field;
use poseidon_merkle::{Item, Tree};
use proof_bench::binary::{generate_binary_dataset, KEY_SEED};
use proof_bench::tree::{
    generate_binary_keys, generate_binary_tree, TreeError, ARITY, KEY_LOG, TREE_CAPACITY,
};
use rand::rngs::StdRng;
use rand::SeedableRng;

fn scalar_keys(count: u64) -> Vec<BlsScalar> {
    (0..count).map(|i| BlsScalar::from(1000 + 7 * i)).collect()
}

fn reference_tree(keys: &[BlsScalar]) -> Tree<(), 6> {
    let mut tree = Tree::<(), 6>::new();
    for (position, key) in keys.iter().enumerate() {
        tree.insert(position as u64, Item::new(*key, ()));
    }
    tree
}

#[test]
fn the_tree_has_depth_six_and_four_children_per_node() {
    assert_eq!(KEY_LOG, 6);
    assert_eq!(ARITY, 4);
    assert_eq!(TREE_CAPACITY, 4096);
    let tree = generate_binary_tree(Vec::new()).unwrap();
    assert_eq!(tree.capacity(), TREE_CAPACITY as u64);
}

#[test]
fn keys_are_digests_of_elements_drawn_from_the_seeded_generator() {
    let mut rng = StdRng::seed_from_u64(0xdea1);
    let mut expected = Vec::new();
    for _ in 0..64 {
        let hash = dusk_poseidon::Hash::digest(Domain::Other, &[BlsScalar::random(&mut rng)])[0];
        expected.push(hash.to_bytes());
    }
    let keys = generate_binary_keys(&mut StdRng::seed_from_u64(KEY_SEED), 64);
    assert_eq!(keys, expected);
    let (dataset_keys, _) = generate_binary_dataset();
    assert_eq!(dataset_keys, expected);
}

#[test]
fn keys_go_on_from_where_the_generator_stands() {
    let mut rng = StdRng::seed_from_u64(5);
    let mut parts = generate_binary_keys(&mut rng, 3);
    parts.extend(generate_binary_keys(&mut rng, 2));
    assert_eq!(parts, generate_binary_keys(&mut StdRng::seed_from_u64(5), 5));
    assert!(generate_binary_keys(&mut rng, 0).is_empty());
}

#[test]
fn tree_holds_each_key_at_the_position_of_its_index() {
    let scalars = scalar_keys(64);
    let keys: Vec<[u8; 32]> = scalars.iter().map(|key| key.to_bytes()).collect();
    let tree = generate_binary_tree(keys).unwrap();
    let reference = reference_tree(&scalars);
    assert_eq!(tree.len(), 64);
    assert_eq!(*tree.root(), *reference.root());
    assert!(tree == reference);
    for position in 0..64u64 {
        assert!(tree.contains(position));
    }
    assert!(!tree.contains(64));
}

#[test]
fn tree_of_no_keys_is_empty() {
    let tree = generate_binary_tree(Vec::new()).unwrap();
    assert!(tree.is_empty());
    assert!(tree == Tree::<(), 6>::new());
}

#[test]
fn tree_takes_as_many_keys_as_it_has_positions() {
    let scalars = scalar_keys(4096);
    let keys: Vec<[u8; 32]> = scalars.iter().map(|key| key.to_bytes()).collect();
    let tree = generate_binary_tree(keys).unwrap();
    assert_eq!(tree.len(), 4096);
    assert!(tree.contains(4095));
}

#[test]
fn key_that_is_no_field_element_is_refused_with_its_position() {
    let mut keys: Vec<[u8; 32]> = scalar_keys(5).iter().map(|key| key.to_bytes()).collect();
    keys[3] = [0xff; 32];
    keys[4] = [0xff; 32];
    assert_eq!(
        generate_binary_tree(keys).err(),
        Some(TreeError::NonCanonicalKey { position: 3 })
    );
}

#[test]
fn the_order_of_the_field_is_the_first_value_refused() {
    let order: [u8; 32] = [
        0x01, 0x00, 0x00, 0x00, 0xff, 0xff, 0xff, 0xff, 0xfe, 0x5b, 0xfe, 0xff, 0x02, 0xa4, 0xbd,
        0x53, 0x05, 0xd8, 0xa1, 0x09, 0x08, 0xd8, 0x39, 0x33, 0x48, 0x7d, 0x9d, 0x29, 0x53, 0xa7,
        0xed, 0x73,
    ];
    let mut below = order;
    below[0] = 0x00;
    assert!(generate_binary_tree(vec![below]).is_ok());
    assert_eq!(
        generate_binary_tree(vec![order]).err(),
        Some(TreeError::NonCanonicalKey { position: 0 })
    );
}
