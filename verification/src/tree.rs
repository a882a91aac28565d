//! The fixed-depth hash tree of the binary benchmark and the keys it is built from.
//!
//! Field elements are held as their canonical 32-byte little-endian form.

use dusk_bls12_381::BlsScalar;
use dusk_poseidon::Domain;
use ff::Field;
use rand::SeedableRng;
use vstd::pervasive::unreached;
use vstd::prelude::*;

verus! {

/// Depth of the hash tree.
pub const KEY_LOG: usize = 6;

/// Number of children of a node of the hash tree.
pub const ARITY: usize = 4;

/// Number of positions in the hash tree: `ARITY` to the power of `KEY_LOG`.
pub const TREE_CAPACITY: usize = 4096;

/// The order of the scalar field of BLS12-381.
pub open spec fn scalar_modulus() -> nat {
    0x73eda753299d7d483339d80809a1d80553bda402fffe5bfeffffffff00000001nat
}

/// The number that `bytes` spell in little-endian order.
pub open spec fn le_value(bytes: Seq<u8>) -> nat
    decreases bytes.len(),
{
    if bytes.len() == 0 {
        0
    } else {
        bytes[0] as nat + 256 * le_value(bytes.drop_first())
    }
}

/// Whether `bytes` are the canonical form of a field element: 32 bytes that
/// spell a number below the field's order.
pub open spec fn is_canonical_scalar(bytes: Seq<u8>) -> bool {
    bytes.len() == 32 && le_value(bytes) < scalar_modulus()
}

/// `dusk_merkle::Tree`, a sparse Merkle tree, as a type whose inside is not looked into.
#[verifier::external_type_specification]
#[verifier::external_body]
#[verifier::reject_recursive_types(T)]
pub struct ExTree<T, const H: usize, const A: usize>(dusk_merkle::Tree<T, H, A>);

/// `poseidon_merkle::Item`, a node of the tree, as a type whose inside is not looked into.
#[verifier::external_type_specification]
#[verifier::external_body]
#[verifier::reject_recursive_types(T)]
pub struct ExItem<T>(poseidon_merkle::Item<T>);

/// `rand::rngs::StdRng`, as a type whose inside is not looked into.
#[verifier::external_type_specification]
#[verifier::external_body]
pub struct ExStdRng(rand::rngs::StdRng);

/// The hash tree of the binary benchmark.
pub type HashTree = dusk_merkle::Tree<poseidon_merkle::Item<()>, KEY_LOG, ARITY>;

/// The leaves of a tree: the canonical bytes of the hash at each occupied position.
pub uninterp spec fn tree_leaves(tree: HashTree) -> Map<u64, Seq<u8>>;

/// The Poseidon digest of one field element in the domain `Other`, both in
/// canonical bytes, as computed by `dusk_poseidon::Hash::digest`.
pub uninterp spec fn poseidon_hash(input: Seq<u8>) -> Seq<u8>;

/// The byte sequences of a list of 32-byte keys.
pub open spec fn key_views(keys: Seq<[u8; 32]>) -> Seq<Seq<u8>> {
    Seq::new(keys.len(), |i: int| keys[i]@)
}

/// The leaves of a tree into which nothing was inserted.
pub open spec fn no_leaves() -> Map<u64, Seq<u8>> {
    Map::empty()
}

/// The leaves of the tree that holds each key at the position of its index.
pub open spec fn leaves_of(keys: Seq<Seq<u8>>) -> Map<u64, Seq<u8>> {
    Map::new(|p: u64| p < keys.len(), |p: u64| keys[p as int])
}

/// Whether `key` is a canonical field element that is the Poseidon digest of one.
pub open spec fn is_digest_key(key: Seq<u8>) -> bool {
    &&& is_canonical_scalar(key)
    &&& exists|input: Seq<u8>| is_canonical_scalar(input) && key == #[trigger] poseidon_hash(input)
}

/// Makes an empty tree with `dusk_merkle::Tree::new`.
/// Trusted: the new tree has no leaves.
#[verifier::external_body]
fn tree_new() -> (fresh: HashTree)
    ensures
        tree_leaves(fresh) == no_leaves(),
{
    dusk_merkle::Tree::new()
}

/// Puts the field element with the canonical bytes `leaf` at `position`,
/// with `dusk_merkle::Tree::insert`; the bytes are read with
/// `BlsScalar::from_bytes`.
/// Trusted: `from_bytes` accepts exactly the canonical bytes; an accepted
/// leaf takes the position, over any leaf that was there, and all other
/// positions stay; a refused leaf changes nothing. `insert` panics at
/// positions from the capacity on, which `requires` leaves out.
#[verifier::external_body]
fn tree_insert(tree: &mut HashTree, position: u64, leaf: &[u8; 32]) -> (accepted: bool)
    requires
        position < TREE_CAPACITY,
    ensures
        accepted == is_canonical_scalar(leaf@),
        accepted ==> tree_leaves(*final(tree)) == tree_leaves(*old(tree)).insert(position, leaf@),
        !accepted ==> tree_leaves(*final(tree)) == tree_leaves(*old(tree)),
{
    let parsed: Option<BlsScalar> = BlsScalar::from_bytes(leaf).into();
    match parsed {
        Some(hash) => {
            tree.insert(position, poseidon_merkle::Item::new(hash, ()));
            true
        },
        None => false,
    }
}

/// Seeds a `rand::rngs::StdRng` with `SeedableRng::seed_from_u64`.
/// Nothing is claimed of the generator.
#[verifier::external_body]
pub(crate) fn seeded_rng(seed: u64) -> rand::rngs::StdRng {
    rand::rngs::StdRng::seed_from_u64(seed)
}

/// Draws a field element with `ff::Field::random` and gives its bytes
/// (`to_bytes`).
/// Trusted: the bytes are canonical, whatever the generator yields.
#[verifier::external_body]
fn random_scalar(rng: &mut rand::rngs::StdRng) -> (bytes: [u8; 32])
    ensures
        is_canonical_scalar(bytes@),
{
    BlsScalar::random(rng).to_bytes()
}

/// Hashes one field element with `dusk_poseidon::Hash::digest` in the domain
/// `Other` and gives the first element of the output; bytes are read with
/// `BlsScalar::from_bytes` and written with `to_bytes`.
/// Trusted: canonical bytes, and no others, are hashed; the digest is a
/// function of the input alone and is canonical.
#[verifier::external_body]
fn poseidon_digest(input: &[u8; 32]) -> (digest: Option<[u8; 32]>)
    ensures
        digest is Some <==> is_canonical_scalar(input@),
        digest matches Some(d) ==> d@ == poseidon_hash(input@) && is_canonical_scalar(d@),
{
    let parsed: Option<BlsScalar> = BlsScalar::from_bytes(input).into();
    match parsed {
        Some(scalar) => Some(
            dusk_poseidon::Hash::digest(Domain::Other, &[scalar])[0].to_bytes(),
        ),
        None => None,
    }
}

/// Why a tree could not be built.
#[derive(Clone, Copy, Debug, PartialEq, Eq)]
pub enum TreeError {
    /// The key at `position` is not the canonical form of a field element.
    NonCanonicalKey { position: usize },
}

/// Draws `count` keys: each is the Poseidon digest of a field element taken
/// from `rng`.
pub fn generate_binary_keys(rng: &mut rand::rngs::StdRng, count: usize) -> (keys: Vec<[u8; 32]>)
    ensures
        keys.len() == count,
        forall|i: int| 0 <= i < count ==> is_digest_key(#[trigger] key_views(keys@)[i]),
{
    let mut keys: Vec<[u8; 32]> = Vec::new();
    let mut i: usize = 0;
    while i < count
        invariant
            i <= count,
            keys.len() == i,
            forall|j: int| 0 <= j < i ==> is_digest_key(#[trigger] key_views(keys@)[j]),
        decreases count - i,
    {
        let input = random_scalar(rng);
        let ghost before = key_views(keys@);
        match poseidon_digest(&input) {
            Some(key) => {
                keys.push(key);
                proof {
                    assert(key@ == poseidon_hash(input@));
                    assert(is_digest_key(key@));
                    assert forall|j: int| 0 <= j < i + 1 implies is_digest_key(
                        #[trigger] key_views(keys@)[j],
                    ) by {
                        if j < i {
                            assert(key_views(keys@)[j] == before[j]);
                        } else {
                            assert(key_views(keys@)[j] == key@);
                        }
                    }
                }
            },
            None => unreached(),
        }
        i += 1;
    }
    keys
}

/// Builds the tree that holds each key at the position of its index.
///
/// Fails at the first key that is not the canonical form of a field element.
pub fn generate_binary_tree(keys: Vec<[u8; 32]>) -> (built: Result<HashTree, TreeError>)
    requires
        keys.len() <= TREE_CAPACITY,
    ensures
        match built {
            Ok(tree) => {
                &&& tree_leaves(tree) == leaves_of(key_views(keys@))
                &&& forall|i: int|
                    0 <= i < keys.len() ==> is_canonical_scalar(#[trigger] key_views(keys@)[i])
            },
            Err(TreeError::NonCanonicalKey { position }) => {
                &&& position < keys.len()
                &&& !is_canonical_scalar(key_views(keys@)[position as int])
                &&& forall|i: int|
                    0 <= i < position ==> is_canonical_scalar(#[trigger] key_views(keys@)[i])
            },
        },
{
    let mut tree = tree_new();
    let mut position: usize = 0;
    assert(leaves_of(key_views(keys@).take(0)) =~= no_leaves());
    while position < keys.len()
        invariant
            position <= keys.len() <= TREE_CAPACITY,
            tree_leaves(tree) == leaves_of(key_views(keys@).take(position as int)),
            forall|i: int|
                0 <= i < position ==> is_canonical_scalar(#[trigger] key_views(keys@)[i]),
        decreases keys.len() - position,
    {
        let accepted = tree_insert(&mut tree, position as u64, &keys[position]);
        if !accepted {
            return Err(TreeError::NonCanonicalKey { position });
        }
        assert(leaves_of(key_views(keys@).take(position + 1)) =~= leaves_of(
            key_views(keys@).take(position as int),
        ).insert(position as u64, key_views(keys@)[position as int]));
        position += 1;
    }
    assert(key_views(keys@).take(position as int) =~= key_views(keys@));
    Ok(tree)
}

} // verus!
