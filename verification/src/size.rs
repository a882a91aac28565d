//! Byte sizes of the artifacts of a tree proof, each computed from its parts.

use vstd::layout::size_of;
use vstd::prelude::*;

verus! {

/// Bytes in the serialized form of one group element.
pub const ELEMENT_BYTES: usize = 32;

/// Bytes of the prefix that counts the commitments of a proof.
pub const COUNT_PREFIX_BYTES: usize = 4;

/// An artifact that can tell how many bytes it accounts for.
pub trait Size {
    /// The number of bytes the artifact accounts for.
    spec fn size(&self) -> nat;

    /// Computes the number of bytes the artifact accounts for.
    fn serialized_size(&self) -> (bytes: usize)
        ensures
            bytes == self.size(),
    ;
}

/// A group element in its serialized form.
#[derive(Clone, Copy, Debug, PartialEq, Eq)]
pub struct Element {
    /// The serialized element.
    pub bytes: [u8; 32],
}

/// A multipoint opening proof, as the serialized bytes of its opening argument.
#[derive(Clone, Debug, PartialEq, Eq)]
pub struct MultiPointProof {
    /// The serialized opening argument.
    pub open_proof: Vec<u8>,
}

/// How a stem's extension shows in a proof.
#[derive(Clone, Copy, Debug, PartialEq, Eq)]
pub enum ExtPresent {
    /// No extension at the stem's place.
    Absent,
    /// The extension of another stem.
    DifferentStem,
    /// The extension of the stem itself.
    Present,
}

/// What a verifier is told beside the commitments: the depth and extension
/// status of each stem, and the stems whose absence is shown by another stem.
#[derive(Debug, PartialEq, Eq)]
pub struct VerificationHint {
    depths: Vec<u8>,
    extension_present: Vec<ExtPresent>,
    diff_stem_no_proof: Vec<[u8; 31]>,
}

/// A proof for a set of keys: the hint, the commitments on the paths in
/// sorted order, and the multipoint proof that opens them.
#[derive(Debug, PartialEq, Eq)]
pub struct VerkleProof {
    verification_hint: VerificationHint,
    comms_sorted: Vec<Element>,
    proof: MultiPointProof,
}

/// The bytes a hint with lists of the given lengths accounts for: each list
/// counts with the size of the list value itself and the size of its items.
pub open spec fn hint_size(depths: nat, extension_present: nat, diff_stem_no_proof: nat) -> nat {
    size_of::<Vec<u8>>() + depths * size_of::<u8>() + size_of::<Vec<ExtPresent>>()
        + extension_present * size_of::<ExtPresent>() + size_of::<Vec<[u8; 31]>>()
        + diff_stem_no_proof * size_of::<[u8; 31]>()
}

/// The bytes a proof accounts for: the hint, the count prefix, the
/// commitments at their fixed width, and the multipoint proof.
pub open spec fn proof_size(hint: nat, commitments: nat, multiproof: nat) -> nat {
    hint + COUNT_PREFIX_BYTES as nat + commitments * (ELEMENT_BYTES as nat) + multiproof
}

/// The sum of the sizes of `elements`.
pub open spec fn elements_size(elements: Seq<Element>) -> nat
    decreases elements.len(),
{
    if elements.len() == 0 {
        0
    } else {
        elements_size(elements.drop_last()) + elements.last().size()
    }
}

/// The bytes of a list: the list value itself and `len` items.
fn list_size(header: usize, len: usize, item: usize) -> (bytes: Option<usize>)
    ensures
        bytes is Some <==> header + len * item <= usize::MAX,
        bytes matches Some(b) ==> b == header + len * item,
{
    match len.checked_mul(item) {
        Some(items) => header.checked_add(items),
        None => None,
    }
}

impl Size for Element {
    open spec fn size(&self) -> nat {
        self.bytes@.len()
    }

    fn serialized_size(&self) -> (bytes: usize) {
        self.bytes.len()
    }
}

impl Size for MultiPointProof {
    open spec fn size(&self) -> nat {
        self.open_proof@.len()
    }

    fn serialized_size(&self) -> (bytes: usize) {
        self.open_proof.len()
    }
}

impl VerificationHint {
    #[verifier::type_invariant]
    spec fn size_fits(self) -> bool {
        hint_size(
            self.depths@.len(),
            self.extension_present@.len(),
            self.diff_stem_no_proof@.len(),
        ) <= usize::MAX
    }

    /// The depth of each stem.
    pub closed spec fn depths(&self) -> Seq<u8> {
        self.depths@
    }

    /// The extension status of each stem.
    pub closed spec fn extension_present(&self) -> Seq<ExtPresent> {
        self.extension_present@
    }

    /// The stems whose absence is shown by another stem.
    pub closed spec fn diff_stem_no_proof(&self) -> Seq<[u8; 31]> {
        self.diff_stem_no_proof@
    }

    /// The hint with the given lists. `None` when its size is beyond `usize`.
    pub fn new(
        depths: Vec<u8>,
        extension_present: Vec<ExtPresent>,
        diff_stem_no_proof: Vec<[u8; 31]>,
    ) -> (hint: Option<VerificationHint>)
        ensures
            hint is Some <==> hint_size(
                depths@.len(),
                extension_present@.len(),
                diff_stem_no_proof@.len(),
            ) <= usize::MAX,
            hint matches Some(h) ==> {
                &&& h.depths() == depths@
                &&& h.extension_present() == extension_present@
                &&& h.diff_stem_no_proof() == diff_stem_no_proof@
            },
    {
        let depths_size = list_size(
            core::mem::size_of::<Vec<u8>>(),
            depths.len(),
            core::mem::size_of::<u8>(),
        );
        let extension_present_size = list_size(
            core::mem::size_of::<Vec<ExtPresent>>(),
            extension_present.len(),
            core::mem::size_of::<ExtPresent>(),
        );
        let diff_stem_no_proof_size = list_size(
            core::mem::size_of::<Vec<[u8; 31]>>(),
            diff_stem_no_proof.len(),
            core::mem::size_of::<[u8; 31]>(),
        );
        let fits = match (depths_size, extension_present_size, diff_stem_no_proof_size) {
            (Some(d), Some(e), Some(s)) => match d.checked_add(e) {
                Some(de) => de.checked_add(s).is_some(),
                None => false,
            },
            _ => false,
        };
        if fits {
            Some(VerificationHint { depths, extension_present, diff_stem_no_proof })
        } else {
            None
        }
    }
}

impl Size for VerificationHint {
    open spec fn size(&self) -> nat {
        hint_size(
            self.depths().len(),
            self.extension_present().len(),
            self.diff_stem_no_proof().len(),
        )
    }

    fn serialized_size(&self) -> (bytes: usize) {
        proof {
            use_type_invariant(self);
        }
        let depths_size = core::mem::size_of::<Vec<u8>>()
            + self.depths.len() * core::mem::size_of::<u8>();
        let extension_present_size = core::mem::size_of::<Vec<ExtPresent>>()
            + self.extension_present.len() * core::mem::size_of::<ExtPresent>();
        let diff_stem_no_proof_size = core::mem::size_of::<Vec<[u8; 31]>>()
            + self.diff_stem_no_proof.len() * core::mem::size_of::<[u8; 31]>();
        depths_size + extension_present_size + diff_stem_no_proof_size
    }
}

impl VerkleProof {
    #[verifier::type_invariant]
    spec fn size_fits(self) -> bool {
        proof_size(
            self.verification_hint.size(),
            self.comms_sorted@.len(),
            self.proof.size(),
        ) <= usize::MAX
    }

    /// The proof's hint.
    pub closed spec fn verification_hint(&self) -> VerificationHint {
        self.verification_hint
    }

    /// The proof's commitments.
    pub closed spec fn comms_sorted(&self) -> Seq<Element> {
        self.comms_sorted@
    }

    /// The proof's multipoint proof.
    pub closed spec fn multiproof(&self) -> MultiPointProof {
        self.proof
    }

    /// The proof with the given parts. `None` when its size is beyond `usize`.
    pub fn new(
        verification_hint: VerificationHint,
        comms_sorted: Vec<Element>,
        proof: MultiPointProof,
    ) -> (composite: Option<VerkleProof>)
        ensures
            composite is Some <==> proof_size(
                verification_hint.size(),
                comms_sorted@.len(),
                proof.size(),
            ) <= usize::MAX,
            composite matches Some(p) ==> {
                &&& p.verification_hint() == verification_hint
                &&& p.comms_sorted() == comms_sorted@
                &&& p.multiproof() == proof
            },
    {
        let hint_size = verification_hint.serialized_size();
        let comms_size = comms_sorted.len().checked_mul(ELEMENT_BYTES);
        let proof_size = proof.serialized_size();
        let fits = match (hint_size.checked_add(COUNT_PREFIX_BYTES), comms_size) {
            (Some(prefixed), Some(comms)) => match prefixed.checked_add(comms) {
                Some(framed) => framed.checked_add(proof_size).is_some(),
                None => false,
            },
            _ => false,
        };
        if fits {
            Some(VerkleProof { verification_hint, comms_sorted, proof })
        } else {
            None
        }
    }
}

impl Size for VerkleProof {
    open spec fn size(&self) -> nat {
        proof_size(
            self.verification_hint().size(),
            self.comms_sorted().len(),
            self.multiproof().size(),
        )
    }

    fn serialized_size(&self) -> (bytes: usize) {
        proof {
            use_type_invariant(self);
        }
        let hint_size = self.verification_hint.serialized_size();
        let comms_size = self.comms_sorted.len() * 32;
        let proof_size = self.proof.serialized_size();
        hint_size + 4 + comms_size + proof_size
    }
}

/// Every element accounts for the same number of bytes, so a list of them
/// accounts for that number times its length.
pub proof fn lemma_elements_size(elements: Seq<Element>)
    ensures
        elements_size(elements) == elements.len() * (ELEMENT_BYTES as nat),
    decreases elements.len(),
{
    if elements.len() > 0 {
        lemma_elements_size(elements.drop_last());
        let rest = elements_size(elements.drop_last());
        assert(rest + 32 == elements.len() * 32) by (nonlinear_arith)
            requires
                rest == (elements.len() - 1) * 32,
        ;
    }
}

/// The size of a proof is the sum of the sizes of its parts (the hint, each
/// commitment, the multipoint proof) plus the count prefix.
pub proof fn lemma_proof_size_is_additive(composite: VerkleProof)
    ensures
        composite.size() == composite.verification_hint().size() + elements_size(
            composite.comms_sorted(),
        ) + composite.multiproof().size() + COUNT_PREFIX_BYTES as nat,
{
    lemma_elements_size(composite.comms_sorted());
}

} // verus!
