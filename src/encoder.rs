//! Conversion of a proof's three group elements into the eight field
//! elements that an on-chain pairing-check verifier reads.

use vstd::prelude::*;

verus! {

/// A base-field element in its canonical form: four 64-bit limbs, least
/// significant first.
#[derive(Clone, Copy, Debug)]
pub struct FieldElement {
    pub limbs: [u64; 4],
}

/// A point of the first group in affine coordinates.
#[derive(Clone, Copy, Debug)]
pub struct G1Point {
    pub x: FieldElement,
    pub y: FieldElement,
}

/// A point of the second group: each coordinate lies in the quadratic
/// extension and is given by its two components, as the verifier reads
/// them: `x0` before `x1`, `y0` before `y1`. As the pairing precompile
/// (EIP-197) expects, `x0` and `y0` hold the imaginary coefficient (`c1`) of
/// the extension element and `x1` and `y1` its real coefficient (`c0`); the
/// encoding keeps this order and never swaps them.
#[derive(Clone, Copy, Debug)]
pub struct G2Point {
    pub x0: FieldElement,
    pub x1: FieldElement,
    pub y0: FieldElement,
    pub y1: FieldElement,
}

/// A raw Groth16 proof: the elements `a` and `c` of the first group and `b`
/// of the second.
#[derive(Clone, Copy, Debug)]
pub struct RawProof {
    pub a: G1Point,
    pub b: G2Point,
    pub c: G1Point,
}

/// A proof together with its public input and the block's public data, as
/// a worker holds it before encoding.
#[derive(Clone, Debug)]
pub struct FullBabyProof {
    pub proof: RawProof,
    pub inputs: [FieldElement; 1],
    pub public_data: Vec<u8>,
}

/// The on-chain form of a proof for one block.
#[derive(Clone, Debug)]
pub struct EncodedProof {
    pub block: u64,
    pub elements: Vec<FieldElement>,
}

/// The fixed encoding order: `a`'s (x, y), `b`'s (x0, x1, y0, y1), `c`'s (x, y).
pub open spec fn encoding(p: RawProof) -> Seq<FieldElement> {
    seq![p.a.x, p.a.y, p.b.x0, p.b.x1, p.b.y0, p.b.y1, p.c.x, p.c.y]
}

/// Encodes the group elements of `full.proof` for `block`. No validity
/// check is made on the proof; the public input and data are not encoded.
pub fn encode_proof(full: &FullBabyProof, block: u64) -> (r: EncodedProof)
    ensures
        r.block == block,
        r.elements@ == encoding(full.proof),
        r.elements@.len() == 8,
{
    let proof = &full.proof;
    let mut elements: Vec<FieldElement> = Vec::with_capacity(8);
    elements.push(proof.a.x);
    elements.push(proof.a.y);
    elements.push(proof.b.x0);
    elements.push(proof.b.x1);
    elements.push(proof.b.y0);
    elements.push(proof.b.y1);
    elements.push(proof.c.x);
    elements.push(proof.c.y);
    assert(elements@ =~= encoding(*proof));
    EncodedProof { block, elements }
}

/// The encoding is a function of the proof alone: equal proofs give equal
/// tuples, and every tuple has exactly eight elements.
pub proof fn lemma_encoding_deterministic(p: RawProof, q: RawProof)
    requires
        p == q,
    ensures
        encoding(p) == encoding(q),
        encoding(p).len() == 8,
{
}

} // verus!
