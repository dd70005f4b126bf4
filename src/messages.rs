//! The messages exchanged between the dealer and the parties, and the
//! aggregate proof that the dealer assembles from them.
#![allow(non_snake_case)]
use curve25519_dalek::ristretto::RistrettoPoint;
use curve25519_dalek::scalar::Scalar;
use vstd::prelude::*;

verus! {

/// A party's first message: `V` commits to its value, `A` and `S` to the
/// bit decomposition and the blinding polynomials.
#[derive(Clone, Copy, Debug)]
pub struct ValueCommitment {
    pub V: RistrettoPoint,
    pub A: RistrettoPoint,
    pub S: RistrettoPoint,
}

/// The challenges drawn after the value commitments.
#[derive(Clone, Copy, Debug)]
pub struct ValueChallenge {
    pub y: Scalar,
    pub z: Scalar,
}

/// A party's second message: commitments to the linear and quadratic
/// coefficients of its blinded polynomial.
#[derive(Clone, Copy, Debug)]
pub struct PolyCommitment {
    pub T_1: RistrettoPoint,
    pub T_2: RistrettoPoint,
}

/// The challenge drawn after the polynomial commitments: the evaluation point.
#[derive(Clone, Copy, Debug)]
pub struct PolyChallenge {
    pub x: Scalar,
}

/// A party's final contribution.
#[derive(Clone, Debug)]
pub struct ProofShare {
    pub value_commitment: ValueCommitment,
    pub poly_commitment: PolyCommitment,
    pub t_x: Scalar,
    pub t_x_blinding: Scalar,
    pub e_blinding: Scalar,
    pub l_vec: Vec<Scalar>,
    pub r_vec: Vec<Scalar>,
}

/// The public generators: the base `B` and the vectors `G`, `H`, which hold
/// at least `n * m` points each.
#[derive(Clone, Debug)]
pub struct GeneratorsView {
    pub B: RistrettoPoint,
    pub G: Vec<RistrettoPoint>,
    pub H: Vec<RistrettoPoint>,
}

/// What the inner-product argument is built from, in the final step of the
/// protocol and on the same transcript: the point `Q`, the base `y_inv` of
/// the exponent sequence, the generators and the concatenated vectors.
#[derive(Clone, Debug)]
pub struct InnerProductInput {
    pub Q: RistrettoPoint,
    pub y_inv: Scalar,
    pub G: Vec<RistrettoPoint>,
    pub H: Vec<RistrettoPoint>,
    pub l_vec: Vec<Scalar>,
    pub r_vec: Vec<Scalar>,
}

/// The aggregate proof.
#[derive(Clone, Debug)]
pub struct Proof {
    pub n: usize,
    pub value_commitments: Vec<RistrettoPoint>,
    pub A: RistrettoPoint,
    pub S: RistrettoPoint,
    pub T_1: RistrettoPoint,
    pub T_2: RistrettoPoint,
    pub t_x: Scalar,
    pub t_x_blinding: Scalar,
    pub e_blinding: Scalar,
}

/// Why a round was refused.
#[derive(Clone, Copy, Debug, PartialEq, Eq, Structural)]
pub enum DealerError {
    /// A batch does not hold exactly one message per party.
    LengthMismatch,
    /// At least one share failed its check against the issued challenges.
    InvalidShare,
}

} // verus!
