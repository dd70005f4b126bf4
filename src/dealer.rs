//! The dealer's state machine: Init, then awaiting values, polynomial
//! commitments and shares, then the proof. Each round consumes its state;
//! a refused batch hands the state back unchanged, with the transcript
//! untouched.
#![allow(non_snake_case)]
use crate::group::{
    aggregate_points, aggregate_scalars, compress_point, compressed_point, invert_scalar,
    scalar_encoding, scalar_inverse, scale_point, scaled_point, scalar_to_bytes, sum_points,
    sum_scalars,
};
use crate::messages::{
    DealerError, GeneratorsView, InnerProductInput, PolyChallenge, PolyCommitment, Proof,
    ProofShare, ValueChallenge, ValueCommitment,
};
use crate::transcript::{
    after_challenge, challenge_of, integer_record, lemma_integer_record_injective,
    lemma_le_bytes_len, message_record, ProofTranscript,
};
use curve25519_dalek::ristretto::RistrettoPoint;
use curve25519_dalek::scalar::Scalar;
use vstd::prelude::*;

verus! {

/// The records of a sequence of points committed one by one, in order.
pub open spec fn point_records(s: Seq<RistrettoPoint>) -> Seq<u8>
    decreases s.len(),
{
    if s.len() == 0 {
        Seq::empty()
    } else {
        point_records(s.drop_last()) + message_record(compressed_point(s.last()))
    }
}

/// The `V` of each value commitment, in batch order.
pub open spec fn values_V(cs: Seq<ValueCommitment>) -> Seq<RistrettoPoint> {
    cs.map_values(|c: ValueCommitment| c.V)
}

/// The `A` of each value commitment, in batch order.
pub open spec fn values_A(cs: Seq<ValueCommitment>) -> Seq<RistrettoPoint> {
    cs.map_values(|c: ValueCommitment| c.A)
}

/// The `S` of each value commitment, in batch order.
pub open spec fn values_S(cs: Seq<ValueCommitment>) -> Seq<RistrettoPoint> {
    cs.map_values(|c: ValueCommitment| c.S)
}

/// The `T_1` of each polynomial commitment, in batch order.
pub open spec fn polys_T1(cs: Seq<PolyCommitment>) -> Seq<RistrettoPoint> {
    cs.map_values(|c: PolyCommitment| c.T_1)
}

/// The `T_2` of each polynomial commitment, in batch order.
pub open spec fn polys_T2(cs: Seq<PolyCommitment>) -> Seq<RistrettoPoint> {
    cs.map_values(|c: PolyCommitment| c.T_2)
}

/// The transcript after the shape of a proof is committed to `t`.
pub open spec fn shape_transcript(t: Seq<u8>, n: usize, m: usize) -> Seq<u8> {
    t + integer_record(n as u64) + integer_record(m as u64)
}

/// The transcript after the value commitments `cs` are committed to `t`,
/// before any challenge is drawn: each `V`, then the sum of the `A`s, then
/// the sum of the `S`s.
pub open spec fn values_transcript(t: Seq<u8>, cs: Seq<ValueCommitment>) -> Seq<u8> {
    t + point_records(values_V(cs)) + message_record(compressed_point(sum_points(values_A(cs))))
        + message_record(compressed_point(sum_points(values_S(cs))))
}

/// The transcript after the polynomial commitments `cs` are committed to `t`:
/// the sum of the `T_1`s, then the sum of the `T_2`s.
pub open spec fn polys_transcript(t: Seq<u8>, cs: Seq<PolyCommitment>) -> Seq<u8> {
    t + message_record(compressed_point(sum_points(polys_T1(cs))))
        + message_record(compressed_point(sum_points(polys_T2(cs))))
}

/// The `V` of each share, in batch order.
pub open spec fn shares_V(ps: Seq<ProofShare>) -> Seq<RistrettoPoint> {
    ps.map_values(|p: ProofShare| p.value_commitment.V)
}

/// The `A` of each share, in batch order.
pub open spec fn shares_A(ps: Seq<ProofShare>) -> Seq<RistrettoPoint> {
    ps.map_values(|p: ProofShare| p.value_commitment.A)
}

/// The `S` of each share, in batch order.
pub open spec fn shares_S(ps: Seq<ProofShare>) -> Seq<RistrettoPoint> {
    ps.map_values(|p: ProofShare| p.value_commitment.S)
}

/// The `T_1` of each share, in batch order.
pub open spec fn shares_T1(ps: Seq<ProofShare>) -> Seq<RistrettoPoint> {
    ps.map_values(|p: ProofShare| p.poly_commitment.T_1)
}

/// The `T_2` of each share, in batch order.
pub open spec fn shares_T2(ps: Seq<ProofShare>) -> Seq<RistrettoPoint> {
    ps.map_values(|p: ProofShare| p.poly_commitment.T_2)
}

/// The `t_x` of each share, in batch order.
pub open spec fn shares_t_x(ps: Seq<ProofShare>) -> Seq<Scalar> {
    ps.map_values(|p: ProofShare| p.t_x)
}

/// The `t_x_blinding` of each share, in batch order.
pub open spec fn shares_t_x_blinding(ps: Seq<ProofShare>) -> Seq<Scalar> {
    ps.map_values(|p: ProofShare| p.t_x_blinding)
}

/// The `e_blinding` of each share, in batch order.
pub open spec fn shares_e_blinding(ps: Seq<ProofShare>) -> Seq<Scalar> {
    ps.map_values(|p: ProofShare| p.e_blinding)
}

/// Every share's `l_vec`, concatenated in batch order.
pub open spec fn concat_l(ps: Seq<ProofShare>) -> Seq<Scalar>
    decreases ps.len(),
{
    if ps.len() == 0 {
        Seq::empty()
    } else {
        concat_l(ps.drop_last()) + ps.last().l_vec@
    }
}

/// Every share's `r_vec`, concatenated in batch order.
pub open spec fn concat_r(ps: Seq<ProofShare>) -> Seq<Scalar>
    decreases ps.len(),
{
    if ps.len() == 0 {
        Seq::empty()
    } else {
        concat_r(ps.drop_last()) + ps.last().r_vec@
    }
}

/// The transcript after the summed scalars of the shares `ps` are committed
/// to `t`: `t_x`, then `t_x_blinding`, then `e_blinding`.
pub open spec fn shares_transcript(t: Seq<u8>, ps: Seq<ProofShare>) -> Seq<u8> {
    t + message_record(scalar_encoding(sum_scalars(shares_t_x(ps))))
        + message_record(scalar_encoding(sum_scalars(shares_t_x_blinding(ps))))
        + message_record(scalar_encoding(sum_scalars(shares_e_blinding(ps))))
}

/// The shape committed at the start binds the run: two shapes leave the same
/// transcript, and so lead to the same challenges, only when they are equal.
pub proof fn lemma_shape_binding(t: Seq<u8>, n1: usize, m1: usize, n2: usize, m2: usize)
    ensures
        shape_transcript(t, n1, m1) == shape_transcript(t, n2, m2) <==> (n1 == n2 && m1 == m2),
{
    if shape_transcript(t, n1, m1) == shape_transcript(t, n2, m2) {
        let a = shape_transcript(t, n1, m1);
        let b = shape_transcript(t, n2, m2);
        lemma_le_bytes_len(n1 as u64 as nat, 8);
        lemma_le_bytes_len(m1 as u64 as nat, 8);
        lemma_le_bytes_len(n2 as u64 as nat, 8);
        lemma_le_bytes_len(m2 as u64 as nat, 8);
        let k = t.len() as int;
        assert(a.subrange(k, k + 9) =~= integer_record(n1 as u64));
        assert(b.subrange(k, k + 9) =~= integer_record(n2 as u64));
        assert(a.subrange(k + 9, k + 18) =~= integer_record(m1 as u64));
        assert(b.subrange(k + 9, k + 18) =~= integer_record(m2 as u64));
        lemma_integer_record_injective(n1 as u64, n2 as u64);
        lemma_integer_record_injective(m1 as u64, m2 as u64);
    }
}

/// With two shares, the vectors handed to the inner-product argument are
/// the first party's followed by the second's.
pub proof fn lemma_concat_two(p1: ProofShare, p2: ProofShare)
    ensures
        concat_l(seq![p1, p2]) == p1.l_vec@ + p2.l_vec@,
        concat_r(seq![p1, p2]) == p1.r_vec@ + p2.r_vec@,
{
    assert(seq![p1, p2].drop_last() =~= seq![p1]);
    assert(seq![p1].drop_last() =~= Seq::<ProofShare>::empty());
    assert(Seq::<Scalar>::empty() + p1.l_vec@ =~= p1.l_vec@);
    assert(Seq::<Scalar>::empty() + p1.r_vec@ =~= p1.r_vec@);
    assert(seq![p1].last() == p1);
    assert(concat_l(Seq::<ProofShare>::empty()) == Seq::<Scalar>::empty());
    assert(concat_r(Seq::<ProofShare>::empty()) == Seq::<Scalar>::empty());
    assert(concat_l(seq![p1]) == p1.l_vec@);
    assert(concat_r(seq![p1]) == p1.r_vec@);
    assert(seq![p1, p2].last() == p2);
}

/// When every share holds vectors of length `n`, the concatenated vectors
/// have length `n * m` for `m` shares.
pub proof fn lemma_concat_len(ps: Seq<ProofShare>, n: nat)
    requires
        forall|j: int| 0 <= j < ps.len() ==> ps[j].l_vec@.len() == n && ps[j].r_vec@.len() == n,
    ensures
        concat_l(ps).len() == n * ps.len(),
        concat_r(ps).len() == n * ps.len(),
    decreases ps.len(),
{
    if ps.len() > 0 {
        let rest = ps.drop_last();
        assert forall|j: int| 0 <= j < rest.len() implies rest[j].l_vec@.len() == n
            && rest[j].r_vec@.len() == n by {
            assert(rest[j] == ps[j]);
        }
        lemma_concat_len(rest, n);
        assert(ps.last() == ps[ps.len() - 1]);
        assert(n * rest.len() + n == n * ps.len()) by (nonlinear_arith)
            requires
                rest.len() + 1 == ps.len(),
        ;
    }
}

/// Appends `src` to `dst`.
fn append_scalars(dst: &mut Vec<Scalar>, src: &Vec<Scalar>)
    ensures
        final(dst)@ == old(dst)@ + src@,
{
    let ghost start = dst@;
    let mut i: usize = 0;
    while i < src.len()
        invariant
            i <= src@.len(),
            dst@ == start + src@.take(i as int),
        decreases src.len() - i,
    {
        dst.push(src[i]);
        proof {
            assert(src@.take(i as int + 1) =~= src@.take(i as int).push(src@[i as int]));
        }
        i = i + 1;
    }
    proof {
        assert(src@.take(i as int) =~= src@);
    }
}

/// A copy of a list of points.
fn copy_points(src: &Vec<RistrettoPoint>) -> (r: Vec<RistrettoPoint>)
    ensures
        r@ == src@,
{
    let mut r: Vec<RistrettoPoint> = Vec::new();
    let mut i: usize = 0;
    while i < src.len()
        invariant
            i <= src@.len(),
            r@ == src@.take(i as int),
        decreases src.len() - i,
    {
        r.push(src[i]);
        proof {
            assert(src@.take(i as int + 1) =~= src@.take(i as int).push(src@[i as int]));
        }
        i = i + 1;
    }
    proof {
        assert(src@.take(i as int) =~= src@);
    }
    r
}

/// Entry point of the protocol.
pub struct Dealer {}

impl Dealer {
    /// Commits the shape of the proof, `n` bits for each of `m` parties, and
    /// starts the first round.
    pub fn new(n: usize, m: usize, transcript: &mut ProofTranscript) -> (r: Result<
        DealerAwaitingValues,
        DealerError,
    >)
        ensures
            r matches Ok(d) && d.bit_width() == n && d.party_count() == m,
            final(transcript)@ == shape_transcript(old(transcript)@, n, m),
    {
        transcript.commit_u64(n as u64);
        transcript.commit_u64(m as u64);
        Ok(DealerAwaitingValues { n, m })
    }
}

/// The dealer once the shape is known, awaiting the value commitments.
#[derive(Debug)]
pub struct DealerAwaitingValues {
    n: usize,
    m: usize,
}

impl DealerAwaitingValues {
    /// The number of bits of each value.
    pub closed spec fn bit_width(&self) -> usize {
        self.n
    }

    /// The number of parties.
    pub closed spec fn party_count(&self) -> usize {
        self.m
    }

    /// The number of bits of each value.
    pub fn n(&self) -> (r: usize)
        ensures
            r == self.bit_width(),
    {
        self.n
    }

    /// The number of parties.
    pub fn m(&self) -> (r: usize)
        ensures
            r == self.party_count(),
    {
        self.m
    }

    /// Commits each party's `V`, then the sums of the `A`s and of the `S`s,
    /// and draws the challenges `y` and `z`.
    pub fn receive_value_commitments(
        self,
        value_commitments: &Vec<ValueCommitment>,
        transcript: &mut ProofTranscript,
    ) -> (r: Result<(DealerAwaitingPoly, ValueChallenge), (DealerAwaitingValues, DealerError)>)
        ensures
            match r {
                Ok((next, challenge)) => {
                    let pre = values_transcript(old(transcript)@, value_commitments@);
                    &&& value_commitments@.len() == self.party_count()
                    &&& challenge.y == challenge_of(pre)
                    &&& challenge.z == challenge_of(after_challenge(pre))
                    &&& final(transcript)@ == after_challenge(after_challenge(pre))
                    &&& next.bit_width() == self.bit_width()
                    &&& next.party_count() == self.party_count()
                    &&& next.issued_value_challenge() == challenge
                },
                Err((back, e)) => {
                    &&& value_commitments@.len() != self.party_count()
                    &&& e == DealerError::LengthMismatch
                    &&& back == self
                    &&& final(transcript)@ == old(transcript)@
                },
            },
    {
        if self.m != value_commitments.len() {
            return Err((self, DealerError::LengthMismatch));
        }
        let ghost start = transcript@;
        let mut a_list: Vec<RistrettoPoint> = Vec::new();
        let mut s_list: Vec<RistrettoPoint> = Vec::new();
        let mut i: usize = 0;
        while i < value_commitments.len()
            invariant
                i <= value_commitments@.len(),
                a_list@ == values_A(value_commitments@.take(i as int)),
                s_list@ == values_S(value_commitments@.take(i as int)),
                transcript@ == start + point_records(values_V(value_commitments@.take(i as int))),
            decreases value_commitments.len() - i,
        {
            let c = &value_commitments[i];
            let bytes = compress_point(&c.V);
            transcript.commit(&bytes);
            a_list.push(c.A);
            s_list.push(c.S);
            proof {
                let cs = value_commitments@;
                assert(cs.take(i as int + 1).drop_last() =~= cs.take(i as int));
                assert(values_V(cs.take(i as int + 1)).drop_last() =~= values_V(cs.take(i as int)));
                assert(a_list@ =~= values_A(cs.take(i as int + 1)));
                assert(s_list@ =~= values_S(cs.take(i as int + 1)));
            }
            i = i + 1;
        }
        proof {
            assert(value_commitments@.take(i as int) =~= value_commitments@);
        }
        let A = aggregate_points(&a_list);
        let S = aggregate_points(&s_list);
        let a_bytes = compress_point(&A);
        transcript.commit(&a_bytes);
        let s_bytes = compress_point(&S);
        transcript.commit(&s_bytes);
        let y = transcript.challenge_scalar();
        let z = transcript.challenge_scalar();
        let value_challenge = ValueChallenge { y, z };
        Ok((DealerAwaitingPoly { n: self.n, m: self.m, value_challenge }, value_challenge))
    }
}

/// The dealer after the first challenge, awaiting polynomial commitments.
#[derive(Debug)]
pub struct DealerAwaitingPoly {
    n: usize,
    m: usize,
    value_challenge: ValueChallenge,
}

impl DealerAwaitingPoly {
    /// The number of bits of each value.
    pub closed spec fn bit_width(&self) -> usize {
        self.n
    }

    /// The number of parties.
    pub closed spec fn party_count(&self) -> usize {
        self.m
    }

    /// The challenges issued after the value commitments.
    pub closed spec fn issued_value_challenge(&self) -> ValueChallenge {
        self.value_challenge
    }

    /// The number of bits of each value.
    pub fn n(&self) -> (r: usize)
        ensures
            r == self.bit_width(),
    {
        self.n
    }

    /// The number of parties.
    pub fn m(&self) -> (r: usize)
        ensures
            r == self.party_count(),
    {
        self.m
    }

    /// The challenges issued after the value commitments.
    pub fn value_challenge(&self) -> (r: ValueChallenge)
        ensures
            r == self.issued_value_challenge(),
    {
        self.value_challenge
    }

    /// Commits the sum of the `T_1`s, then that of the `T_2`s, and draws the
    /// evaluation point `x`.
    pub fn receive_poly_commitments(
        self,
        poly_commitments: &Vec<PolyCommitment>,
        transcript: &mut ProofTranscript,
    ) -> (r: Result<(DealerAwaitingShares, PolyChallenge), (DealerAwaitingPoly, DealerError)>)
        ensures
            match r {
                Ok((next, challenge)) => {
                    let pre = polys_transcript(old(transcript)@, poly_commitments@);
                    &&& poly_commitments@.len() == self.party_count()
                    &&& challenge.x == challenge_of(pre)
                    &&& final(transcript)@ == after_challenge(pre)
                    &&& next.bit_width() == self.bit_width()
                    &&& next.party_count() == self.party_count()
                    &&& next.issued_value_challenge() == self.issued_value_challenge()
                    &&& next.issued_poly_challenge() == challenge
                },
                Err((back, e)) => {
                    &&& poly_commitments@.len() != self.party_count()
                    &&& e == DealerError::LengthMismatch
                    &&& back == self
                    &&& final(transcript)@ == old(transcript)@
                },
            },
    {
        if self.m != poly_commitments.len() {
            return Err((self, DealerError::LengthMismatch));
        }
        let mut t1_list: Vec<RistrettoPoint> = Vec::new();
        let mut t2_list: Vec<RistrettoPoint> = Vec::new();
        let mut i: usize = 0;
        while i < poly_commitments.len()
            invariant
                i <= poly_commitments@.len(),
                t1_list@ == polys_T1(poly_commitments@.take(i as int)),
                t2_list@ == polys_T2(poly_commitments@.take(i as int)),
            decreases poly_commitments.len() - i,
        {
            t1_list.push(poly_commitments[i].T_1);
            t2_list.push(poly_commitments[i].T_2);
            proof {
                let cs = poly_commitments@;
                assert(t1_list@ =~= polys_T1(cs.take(i as int + 1)));
                assert(t2_list@ =~= polys_T2(cs.take(i as int + 1)));
            }
            i = i + 1;
        }
        proof {
            assert(poly_commitments@.take(i as int) =~= poly_commitments@);
        }
        let T1 = aggregate_points(&t1_list);
        let T2 = aggregate_points(&t2_list);
        let t1_bytes = compress_point(&T1);
        transcript.commit(&t1_bytes);
        let t2_bytes = compress_point(&T2);
        transcript.commit(&t2_bytes);
        let x = transcript.challenge_scalar();
        let poly_challenge = PolyChallenge { x };
        Ok((
            DealerAwaitingShares {
                n: self.n,
                m: self.m,
                value_challenge: self.value_challenge,
                poly_challenge,
            },
            poly_challenge,
        ))
    }
}

/// The dealer after the second challenge, awaiting the parties' shares.
#[derive(Debug)]
pub struct DealerAwaitingShares {
    n: usize,
    m: usize,
    value_challenge: ValueChallenge,
    poly_challenge: PolyChallenge,
}

impl DealerAwaitingShares {
    /// The number of bits of each value.
    pub closed spec fn bit_width(&self) -> usize {
        self.n
    }

    /// The number of parties.
    pub closed spec fn party_count(&self) -> usize {
        self.m
    }

    /// The challenges issued after the value commitments.
    pub closed spec fn issued_value_challenge(&self) -> ValueChallenge {
        self.value_challenge
    }

    /// The challenge issued after the polynomial commitments.
    pub closed spec fn issued_poly_challenge(&self) -> PolyChallenge {
        self.poly_challenge
    }

    /// The number of bits of each value.
    pub fn n(&self) -> (r: usize)
        ensures
            r == self.bit_width(),
    {
        self.n
    }

    /// The number of parties.
    pub fn m(&self) -> (r: usize)
        ensures
            r == self.party_count(),
    {
        self.m
    }

    /// The challenges issued after the value commitments.
    pub fn value_challenge(&self) -> (r: ValueChallenge)
        ensures
            r == self.issued_value_challenge(),
    {
        self.value_challenge
    }

    /// The challenge issued after the polynomial commitments.
    pub fn poly_challenge(&self) -> (r: PolyChallenge)
        ensures
            r == self.issued_poly_challenge(),
    {
        self.poly_challenge
    }

    /// Takes each party's share, with the verdict of its check against the
    /// issued challenges (`share_checks[j]` for `proof_shares[j]`). When every
    /// share passes, sums the commitments and scalars, commits the three
    /// summed scalars, draws `w`, and returns the proof together with the
    /// input of the inner-product argument: `Q = w * B`, the inverse of `y`,
    /// the generators, and the concatenated `l` and `r` vectors.
    pub fn receive_shares(
        self,
        proof_shares: &Vec<ProofShare>,
        share_checks: &Vec<bool>,
        gen: &GeneratorsView,
        transcript: &mut ProofTranscript,
    ) -> (r: Result<(Proof, InnerProductInput), (DealerAwaitingShares, DealerError)>)
        ensures
            match r {
                Ok((proof, ipp)) => {
                    let ps = proof_shares@;
                    let pre = shares_transcript(old(transcript)@, ps);
                    &&& ps.len() == self.party_count()
                    &&& share_checks@.len() == self.party_count()
                    &&& forall|j: int| 0 <= j < share_checks@.len() ==> share_checks@[j]
                    &&& proof.n == self.bit_width()
                    &&& proof.value_commitments@ == shares_V(ps)
                    &&& proof.A == sum_points(shares_A(ps))
                    &&& proof.S == sum_points(shares_S(ps))
                    &&& proof.T_1 == sum_points(shares_T1(ps))
                    &&& proof.T_2 == sum_points(shares_T2(ps))
                    &&& proof.t_x == sum_scalars(shares_t_x(ps))
                    &&& proof.t_x_blinding == sum_scalars(shares_t_x_blinding(ps))
                    &&& proof.e_blinding == sum_scalars(shares_e_blinding(ps))
                    &&& ipp.Q == scaled_point(challenge_of(pre), gen.B)
                    &&& ipp.y_inv == scalar_inverse(self.issued_value_challenge().y)
                    &&& ipp.G@ == gen.G@
                    &&& ipp.H@ == gen.H@
                    &&& ipp.l_vec@ == concat_l(ps)
                    &&& ipp.r_vec@ == concat_r(ps)
                    &&& final(transcript)@ == after_challenge(pre)
                },
                Err((back, e)) => {
                    let lengths_ok = proof_shares@.len() == self.party_count()
                        && share_checks@.len() == self.party_count();
                    &&& back == self
                    &&& final(transcript)@ == old(transcript)@
                    &&& (e == DealerError::LengthMismatch) == !lengths_ok
                    &&& (e == DealerError::InvalidShare) == (lengths_ok && exists|j: int|
                        0 <= j < share_checks@.len() && !share_checks@[j])
                },
            },
    {
        if self.m != proof_shares.len() || self.m != share_checks.len() {
            return Err((self, DealerError::LengthMismatch));
        }
        let mut j: usize = 0;
        while j < share_checks.len()
            invariant
                j <= share_checks@.len(),
                proof_shares@.len() == self.m,
                share_checks@.len() == self.m,
                forall|k: int| 0 <= k < j ==> share_checks@[k],
            decreases share_checks.len() - j,
        {
            if !share_checks[j] {
                assert(!share_checks@[j as int]);
                return Err((self, DealerError::InvalidShare));
            }
            j = j + 1;
        }
        let ghost ps = proof_shares@;
        let mut v_list: Vec<RistrettoPoint> = Vec::new();
        let mut a_list: Vec<RistrettoPoint> = Vec::new();
        let mut s_list: Vec<RistrettoPoint> = Vec::new();
        let mut t1_list: Vec<RistrettoPoint> = Vec::new();
        let mut t2_list: Vec<RistrettoPoint> = Vec::new();
        let mut tx_list: Vec<Scalar> = Vec::new();
        let mut txb_list: Vec<Scalar> = Vec::new();
        let mut eb_list: Vec<Scalar> = Vec::new();
        let mut l_vec: Vec<Scalar> = Vec::new();
        let mut r_vec: Vec<Scalar> = Vec::new();
        let mut i: usize = 0;
        while i < proof_shares.len()
            invariant
                ps == proof_shares@,
                i <= ps.len(),
                v_list@ == shares_V(ps.take(i as int)),
                a_list@ == shares_A(ps.take(i as int)),
                s_list@ == shares_S(ps.take(i as int)),
                t1_list@ == shares_T1(ps.take(i as int)),
                t2_list@ == shares_T2(ps.take(i as int)),
                tx_list@ == shares_t_x(ps.take(i as int)),
                txb_list@ == shares_t_x_blinding(ps.take(i as int)),
                eb_list@ == shares_e_blinding(ps.take(i as int)),
                l_vec@ == concat_l(ps.take(i as int)),
                r_vec@ == concat_r(ps.take(i as int)),
            decreases ps.len() - i,
        {
            let share = &proof_shares[i];
            v_list.push(share.value_commitment.V);
            a_list.push(share.value_commitment.A);
            s_list.push(share.value_commitment.S);
            t1_list.push(share.poly_commitment.T_1);
            t2_list.push(share.poly_commitment.T_2);
            tx_list.push(share.t_x);
            txb_list.push(share.t_x_blinding);
            eb_list.push(share.e_blinding);
            append_scalars(&mut l_vec, &share.l_vec);
            append_scalars(&mut r_vec, &share.r_vec);
            proof {
                let next = ps.take(i as int + 1);
                assert(next.drop_last() =~= ps.take(i as int));
                assert(v_list@ =~= shares_V(next));
                assert(a_list@ =~= shares_A(next));
                assert(s_list@ =~= shares_S(next));
                assert(t1_list@ =~= shares_T1(next));
                assert(t2_list@ =~= shares_T2(next));
                assert(tx_list@ =~= shares_t_x(next));
                assert(txb_list@ =~= shares_t_x_blinding(next));
                assert(eb_list@ =~= shares_e_blinding(next));
            }
            i = i + 1;
        }
        proof {
            assert(ps.take(i as int) =~= ps);
        }
        let A = aggregate_points(&a_list);
        let S = aggregate_points(&s_list);
        let T_1 = aggregate_points(&t1_list);
        let T_2 = aggregate_points(&t2_list);
        let t_x = aggregate_scalars(&tx_list);
        let t_x_blinding = aggregate_scalars(&txb_list);
        let e_blinding = aggregate_scalars(&eb_list);
        let tx_bytes = scalar_to_bytes(&t_x);
        transcript.commit(&tx_bytes);
        let txb_bytes = scalar_to_bytes(&t_x_blinding);
        transcript.commit(&txb_bytes);
        let eb_bytes = scalar_to_bytes(&e_blinding);
        transcript.commit(&eb_bytes);
        let w = transcript.challenge_scalar();
        let Q = scale_point(&w, &gen.B);
        let y_inv = invert_scalar(&self.value_challenge.y);
        let G = copy_points(&gen.G);
        let H = copy_points(&gen.H);
        let proof = Proof {
            n: self.n,
            value_commitments: v_list,
            A,
            S,
            T_1,
            T_2,
            t_x,
            t_x_blinding,
            e_blinding,
        };
        Ok((proof, InnerProductInput { Q, y_inv, G, H, l_vec, r_vec }))
    }
}

} // verus!
