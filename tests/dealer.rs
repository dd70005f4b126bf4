use curve25519_dalek::constants::RISTRETTO_BASEPOINT_POINT;
use curve25519_dalek::ristretto::RistrettoPoint;
use curve25519_dalek::scalar::Scalar;
use curve25519_dalek::traits::Identity;
use range_proof_dealer::dealer::{
    Dealer, DealerAwaitingPoly, DealerAwaitingShares, DealerAwaitingValues,
};
use range_proof_dealer::group::{aggregate_points, aggregate_scalars};
use range_proof_dealer::messages::{
    DealerError, GeneratorsView, InnerProductInput, PolyChallenge, PolyCommitment, Proof,
    ProofShare, ValueChallenge, ValueCommitment,
};
use range_proof_dealer::transcript::ProofTranscript;
use sha2::Sha512;

fn point(k: u64) -> RistrettoPoint {
    RISTRETTO_BASEPOINT_POINT * Scalar::from(k)
}

fn value_commitment(seed: u64) -> ValueCommitment {
    ValueCommitment { V: point(seed), A: point(seed + 100), S: point(seed + 200) }
}

fn poly_commitment(seed: u64) -> PolyCommitment {
    PolyCommitment { T_1: point(seed + 300), T_2: point(seed + 400) }
}

fn scalars(start: u64, len: usize) -> Vec<Scalar> {
    (0..len as u64).map(|i| Scalar::from(start + i)).collect()
}

fn share(seed: u64, n: usize) -> ProofShare {
    ProofShare {
        value_commitment: value_commitment(seed),
        poly_commitment: poly_commitment(seed),
        t_x: Scalar::from(seed + 10),
        t_x_blinding: Scalar::from(seed + 20),
        e_blinding: Scalar::from(seed + 30),
        l_vec: scalars(seed * 1000, n),
        r_vec: scalars(seed * 1000 + 500, n),
    }
}

fn generators(len: usize) -> GeneratorsView {
    GeneratorsView {
        B: point(7),
        G: (0..len as u64).map(|i| point(5000 + i)).collect(),
        H: (0..len as u64).map(|i| point(6000 + i)).collect(),
    }
}

struct Run {
    value_challenge: ValueChallenge,
    poly_challenge: PolyChallenge,
    proof: Proof,
    ipp: InnerProductInput,
    transcript: Vec<u8>,
}

fn full_run(n: usize, seeds: &[u64], label: &[u8]) -> Run {
    let m = seeds.len();
    let mut t = ProofTranscript::new(label);
    let d = Dealer::new(n, m, &mut t).unwrap();
    let vcs: Vec<ValueCommitment> = seeds.iter().map(|s| value_commitment(*s)).collect();
    let (d, value_challenge) = d.receive_value_commitments(&vcs, &mut t).ok().unwrap();
    let pcs: Vec<PolyCommitment> = seeds.iter().map(|s| poly_commitment(*s)).collect();
    let (d, poly_challenge) = d.receive_poly_commitments(&pcs, &mut t).ok().unwrap();
    let shares: Vec<ProofShare> = seeds.iter().map(|s| share(*s, n)).collect();
    let checks = vec![true; m];
    let (proof, ipp) = d.receive_shares(&shares, &checks, &generators(n * m), &mut t).ok().unwrap();
    Run { value_challenge, poly_challenge, proof, ipp, transcript: t.as_bytes().clone() }
}

fn awaiting_values(n: usize, m: usize, t: &mut ProofTranscript) -> DealerAwaitingValues {
    Dealer::new(n, m, t).unwrap()
}

fn awaiting_poly(n: usize, seeds: &[u64], t: &mut ProofTranscript) -> DealerAwaitingPoly {
    let d = awaiting_values(n, seeds.len(), t);
    let vcs: Vec<ValueCommitment> = seeds.iter().map(|s| value_commitment(*s)).collect();
    d.receive_value_commitments(&vcs, t).ok().unwrap().0
}

fn awaiting_shares(n: usize, seeds: &[u64], t: &mut ProofTranscript) -> DealerAwaitingShares {
    let d = awaiting_poly(n, seeds, t);
    let pcs: Vec<PolyCommitment> = seeds.iter().map(|s| poly_commitment(*s)).collect();
    d.receive_poly_commitments(&pcs, t).ok().unwrap().0
}

#[test]
fn identical_runs_give_identical_challenges_and_proof() {
    let a = full_run(4, &[1, 2], b"shape");
    let b = full_run(4, &[1, 2], b"shape");
    assert_eq!(a.value_challenge.y, b.value_challenge.y);
    assert_eq!(a.value_challenge.z, b.value_challenge.z);
    assert_eq!(a.poly_challenge.x, b.poly_challenge.x);
    assert_eq!(a.ipp.Q, b.ipp.Q);
    assert_eq!(a.proof.A, b.proof.A);
    assert_eq!(a.proof.t_x, b.proof.t_x);
    assert_eq!(a.proof.value_commitments, b.proof.value_commitments);
    assert_eq!(a.ipp.l_vec, b.ipp.l_vec);
    assert_eq!(a.transcript, b.transcript);
}

#[test]
fn different_shape_gives_different_challenges() {
    let a = full_run(4, &[1, 2], b"shape");
    let b = full_run(8, &[1, 2], b"shape");
    assert_ne!(a.value_challenge.y, b.value_challenge.y);
    assert_ne!(a.value_challenge.z, b.value_challenge.z);
    assert_ne!(a.poly_challenge.x, b.poly_challenge.x);
}

#[test]
fn value_batch_of_wrong_length_is_refused() {
    let mut t = ProofTranscript::new(b"len");
    let d = awaiting_values(4, 2, &mut t);
    let before = t.as_bytes().clone();
    let vcs = vec![value_commitment(1), value_commitment(2), value_commitment(3)];
    let (back, e) = match d.receive_value_commitments(&vcs, &mut t) {
        Ok(_) => panic!("a batch of three was taken for two parties"),
        Err(x) => x,
    };
    assert_eq!(e, DealerError::LengthMismatch);
    assert_eq!(back.n(), 4);
    assert_eq!(back.m(), 2);
    assert_eq!(t.as_bytes(), &before);
    let retry = vec![value_commitment(1), value_commitment(2)];
    assert!(back.receive_value_commitments(&retry, &mut t).is_ok());
}

#[test]
fn poly_batch_of_wrong_length_is_refused() {
    let mut t = ProofTranscript::new(b"len");
    let d = awaiting_poly(4, &[1, 2], &mut t);
    let y = d.value_challenge().y;
    let before = t.as_bytes().clone();
    let (back, e) = match d.receive_poly_commitments(&vec![poly_commitment(1)], &mut t) {
        Ok(_) => panic!("a batch of one was taken for two parties"),
        Err(x) => x,
    };
    assert_eq!(e, DealerError::LengthMismatch);
    assert_eq!(back.n(), 4);
    assert_eq!(back.m(), 2);
    assert_eq!(back.value_challenge().y, y);
    assert_eq!(t.as_bytes(), &before);
}

#[test]
fn share_batch_of_wrong_length_is_refused() {
    let mut t = ProofTranscript::new(b"len");
    let d = awaiting_shares(4, &[1, 2], &mut t);
    let x = d.poly_challenge().x;
    let before = t.as_bytes().clone();
    let shares = vec![share(1, 4)];
    let (back, e) = match d.receive_shares(&shares, &vec![true], &generators(8), &mut t) {
        Ok(_) => panic!("a batch of one was taken for two parties"),
        Err(x) => x,
    };
    assert_eq!(e, DealerError::LengthMismatch);
    assert_eq!(back.m(), 2);
    assert_eq!(back.poly_challenge().x, x);
    assert_eq!(t.as_bytes(), &before);
    let shares = vec![share(1, 4), share(2, 4)];
    let (_, e) = match back.receive_shares(&shares, &vec![true], &generators(8), &mut t) {
        Ok(_) => panic!("one verdict was taken for two shares"),
        Err(x) => x,
    };
    assert_eq!(e, DealerError::LengthMismatch);
}

#[test]
fn empty_batch_for_parties_is_refused() {
    let mut t = ProofTranscript::new(b"len");
    let d = awaiting_values(4, 1, &mut t);
    let (_, e) = match d.receive_value_commitments(&Vec::new(), &mut t) {
        Ok(_) => panic!("an empty batch was taken for one party"),
        Err(x) => x,
    };
    assert_eq!(e, DealerError::LengthMismatch);
}

#[test]
fn aggregates_are_sums_committed_in_order() {
    let n = 4;
    let mut t = ProofTranscript::new(b"agg");
    let d = awaiting_values(n, 2, &mut t);
    let vcs = vec![value_commitment(1), value_commitment(2)];
    let (d, vc) = d.receive_value_commitments(&vcs, &mut t).ok().unwrap();
    let pcs = vec![poly_commitment(1), poly_commitment(2)];
    let (_, pc) = d.receive_poly_commitments(&pcs, &mut t).ok().unwrap();

    let mut e = ProofTranscript::new(b"agg");
    e.commit_u64(n as u64);
    e.commit_u64(2);
    e.commit(vcs[0].V.compress().as_bytes());
    e.commit(vcs[1].V.compress().as_bytes());
    e.commit((vcs[0].A + vcs[1].A).compress().as_bytes());
    e.commit((vcs[0].S + vcs[1].S).compress().as_bytes());
    assert_eq!(e.challenge_scalar(), vc.y);
    assert_eq!(e.challenge_scalar(), vc.z);
    e.commit((pcs[0].T_1 + pcs[1].T_1).compress().as_bytes());
    e.commit((pcs[0].T_2 + pcs[1].T_2).compress().as_bytes());
    assert_eq!(e.challenge_scalar(), pc.x);
    assert_eq!(e.as_bytes(), t.as_bytes());
}

#[test]
fn final_aggregates_sum_the_shares() {
    let run = full_run(4, &[1, 2], b"agg");
    let (s1, s2) = (share(1, 4), share(2, 4));
    let p = &run.proof;
    assert_eq!(p.n, 4);
    assert_eq!(p.value_commitments, vec![s1.value_commitment.V, s2.value_commitment.V]);
    assert_eq!(p.A, s1.value_commitment.A + s2.value_commitment.A);
    assert_eq!(p.S, s1.value_commitment.S + s2.value_commitment.S);
    assert_eq!(p.T_1, s1.poly_commitment.T_1 + s2.poly_commitment.T_1);
    assert_eq!(p.T_2, s1.poly_commitment.T_2 + s2.poly_commitment.T_2);
    assert_eq!(p.t_x, Scalar::from(11u64 + 12));
    assert_eq!(p.t_x_blinding, Scalar::from(21u64 + 22));
    assert_eq!(p.e_blinding, Scalar::from(31u64 + 32));
    assert_eq!(run.ipp.y_inv * run.value_challenge.y, Scalar::ONE);
}

#[test]
fn one_invalid_share_fails_the_round() {
    let mut t = ProofTranscript::new(b"bad");
    let d = awaiting_shares(4, &[1, 2, 3], &mut t);
    let before = t.as_bytes().clone();
    let shares = vec![share(1, 4), share(2, 4), share(3, 4)];
    let (back, e) = match d.receive_shares(&shares, &vec![true, false, true], &generators(12), &mut t) {
        Ok(_) => panic!("a proof was built over an invalid share"),
        Err(x) => x,
    };
    assert_eq!(e, DealerError::InvalidShare);
    assert_eq!(back.m(), 3);
    assert_eq!(t.as_bytes(), &before);
    assert!(back.receive_shares(&shares, &vec![true, true, true], &generators(12), &mut t).is_ok());
}

#[test]
fn vectors_are_concatenated_in_batch_order() {
    let run = full_run(4, &[1, 2], b"cat");
    let (s1, s2) = (share(1, 4), share(2, 4));
    assert_eq!(run.ipp.l_vec.len(), 8);
    assert_eq!(run.ipp.r_vec.len(), 8);
    let l: Vec<Scalar> = s1.l_vec.iter().chain(s2.l_vec.iter()).cloned().collect();
    let r: Vec<Scalar> = s1.r_vec.iter().chain(s2.r_vec.iter()).cloned().collect();
    assert_eq!(run.ipp.l_vec, l);
    assert_eq!(run.ipp.r_vec, r);
}

#[test]
fn single_party_end_to_end() {
    let n = 8;
    let run = full_run(n, &[5], b"e2e");
    let s = share(5, n);
    let gens = generators(n);
    assert_eq!(run.proof.t_x, s.t_x);
    assert_eq!(run.proof.t_x_blinding, s.t_x_blinding);
    assert_eq!(run.proof.e_blinding, s.e_blinding);
    assert_eq!(run.proof.A, s.value_commitment.A);
    assert_eq!(run.proof.S, s.value_commitment.S);
    assert_eq!(run.proof.T_1, s.poly_commitment.T_1);
    assert_eq!(run.proof.T_2, s.poly_commitment.T_2);
    assert_eq!(run.proof.value_commitments, vec![s.value_commitment.V]);
    assert_eq!(run.ipp.G, gens.G);
    assert_eq!(run.ipp.H, gens.H);
    assert_eq!(run.ipp.l_vec, s.l_vec);
    assert_eq!(run.ipp.r_vec, s.r_vec);

    let mut e = ProofTranscript::new(b"e2e");
    e.commit_u64(n as u64);
    e.commit_u64(1);
    e.commit(s.value_commitment.V.compress().as_bytes());
    e.commit(s.value_commitment.A.compress().as_bytes());
    e.commit(s.value_commitment.S.compress().as_bytes());
    e.challenge_scalar();
    e.challenge_scalar();
    e.commit(s.poly_commitment.T_1.compress().as_bytes());
    e.commit(s.poly_commitment.T_2.compress().as_bytes());
    e.challenge_scalar();
    e.commit(s.t_x.as_bytes());
    e.commit(s.t_x_blinding.as_bytes());
    e.commit(s.e_blinding.as_bytes());
    let w = e.challenge_scalar();
    assert_eq!(run.ipp.Q, w * gens.B);
    assert_ne!(run.ipp.Q, gens.B);
    assert_eq!(e.as_bytes(), &run.transcript);
}

#[test]
fn transcript_records_are_tagged_and_framed() {
    let mut t = ProofTranscript::new(b"");
    assert_eq!(t.as_bytes(), &vec![1u8, 0, 0, 0, 0, 0, 0, 0, 0]);
    t.commit_u64(0x0102);
    assert_eq!(&t.as_bytes()[9..], &[2u8, 2, 1, 0, 0, 0, 0, 0, 0]);
    t.commit(&[7u8, 8]);
    assert_eq!(&t.as_bytes()[18..], &[1u8, 2, 0, 0, 0, 0, 0, 0, 0, 7, 8]);
}

#[test]
fn challenge_hashes_the_transcript_and_marks_it() {
    let mut t = ProofTranscript::new(b"c");
    let mut input = t.as_bytes().clone();
    input.push(3);
    let c = t.challenge_scalar();
    assert_eq!(c, Scalar::hash_from_bytes::<Sha512>(&input));
    assert_eq!(t.as_bytes(), &input);
    let d = t.challenge_scalar();
    assert_ne!(c, d);
}

#[test]
fn aggregates_of_nothing_are_the_neutral_elements() {
    assert_eq!(aggregate_points(&Vec::new()), RistrettoPoint::identity());
    assert_eq!(aggregate_scalars(&Vec::new()), Scalar::ZERO);
    assert_eq!(aggregate_points(&vec![point(3), point(4)]), point(7));
    assert_eq!(aggregate_scalars(&vec![Scalar::from(3u64), Scalar::from(4u64)]), Scalar::from(7u64));
}
