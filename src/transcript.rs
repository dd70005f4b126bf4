//! A Fiat-Shamir transcript: a running byte string of tagged records from
//! which each challenge scalar is derived by hashing everything before it.
use curve25519_dalek::scalar::Scalar;
use sha2::Sha512;
use vstd::prelude::*;

verus! {

/// Tag that opens a record of a byte message.
pub const MESSAGE_TAG: u8 = 1;

/// Tag that opens a record of a 64-bit integer.
pub const INTEGER_TAG: u8 = 2;

/// Tag that marks the drawing of a challenge.
pub const CHALLENGE_TAG: u8 = 3;

/// The scalar obtained by hashing `data` with SHA-512 and reducing the digest
/// modulo the group order.
pub uninterp spec fn hashed_scalar(data: Seq<u8>) -> Scalar;

/// Relies on `Scalar::hash_from_bytes::<Sha512>`: a scalar that depends on the
/// bytes alone.
#[verifier::external_body]
fn hash_to_scalar(data: &Vec<u8>) -> (r: Scalar)
    ensures
        r == hashed_scalar(data@),
{
    Scalar::hash_from_bytes::<Sha512>(data.as_slice())
}

/// The `k` least significant bytes of `v`, least significant first.
pub open spec fn le_bytes(v: nat, k: nat) -> Seq<u8>
    decreases k,
{
    if k == 0 {
        Seq::empty()
    } else {
        seq![(v % 256) as u8] + le_bytes(v / 256, (k - 1) as nat)
    }
}

/// `256` to the power `k`: the bound below which `k` bytes hold a value.
pub open spec fn byte_bound(k: nat) -> nat
    decreases k,
{
    if k == 0 {
        1
    } else {
        256 * byte_bound((k - 1) as nat)
    }
}

/// Values below `256^k` have distinct `k`-byte encodings.
pub proof fn lemma_le_bytes_injective(a: nat, b: nat, k: nat)
    requires
        a < byte_bound(k),
        b < byte_bound(k),
        le_bytes(a, k) == le_bytes(b, k),
    ensures
        a == b,
    decreases k,
{
    if k > 0 {
        let k1 = (k - 1) as nat;
        let bound = byte_bound(k1);
        lemma_le_bytes_len(a, k);
        lemma_le_bytes_len(b, k);
        lemma_le_bytes_len(a / 256, k1);
        lemma_le_bytes_len(b / 256, k1);
        assert(le_bytes(a, k) == seq![(a % 256) as u8] + le_bytes(a / 256, k1));
        assert(le_bytes(b, k) == seq![(b % 256) as u8] + le_bytes(b / 256, k1));
        assert(le_bytes(a, k)[0] == (a % 256) as u8);
        assert(le_bytes(b, k)[0] == (b % 256) as u8);
        assert(((a % 256) as u8) as nat == a % 256);
        assert(((b % 256) as u8) as nat == b % 256);
        assert(a % 256 == b % 256);
        assert(le_bytes(a, k).subrange(1, k as int) =~= le_bytes(a / 256, k1));
        assert(le_bytes(b, k).subrange(1, k as int) =~= le_bytes(b / 256, k1));
        assert(a / 256 < bound) by (nonlinear_arith)
            requires
                a < 256 * bound,
        ;
        assert(b / 256 < bound) by (nonlinear_arith)
            requires
                b < 256 * bound,
        ;
        lemma_le_bytes_injective(a / 256, b / 256, k1);
        assert(a == 256 * (a / 256) + a % 256) by (nonlinear_arith);
        assert(b == 256 * (b / 256) + b % 256) by (nonlinear_arith);
    }
}

/// `k` bytes are written for a value.
pub proof fn lemma_le_bytes_len(v: nat, k: nat)
    ensures
        le_bytes(v, k).len() == k,
    decreases k,
{
    if k > 0 {
        lemma_le_bytes_len(v / 256, (k - 1) as nat);
    }
}

/// Distinct 64-bit integers leave distinct records.
pub proof fn lemma_integer_record_injective(a: u64, b: u64)
    requires
        integer_record(a) == integer_record(b),
    ensures
        a == b,
{
    lemma_le_bytes_len(a as nat, 8);
    lemma_le_bytes_len(b as nat, 8);
    assert(integer_record(a).subrange(1, 9) =~= le_bytes(a as nat, 8));
    assert(integer_record(b).subrange(1, 9) =~= le_bytes(b as nat, 8));
    assert(byte_bound(0) == 1);
    assert(byte_bound(1) == 0x100);
    assert(byte_bound(2) == 0x1_0000);
    assert(byte_bound(3) == 0x100_0000);
    assert(byte_bound(4) == 0x1_0000_0000);
    assert(byte_bound(5) == 0x100_0000_0000);
    assert(byte_bound(6) == 0x1_0000_0000_0000);
    assert(byte_bound(7) == 0x100_0000_0000_0000);
    assert(byte_bound(8) == 0x1_0000_0000_0000_0000);
    lemma_le_bytes_injective(a as nat, b as nat, 8);
}

/// The record that committing the message `m` appends.
pub open spec fn message_record(m: Seq<u8>) -> Seq<u8> {
    seq![MESSAGE_TAG] + le_bytes(m.len(), 8) + m
}

/// The record that committing the integer `v` appends.
pub open spec fn integer_record(v: u64) -> Seq<u8> {
    seq![INTEGER_TAG] + le_bytes(v as nat, 8)
}

/// The record that drawing a challenge appends.
pub open spec fn challenge_record() -> Seq<u8> {
    seq![CHALLENGE_TAG]
}

/// The transcript after drawing a challenge from `t`.
pub open spec fn after_challenge(t: Seq<u8>) -> Seq<u8> {
    t + challenge_record()
}

/// The challenge drawn from a transcript whose bytes are `t`.
pub open spec fn challenge_of(t: Seq<u8>) -> Scalar {
    hashed_scalar(after_challenge(t))
}

/// The running transcript of one protocol run.
pub struct ProofTranscript {
    data: Vec<u8>,
}

impl View for ProofTranscript {
    type V = Seq<u8>;

    closed spec fn view(&self) -> Seq<u8> {
        self.data@
    }
}

fn push_le_bytes(data: &mut Vec<u8>, v: u64)
    ensures
        final(data)@ == old(data)@ + le_bytes(v as nat, 8),
{
    let ghost start = data@;
    let mut x: u64 = v;
    let mut i: usize = 0;
    while i < 8
        invariant
            i <= 8,
            start + le_bytes(v as nat, 8) == data@ + le_bytes(x as nat, (8 - i) as nat),
        decreases 8 - i,
    {
        let ghost before = data@;
        data.push((x % 256) as u8);
        proof {
            let rest = le_bytes((x / 256) as nat, (8 - i - 1) as nat);
            assert(le_bytes(x as nat, (8 - i) as nat) == seq![(x % 256) as u8] + rest);
            assert(before + (seq![(x % 256) as u8] + rest) =~= data@ + rest);
        }
        x = x / 256;
        i = i + 1;
    }
    proof {
        assert(data@ + le_bytes(x as nat, 0) =~= data@);
    }
}

impl ProofTranscript {
    /// A transcript that starts with the record of `label`.
    pub fn new(label: &[u8]) -> (r: ProofTranscript)
        ensures
            r@ == message_record(label@),
    {
        let mut t = ProofTranscript { data: Vec::new() };
        t.commit(label);
        proof {
            assert(Seq::<u8>::empty() + message_record(label@) =~= message_record(label@));
        }
        t
    }

    /// The bytes recorded so far.
    pub fn as_bytes(&self) -> (r: &Vec<u8>)
        ensures
            r@ == self@,
    {
        &self.data
    }

    /// Appends the record of a byte message.
    pub fn commit(&mut self, message: &[u8])
        ensures
            final(self)@ == old(self)@ + message_record(message@),
    {
        let ghost start = self.data@;
        self.data.push(MESSAGE_TAG);
        push_le_bytes(&mut self.data, message.len() as u64);
        let mut i: usize = 0;
        while i < message.len()
            invariant
                i <= message.len(),
                self.data@ == start + seq![MESSAGE_TAG] + le_bytes(message@.len(), 8)
                    + message@.take(i as int),
            decreases message.len() - i,
        {
            self.data.push(message[i]);
            proof {
                assert(message@.take(i as int + 1) =~= message@.take(i as int).push(message@[i as int]));
            }
            i = i + 1;
        }
        proof {
            assert(message@.take(i as int) =~= message@);
            assert(start + seq![MESSAGE_TAG] + le_bytes(message@.len(), 8) + message@
                =~= start + message_record(message@));
        }
    }

    /// Appends the record of a 64-bit integer.
    pub fn commit_u64(&mut self, v: u64)
        ensures
            final(self)@ == old(self)@ + integer_record(v),
    {
        let ghost start = self.data@;
        self.data.push(INTEGER_TAG);
        push_le_bytes(&mut self.data, v);
        proof {
            assert(start + seq![INTEGER_TAG] + le_bytes(v as nat, 8) =~= start + integer_record(v));
        }
    }

    /// Draws a challenge scalar bound to everything committed so far.
    pub fn challenge_scalar(&mut self) -> (r: Scalar)
        ensures
            r == challenge_of(old(self)@),
            final(self)@ == after_challenge(old(self)@),
    {
        self.data.push(CHALLENGE_TAG);
        proof {
            assert(self.data@ =~= after_challenge(old(self)@));
        }
        hash_to_scalar(&self.data)
    }
}

} // verus!
