//! The proof protocol skeleton: proof-kind variants, a deterministic
//! transcript, and a commitment over a column's scalar image. The core
//! depends only on these shapes; the cryptographic construction of real
//! commitments and proofs is an external capability.

use vstd::prelude::*;
use crate::scalar::{Scalar, FIELD_MODULUS};

verus! {

/// The base by which a digest is shifted before absorbing each message.
pub const DIGEST_BASE: u64 = 1099511628211;

/// A proof for a structural pass-through operator: its output is a
/// deterministic transform of its children's already-proven output, so
/// verification reduces to the children's proofs and a structural check.
#[derive(Debug, Clone, Copy, PartialEq, Eq, Structural)]
pub struct TrivialProof {}

/// The proof kinds of plan-level operators.
#[derive(Debug, Clone, Copy, PartialEq, Eq, Structural)]
pub enum ExecutionPlanProof {
    TrivialProof(TrivialProof),
}

/// A proof attached to one wrapped operator node.
#[derive(Debug, Clone, Copy, PartialEq, Eq, Structural)]
pub enum DataFusionProof {
    ExecutionPlanProof(ExecutionPlanProof),
}

/// The digest of a message sequence: a left fold, shifting by
/// `DIGEST_BASE` and reducing into the scalar field at each step.
pub open spec fn fold_digest(s: Seq<u64>) -> int
    decreases s.len(),
{
    if s.len() == 0 {
        0
    } else {
        (fold_digest(s.drop_last()) * DIGEST_BASE + s.last()) % (FIELD_MODULUS as int)
    }
}

fn digest_step(acc: u64, m: u64) -> (r: u64)
    requires
        acc < FIELD_MODULUS,
    ensures
        r == ((acc * DIGEST_BASE + m) % (FIELD_MODULUS as int)),
        r < FIELD_MODULUS,
{
    proof {
        assert((acc as int) * (DIGEST_BASE as int) < (FIELD_MODULUS as int) * (DIGEST_BASE as int))
            by (nonlinear_arith)
            requires
                acc < FIELD_MODULUS,
        ;
    }
    let p: u128 = (acc as u128) * (DIGEST_BASE as u128) + (m as u128);
    let r: u128 = p % (FIELD_MODULUS as u128);
    r as u64
}

/// A transcript accumulates prover/verifier messages; a challenge is a
/// deterministic digest of everything absorbed so far (Fiat–Shamir
/// style), so prover and verifier derive identical challenges from
/// identical message sequences.
#[derive(Debug)]
pub struct Transcript {
    messages: Vec<u64>,
}

impl View for Transcript {
    type V = Seq<u64>;

    closed spec fn view(&self) -> Seq<u64> {
        self.messages@
    }
}

impl Transcript {
    pub fn new() -> (r: Transcript)
        ensures
            r@ =~= Seq::<u64>::empty(),
    {
        let t = Transcript { messages: Vec::new() };
        proof {
            assert(t@ =~= Seq::<u64>::empty());
        }
        t
    }

    /// Absorbs one message.
    pub fn append_message(&mut self, m: u64)
        ensures
            final(self)@ == old(self)@.push(m),
    {
        self.messages.push(m);
    }

    /// The challenge derived from everything absorbed so far.
    pub fn challenge(&self) -> (r: u64)
        ensures
            r == fold_digest(self@),
            r < FIELD_MODULUS,
    {
        let n = self.messages.len();
        let mut acc: u64 = 0;
        let mut i: usize = 0;
        while i < n
            invariant
                n == self@.len(),
                i <= n,
                acc < FIELD_MODULUS,
                acc == fold_digest(self@.take(i as int)),
            decreases n - i,
        {
            acc = digest_step(acc, self.messages[i]);
            proof {
                assert(self@.take(i + 1).drop_last() =~= self@.take(i as int));
                assert(self@.take(i + 1).last() == self@[i as int]);
            }
            i += 1;
        }
        proof {
            assert(self@.take(n as int) =~= self@);
        }
        acc
    }
}

/// A commitment: a short digest binding a column's scalar image. Equal
/// values give equal commitments by construction; that unequal values
/// give unequal digests is the binding property of the external
/// commitment scheme this skeleton stands for.
#[derive(Debug, Clone, Copy, PartialEq, Eq, Structural)]
pub struct Commitment {
    pub digest: u64,
}

/// Commits to a column's scalar image: the digest of its values in order.
pub fn commit(values: &Vec<Scalar>) -> (r: Commitment)
    requires
        forall|i: int| 0 <= i < values@.len() ==> (#[trigger] values@[i]).wf(),
    ensures
        r.digest == fold_digest(values@.map_values(|s: Scalar| s.value)),
{
    let ghost m = values@.map_values(|s: Scalar| s.value);
    let n = values.len();
    let mut acc: u64 = 0;
    let mut i: usize = 0;
    while i < n
        invariant
            n == values@.len(),
            m == values@.map_values(|s: Scalar| s.value),
            i <= n,
            acc < FIELD_MODULUS,
            acc == fold_digest(m.take(i as int)),
        decreases n - i,
    {
        acc = digest_step(acc, values[i].value);
        proof {
            assert(m.take(i + 1).drop_last() =~= m.take(i as int));
            assert(m.take(i + 1).last() == m[i as int]);
        }
        i += 1;
    }
    proof {
        assert(m.take(n as int) =~= m);
    }
    Commitment { digest: acc }
}

} // verus!
