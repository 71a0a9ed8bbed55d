//! The aggregation accumulator: an encrypted running sum that folds a
//! stream of ciphertexts into one without ever decrypting.

use vstd::prelude::*;

use crate::backend;
use crate::errors::CryptoError;
use crate::keys::{bytes_eq, PublicKey};
use crate::paillier::{paillier_add, Ciphertext};
use crate::wire;

verus! {

/// The state of one encrypted-sum aggregation group: either empty or a
/// single running ciphertext. Each instance is owned by exactly one
/// group; it never needs coordination with other groups.
#[derive(Debug)]
pub struct PaillierU64Sum {
    pub(crate) sum: Option<Ciphertext>,
}

impl View for PaillierU64Sum {
    type V = Option<Ciphertext>;

    /// The running ciphertext, if any value has been folded in.
    closed spec fn view(&self) -> Option<Ciphertext> {
        self.sum
    }
}

impl PaillierU64Sum {
    /// Well-formedness: a running ciphertext, if present, is itself
    /// well formed.
    pub open spec fn wf(self) -> bool {
        self@ is Some ==> self@->0.wf()
    }

    /// The plaintext residue the next accumulation under modulus `n`
    /// must carry: the incoming value alone for an empty state, else
    /// the running sum plus the incoming value, modulo `n`.
    pub open spec fn spec_next_value(self, v: Ciphertext, n: nat) -> int {
        match self@ {
            None => v.value() as int,
            Some(c) => ((c.value() + v.value()) as int) % (n as int),
        }
    }

    /// Creates an empty accumulator.
    pub fn new() -> (r: Self)
        ensures
            r@ is None,
    {
        PaillierU64Sum { sum: None }
    }

    /// Folds one ciphertext into the running sum.
    ///
    /// Every call of one fold must present the same public key: a
    /// ciphertext under any other key is rejected with
    /// `AccumulatorKeyMismatch` and the prior state is preserved, not
    /// merged.
    pub fn accumulate(&mut self, pk: &PublicKey, value: Ciphertext) -> (r: Result<
        (),
        CryptoError,
    >)
        requires
            old(self).wf(),
            pk.wf(),
            value.wf(),
        ensures
            final(self).wf(),
            r is Ok <==> value.under(*pk) && (old(self)@ is Some ==> old(self)@->0.under(*pk)),
            r is Err ==> final(self)@ == old(self)@ && r->Err_0
                == CryptoError::AccumulatorKeyMismatch,
            r is Ok ==> final(self)@ is Some && final(self)@->0.wf() && final(self)@->0.under(*pk)
                && final(self)@->0.value() as int == old(self).spec_next_value(
                value,
                pk.modulus(),
            ),
    {
        if !bytes_eq(value.key_id_ref(), pk.bytes()) {
            return Err(CryptoError::AccumulatorKeyMismatch);
        }
        match &self.sum {
            None => {
                self.sum = Some(value);
                Ok(())
            },
            Some(current) => {
                if !bytes_eq(current.key_id_ref(), pk.bytes()) {
                    return Err(CryptoError::AccumulatorKeyMismatch);
                }
                match paillier_add(pk, current, &value) {
                    Ok(next) => {
                        self.sum = Some(next);
                        Ok(())
                    },
                    Err(_) => {
                        proof {
                            assert(false);
                        }
                        Err(CryptoError::AccumulatorKeyMismatch)
                    },
                }
            },
        }
    }

    /// Reads the final state: nothing for an empty fold, else the
    /// running ciphertext in wire form.
    pub fn finalize(&self) -> (r: Option<Vec<u8>>)
        requires
            self.wf(),
        ensures
            r is Some <==> self@ is Some,
            r is None <==> self@ is None,
            r is Some ==> r->0@ == wire::spec_encode_ciphertext(self@->0) && r->0@.len()
                <= wire::CIPHERTEXT_MAX_SIZE,
    {
        match &self.sum {
            None => None,
            Some(current) => {
                proof {
                    wire::lemma_ciphertext_round_trip(self@->0);
                }
                Some(wire::encode_ciphertext(current))
            },
        }
    }

    /// Returns the accumulator to the empty state so that it can be
    /// reused across runs.
    pub fn reset(&mut self)
        ensures
            final(self)@ is None,
    {
        self.sum = None;
    }
}

impl Default for PaillierU64Sum {
    /// The empty accumulator.
    fn default() -> (r: Self)
        ensures
            r@ is None,
    {
        PaillierU64Sum { sum: None }
    }
}

/// The plain sum of a sequence of plaintext residues.
pub open spec fn seq_sum(vals: Seq<nat>) -> nat
    decreases vals.len(),
{
    if vals.len() == 0 {
        0
    } else {
        seq_sum(vals.drop_last()) + vals.last()
    }
}

/// The value-level fold that `accumulate` performs over a non-empty
/// stream: the first value enters unreduced, every later step adds and
/// reduces modulo `n`.
pub open spec fn fold_value(vals: Seq<nat>, n: nat) -> int
    decreases vals.len(),
{
    if vals.len() <= 1 {
        if vals.len() == 0 {
            0
        } else {
            vals[0] as int
        }
    } else {
        (fold_value(vals.drop_last(), n) + vals.last() as int) % (n as int)
    }
}

/// Accumulator-equivalence law: folding any non-empty sequence of
/// plaintexts below the modulus through the accumulator carries exactly
/// their sum modulo `n` — so decrypting the finalized ciphertext yields
/// `sum(vals) mod n`, and any grouping of the fold agrees.
pub proof fn lemma_fold_is_sum_mod(vals: Seq<nat>, n: nat)
    requires
        n > 0,
        vals.len() > 0,
        forall|i: int| 0 <= i < vals.len() ==> vals[i] < n,
    ensures
        fold_value(vals, n) == (seq_sum(vals) as int) % (n as int),
    decreases vals.len(),
{
    if vals.len() == 1 {
        vstd::arithmetic::div_mod::lemma_small_mod(vals[0], n);
        assert(seq_sum(vals) == seq_sum(vals.drop_last()) + vals.last());
        assert(seq_sum(vals.drop_last()) == 0);
    } else {
        lemma_fold_is_sum_mod(vals.drop_last(), n);
        let a = seq_sum(vals.drop_last()) as int;
        let b = vals.last() as int;
        vstd::arithmetic::div_mod::lemma_add_mod_noop_right(b, a, n as int);
        assert((b + a % (n as int)) % (n as int) == (b + a) % (n as int));
        assert(fold_value(vals, n) == (a % (n as int) + b) % (n as int));
        assert(seq_sum(vals) == a + b);
    }
}

/// Accumulator-equivalence law, composed with decryption: a well-formed
/// running ciphertext under `pk` whose value is the fold of the
/// plaintexts `vals` — which is what repeated `accumulate` calls
/// produce for the encryptions of `vals` — decrypts under the matching
/// private key to `sum(vals) mod n`; when that sum fits the 64-bit
/// domain it is the plain sum itself.
pub proof fn lemma_fold_decrypts_to_sum(
    pk: PublicKey,
    sk: crate::keys::PrivateKey,
    c: Ciphertext,
    vals: Seq<nat>,
)
    requires
        pk.wf(),
        sk.wf(),
        sk.matches(pk),
        c.wf(),
        c.under(pk),
        vals.len() > 0,
        forall|i: int| 0 <= i < vals.len() ==> vals[i] <= u64::MAX as nat,
        c.value() as int == fold_value(vals, pk.modulus()),
    ensures
        c.value() as int == (seq_sum(vals) as int) % (pk.modulus() as int),
        seq_sum(vals) <= u64::MAX as nat ==> crate::paillier::spec_decrypt(sk, c)
            == Ok::<u64, CryptoError>(seq_sum(vals) as u64),
{
    lemma_fold_is_sum_mod(vals, pk.modulus());
    if seq_sum(vals) <= u64::MAX as nat {
        vstd::arithmetic::div_mod::lemma_small_mod(seq_sum(vals), pk.modulus());
    }
}

/// Order-independence law: the plain sum of a sequence of residues is
/// invariant under reordering, so two folds of the same multiset of
/// plaintexts agree on the final value modulo `n`.
pub proof fn lemma_sum_permutation(s1: Seq<nat>, s2: Seq<nat>)
    requires
        s1.to_multiset() == s2.to_multiset(),
    ensures
        seq_sum(s1) == seq_sum(s2),
    decreases s1.len(),
{
    broadcast use vstd::multiset::group_multiset_axioms;

    s1.to_multiset_ensures();
    s2.to_multiset_ensures();
    if s1.len() == 0 {
        assert(s2.to_multiset().len() == 0);
        assert(s2.len() == 0);
    } else {
        let x = s1.last();
        let s1p = s1.drop_last();
        s1p.to_multiset_ensures();
        assert(s1 =~= s1p.push(x));
        assert(s1.to_multiset() =~= s1p.to_multiset().insert(x));
        assert(s2.to_multiset().count(x) > 0);
        assert(s2.contains(x));
        let j = choose|j: int| 0 <= j < s2.len() && s2[j] == x;
        let s2p = s2.remove(j);
        assert(s2p.to_multiset() =~= s2.to_multiset().remove(x));
        assert(s1p.to_multiset() =~= s2p.to_multiset()) by {
            assert forall|y: nat| s1p.to_multiset().count(y) == s2p.to_multiset().count(y) by {
                assert(s1.to_multiset().count(y) == s2.to_multiset().count(y));
            }
        }
        lemma_sum_permutation(s1p, s2p);
        lemma_sum_remove(s2, j);
        assert(seq_sum(s1) == seq_sum(s1p) + x);
    }
}

/// Removing one element subtracts exactly its value from the sum.
proof fn lemma_sum_remove(s: Seq<nat>, j: int)
    requires
        0 <= j < s.len(),
    ensures
        seq_sum(s) == seq_sum(s.remove(j)) + s[j],
    decreases s.len(),
{
    if j == s.len() - 1 {
        assert(s.remove(j) =~= s.drop_last());
    } else {
        let sp = s.drop_last();
        assert(s.remove(j).drop_last() =~= sp.remove(j));
        assert(s.remove(j).last() == s.last());
        lemma_sum_remove(sp, j);
    }
}

} // verus!
