//! Records produced by the quantum rounds and by the public discussion.

use vstd::prelude::*;

verus! {

/// Outcome of one quantum round: what the sender encoded, what the receiver
/// measured, and what an eavesdropper measured if it acted on the qubit.
#[derive(Clone, Copy, Debug, PartialEq, Eq)]
pub struct QExecutionResult {
    /// Bit value chosen by the sender.
    pub alice_value: bool,
    /// Index of the basis the sender encoded in.
    pub alice_basis: usize,
    /// Bit value measured by the receiver.
    pub bob_value: bool,
    /// Index of the basis the receiver measured in.
    pub bob_basis: usize,
    /// Bit value measured by the eavesdropper, if it intercepted the qubit.
    pub eve_value: Option<bool>,
    /// Index of the basis the eavesdropper measured in, if it intercepted.
    pub eve_basis: Option<usize>,
}

impl QExecutionResult {
    /// Builds a record from its six components.
    pub fn new(
        alice_value: bool,
        alice_basis: usize,
        bob_value: bool,
        bob_basis: usize,
        eve_value: Option<bool>,
        eve_basis: Option<usize>,
    ) -> (record: Self)
        ensures
            record == (QExecutionResult {
                alice_value,
                alice_basis,
                bob_value,
                bob_basis,
                eve_value,
                eve_basis,
            }),
    {
        QExecutionResult { alice_value, alice_basis, bob_value, bob_basis, eve_value, eve_basis }
    }
}

/// Outcome of the public discussion: the values that both parties revealed
/// for the rounds they sacrificed, the rounds kept for the key, and the
/// records the statistics are read from.
#[derive(Debug)]
pub struct PublicDiscussionResult {
    /// Values the sender announced, one per checked round.
    pub alice_public_values: Vec<bool>,
    /// Values the receiver announced, aligned with the sender's.
    pub bob_public_values: Vec<bool>,
    /// Indexes of the rounds whose bits form the key.
    pub indexes_to_key: Vec<usize>,
    /// The round records, as the discussion left them.
    pub results: Vec<QExecutionResult>,
}

impl PublicDiscussionResult {
    /// Both parties announced the same number of values.
    pub open spec fn paired(&self) -> bool {
        self.alice_public_values.len() == self.bob_public_values.len()
    }

    /// Every key index names one of the records.
    pub open spec fn key_in_range(&self) -> bool {
        forall|k: int|
            0 <= k < self.indexes_to_key.len() ==> #[trigger] self.indexes_to_key@[k]
                < self.results.len()
    }

    /// The announced values are paired and the key indexes are in range.
    pub open spec fn wf(&self) -> bool {
        self.paired() && self.key_in_range()
    }

    /// Tells whether every key index names one of the records.
    pub fn is_key_in_range(&self) -> (in_range: bool)
        ensures
            in_range == self.key_in_range(),
    {
        let mut k: usize = 0;
        while k < self.indexes_to_key.len()
            invariant
                k <= self.indexes_to_key.len(),
                forall|j: int|
                    0 <= j < k ==> #[trigger] self.indexes_to_key@[j] < self.results.len(),
            decreases self.indexes_to_key.len() - k,
        {
            if self.indexes_to_key[k] >= self.results.len() {
                return false;
            }
            k += 1;
        }
        true
    }

    /// Tells whether the outcome is well formed.
    pub fn is_well_formed(&self) -> (well_formed: bool)
        ensures
            well_formed == self.wf(),
    {
        self.alice_public_values.len() == self.bob_public_values.len() && self.is_key_in_range()
    }
}

/// An exact rate: `numerator` out of `denominator`.
#[derive(Clone, Copy, Debug, PartialEq, Eq)]
pub struct Fraction {
    /// How many bits were counted.
    pub numerator: usize,
    /// Out of how many.
    pub denominator: usize,
}

impl Fraction {
    /// The rate lies between zero and one, and its denominator is not zero.
    pub open spec fn wf(&self) -> bool {
        0 < self.denominator && self.numerator <= self.denominator
    }

    /// The rate zero.
    pub open spec fn zero() -> Fraction {
        Fraction { numerator: 0, denominator: 1 }
    }
}

/// Verdict of a run and the statistics of its key.
#[derive(Clone, Copy, Debug, PartialEq, Eq)]
pub struct QKDResult {
    /// Whether every publicly compared pair of values matched.
    pub is_considered_secure: bool,
    /// Number of key bits; absent when the run was aborted.
    pub key_length: Option<usize>,
    /// Share of key bits on which sender and receiver disagree; absent when
    /// the run was aborted or the key is empty.
    pub quantum_bit_error_rate: Option<Fraction>,
    /// Share of key bits on which sender and receiver agree and which the
    /// eavesdropper measured as they hold it; zero when the run was aborted or
    /// the key is empty.
    pub eve_key_knowledge: Fraction,
}

impl QKDResult {
    /// The rates are proper fractions of the key length, and the key length
    /// is present exactly when the run is considered secure.
    pub open spec fn wf(&self) -> bool {
        &&& self.key_length is Some <==> self.is_considered_secure
        &&& self.eve_key_knowledge.wf()
        &&& match self.quantum_bit_error_rate {
            Some(rate) => {
                &&& rate.wf()
                &&& self.key_length == Some(rate.denominator)
                &&& self.eve_key_knowledge.denominator == rate.denominator
                &&& rate.numerator + self.eve_key_knowledge.numerator <= rate.denominator
            },
            None => self.eve_key_knowledge == Fraction::zero() && (self.key_length is Some
                ==> self.key_length == Some(0usize)),
        }
    }
}

} // verus!
