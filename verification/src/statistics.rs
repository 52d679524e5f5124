//! Security check and key statistics of a finished public discussion.

use crate::protocol::Fraction;
use crate::protocol::PublicDiscussionResult;
use crate::protocol::QExecutionResult;
use crate::protocol::QKDResult;
use crate::reconciliation::all_below;
use crate::reconciliation::is_discussion;
use vstd::prelude::*;

verus! {

/// The announced values agree pair by pair, as far as both lists reach.
pub open spec fn values_match(alice: Seq<bool>, bob: Seq<bool>) -> bool {
    forall|i: int| 0 <= i < alice.len() && i < bob.len() ==> alice[i] == bob[i]
}

/// Sender and receiver hold different bits for this round.
pub open spec fn is_mismatch(record: QExecutionResult) -> bool {
    record.alice_value != record.bob_value
}

/// Sender and receiver hold the same bit for this round, and the
/// eavesdropper measured that bit.
pub open spec fn is_known_to_eve(record: QExecutionResult) -> bool {
    record.alice_value == record.bob_value && record.eve_value == Some(record.alice_value)
}

/// The rounds, by index, with a mismatch.
pub open spec fn mismatch_at(records: Seq<QExecutionResult>) -> spec_fn(usize) -> bool {
    |i: usize| is_mismatch(records[i as int])
}

/// The rounds, by index, whose bit the eavesdropper knows.
pub open spec fn known_at(records: Seq<QExecutionResult>) -> spec_fn(usize) -> bool {
    |i: usize| is_known_to_eve(records[i as int])
}

/// Number of key bits on which sender and receiver disagree.
pub open spec fn mismatched_bits(records: Seq<QExecutionResult>, key: Seq<usize>) -> nat {
    key.filter(mismatch_at(records)).len()
}

/// Number of key bits that the eavesdropper knows.
pub open spec fn eve_known_bits(records: Seq<QExecutionResult>, key: Seq<usize>) -> nat {
    key.filter(known_at(records)).len()
}

/// The verdict that a discussion outcome leads to. An aborted run has no key
/// length and no error rate. A secure run has both, unless its key is empty:
/// then the error rate is absent. The eavesdropper's knowledge is zero
/// wherever the error rate is absent.
pub open spec fn verdict(discussion: PublicDiscussionResult) -> QKDResult {
    let records = discussion.results@;
    let key = discussion.indexes_to_key@;
    if !values_match(discussion.alice_public_values@, discussion.bob_public_values@) {
        QKDResult {
            is_considered_secure: false,
            key_length: None,
            quantum_bit_error_rate: None,
            eve_key_knowledge: Fraction::zero(),
        }
    } else if key.len() == 0 {
        QKDResult {
            is_considered_secure: true,
            key_length: Some(0usize),
            quantum_bit_error_rate: None,
            eve_key_knowledge: Fraction::zero(),
        }
    } else {
        QKDResult {
            is_considered_secure: true,
            key_length: Some(key.len() as usize),
            quantum_bit_error_rate: Some(
                Fraction {
                    numerator: mismatched_bits(records, key) as usize,
                    denominator: key.len() as usize,
                },
            ),
            eve_key_knowledge: Fraction {
                numerator: eve_known_bits(records, key) as usize,
                denominator: key.len() as usize,
            },
        }
    }
}

/// Compares the announced values pair by pair; a list that is longer than the
/// other is compared as far as the other reaches.
pub fn check_public_values(alice_public_values: &Vec<bool>, bob_public_values: &Vec<bool>) -> (secure:
    bool)
    ensures
        secure == values_match(alice_public_values@, bob_public_values@),
{
    let mut i: usize = 0;
    while i < alice_public_values.len() && i < bob_public_values.len()
        invariant
            forall|j: int| 0 <= j < i ==> alice_public_values@[j] == bob_public_values@[j],
        decreases alice_public_values.len() - i,
    {
        if alice_public_values[i] != bob_public_values[i] {
            return false;
        }
        i += 1;
    }
    true
}

/// Counts, over the key rounds, the mismatched bits and the bits that the
/// eavesdropper knows. No round counts as both.
pub fn key_statistics(results: &Vec<QExecutionResult>, indexes_to_key: &Vec<usize>) -> (counts: (
    usize,
    usize,
))
    requires
        all_below(indexes_to_key@, results@.len()),
    ensures
        counts.0 == mismatched_bits(results@, indexes_to_key@),
        counts.1 == eve_known_bits(results@, indexes_to_key@),
        counts.0 + counts.1 <= indexes_to_key.len(),
{
    let mut mismatched: usize = 0;
    let mut known: usize = 0;
    let mut k: usize = 0;
    proof {
        assert(indexes_to_key@.take(0) =~= Seq::<usize>::empty());
        reveal(Seq::filter);
    }
    while k < indexes_to_key.len()
        invariant
            k <= indexes_to_key.len(),
            all_below(indexes_to_key@, results@.len()),
            mismatched == mismatched_bits(results@, indexes_to_key@.take(k as int)),
            known == eve_known_bits(results@, indexes_to_key@.take(k as int)),
            mismatched + known <= k,
        decreases indexes_to_key.len() - k,
    {
        let i: usize = indexes_to_key[k];
        let record = results[i];
        proof {
            let prefix = indexes_to_key@.take(k as int);
            assert(indexes_to_key@.take(k + 1) =~= prefix.push(i));
            prefix.lemma_filter_len_push(mismatch_at(results@), i);
            prefix.lemma_filter_len_push(known_at(results@), i);
        }
        if record.alice_value != record.bob_value {
            mismatched += 1;
        } else {
            let eve_knows = match record.eve_value {
                Some(value) => value == record.alice_value,
                None => false,
            };
            if eve_knows {
                known += 1;
            }
        }
        k += 1;
    }
    assert(indexes_to_key@.take(k as int) =~= indexes_to_key@);
    (mismatched, known)
}

/// Performs the security check on the announced values and, if it passes,
/// computes the statistics of the key. The key indexes are read only when
/// the check passes; then each must name one of the records.
pub fn evaluate_discussion(discussion: PublicDiscussionResult) -> (result: QKDResult)
    requires
        values_match(discussion.alice_public_values@, discussion.bob_public_values@)
            ==> discussion.key_in_range(),
    ensures
        result == verdict(discussion),
        result.wf(),
{
    let is_considered_secure = check_public_values(
        &discussion.alice_public_values,
        &discussion.bob_public_values,
    );
    if !is_considered_secure {
        return QKDResult {
            is_considered_secure,
            key_length: None,
            quantum_bit_error_rate: None,
            eve_key_knowledge: Fraction { numerator: 0, denominator: 1 },
        };
    }
    let key_length: usize = discussion.indexes_to_key.len();
    if key_length == 0 {
        return QKDResult {
            is_considered_secure,
            key_length: Some(key_length),
            quantum_bit_error_rate: None,
            eve_key_knowledge: Fraction { numerator: 0, denominator: 1 },
        };
    }
    let (mismatched, known) = key_statistics(&discussion.results, &discussion.indexes_to_key);
    QKDResult {
        is_considered_secure,
        key_length: Some(key_length),
        quantum_bit_error_rate: Some(Fraction { numerator: mismatched, denominator: key_length }),
        eve_key_knowledge: Fraction { numerator: known, denominator: key_length },
    }
}

/// Where sender and receiver hold the same bit in every round, any
/// discussion of the run passes the security check, and no key bit is
/// mismatched: the error rate, where the key is not empty, is zero.
pub proof fn lemma_undisturbed_run_is_secure(
    records: Seq<QExecutionResult>,
    usable: Set<usize>,
    checked: Seq<usize>,
    outcome: PublicDiscussionResult,
)
    requires
        forall|i: int|
            0 <= i < records.len() ==> (#[trigger] records[i]).alice_value == records[i].bob_value,
        forall|i: usize| usable.contains(i) ==> i < records.len(),
        is_discussion(records, usable, checked, outcome),
    ensures
        verdict(outcome).is_considered_secure,
        verdict(outcome).key_length == Some(outcome.indexes_to_key@.len() as usize),
        mismatched_bits(records, outcome.indexes_to_key@) == 0,
        match verdict(outcome).quantum_bit_error_rate {
            Some(rate) => rate.numerator == 0,
            None => outcome.indexes_to_key@.len() == 0,
        },
{
    let key = outcome.indexes_to_key@;
    assert forall|k: int| 0 <= k < checked.len() implies #[trigger] checked[k] < records.len() by {
        assert(checked.to_set().contains(checked[k]));
        assert(checked.to_set().union(key.to_set()).contains(checked[k]));
    }
    assert forall|k: int| 0 <= k < key.len() implies #[trigger] key[k] < records.len() by {
        assert(key.to_set().contains(key[k]));
        assert(checked.to_set().union(key.to_set()).contains(key[k]));
    }
    assert(values_match(outcome.alice_public_values@, outcome.bob_public_values@));
    let mismatch = mismatch_at(records);
    assert(key.all(|i: usize| !mismatch(i)));
    key.lemma_all_neg_filter_empty(mismatch);
}

/// Where no round was intercepted, the eavesdropper knows no key bit,
/// whichever rounds are kept for the key.
pub proof fn lemma_unobserved_run_leaks_nothing(discussion: PublicDiscussionResult)
    requires
        forall|i: int|
            0 <= i < discussion.results@.len() ==> (#[trigger] discussion.results@[i]).eve_value
                is None,
        discussion.key_in_range(),
    ensures
        eve_known_bits(discussion.results@, discussion.indexes_to_key@) == 0,
        verdict(discussion).eve_key_knowledge.numerator == 0,
{
    let key = discussion.indexes_to_key@;
    let known = known_at(discussion.results@);
    assert forall|k: int| 0 <= k < key.len() implies !known(#[trigger] key[k]) by {
        assert(key[k] < discussion.results@.len());
        assert(discussion.results@[key[k] as int].eve_value is None);
    }
    assert(key.all(|i: usize| !known(i)));
    key.lemma_all_neg_filter_empty(known);
}

/// A discussion that checked nothing and kept nothing still passes the
/// security check; its key has length zero and no error rate.
pub proof fn lemma_empty_discussion(discussion: PublicDiscussionResult)
    requires
        discussion.alice_public_values@.len() == 0 || discussion.bob_public_values@.len() == 0,
        discussion.indexes_to_key@.len() == 0,
    ensures
        verdict(discussion).is_considered_secure,
        verdict(discussion).key_length == Some(0usize),
        verdict(discussion).quantum_bit_error_rate is None,
        verdict(discussion).eve_key_knowledge == Fraction::zero(),
{
}

} // verus!
