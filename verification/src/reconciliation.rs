//! Public discussion: which rounds are usable, how the usable rounds are
//! split into a checked half and a key half, and what is announced.

use crate::catalog::Reconciliation;
use crate::protocol::PublicDiscussionResult;
use crate::protocol::QExecutionResult;
use crate::utils::suffle_and_split;
use vstd::prelude::*;

verus! {

/// Sender and receiver used the basis of the same index.
pub open spec fn bases_agree(record: QExecutionResult) -> bool {
    record.alice_basis == record.bob_basis
}

/// The receiver's measurement was conclusive.
pub open spec fn is_conclusive(record: QExecutionResult) -> bool {
    record.bob_value
}

/// Indexes of the rounds in which the bases agree.
pub open spec fn agreeing_set(records: Seq<QExecutionResult>) -> Set<usize> {
    Set::new(|i: usize| i < records.len() && bases_agree(records[i as int]))
}

/// Indexes of the rounds with a conclusive measurement.
pub open spec fn conclusive_set(records: Seq<QExecutionResult>) -> Set<usize> {
    Set::new(|i: usize| i < records.len() && is_conclusive(records[i as int]))
}

/// The indexes stand in strictly ascending order.
pub open spec fn ascending(indexes: Seq<usize>) -> bool {
    forall|j: int, k: int| 0 <= j < k < indexes.len() ==> indexes[j] < indexes[k]
}

/// A record as the conclusive-measurement protocol reads it: the sender's bit
/// is the basis she used, and the bit of a conclusive round is the complement
/// of the basis the receiver measured in.
pub open spec fn reinterpreted(record: QExecutionResult) -> QExecutionResult {
    QExecutionResult {
        alice_value: record.alice_basis == 1,
        bob_value: if record.bob_value {
            1 - record.bob_basis == 1
        } else {
            record.bob_value
        },
        ..record
    }
}

/// The rewrite pass over a whole run.
pub open spec fn reinterpreted_all(records: Seq<QExecutionResult>) -> Seq<QExecutionResult> {
    Seq::new(records.len(), |i: int| reinterpreted(records[i]))
}

/// The sender's values at the given rounds, in the order of the indexes.
pub open spec fn alice_values_at(records: Seq<QExecutionResult>, indexes: Seq<usize>) -> Seq<
    bool,
> {
    Seq::new(indexes.len(), |k: int| records[indexes[k] as int].alice_value)
}

/// The receiver's values at the given rounds, in the order of the indexes.
pub open spec fn bob_values_at(records: Seq<QExecutionResult>, indexes: Seq<usize>) -> Seq<bool> {
    Seq::new(indexes.len(), |k: int| records[indexes[k] as int].bob_value)
}

/// Every index names one of `count` rounds.
pub open spec fn all_below(indexes: Seq<usize>, count: nat) -> bool {
    forall|k: int| 0 <= k < indexes.len() ==> #[trigger] indexes[k] < count
}

/// `checked` and `key` split the usable rounds: no round occurs twice, none
/// occurs in both, together they are exactly the usable rounds, and `checked`
/// holds half of them, rounded down.
pub open spec fn splits(usable: Set<usize>, checked: Seq<usize>, key: Seq<usize>) -> bool {
    &&& checked.no_duplicates()
    &&& key.no_duplicates()
    &&& checked.to_set().disjoint(key.to_set())
    &&& checked.to_set().union(key.to_set()) == usable
    &&& checked.len() == (checked.len() + key.len()) / 2
}

/// `outcome` is a public discussion of `records` in which the rounds of
/// `checked` were revealed and the usable rounds were `usable`.
pub open spec fn is_discussion(
    records: Seq<QExecutionResult>,
    usable: Set<usize>,
    checked: Seq<usize>,
    outcome: PublicDiscussionResult,
) -> bool {
    &&& outcome.results@ == records
    &&& splits(usable, checked, outcome.indexes_to_key@)
    &&& outcome.alice_public_values@ == alice_values_at(records, checked)
    &&& outcome.bob_public_values@ == bob_values_at(records, checked)
}

/// Lists, in ascending order, the rounds in which the bases agree.
pub fn agreeing_indexes(results: &Vec<QExecutionResult>) -> (indexes: Vec<usize>)
    ensures
        ascending(indexes@),
        indexes@.to_set() == agreeing_set(results@),
{
    let mut indexes: Vec<usize> = Vec::new();
    let mut i: usize = 0;
    while i < results.len()
        invariant
            i <= results.len(),
            ascending(indexes@),
            forall|k: int|
                0 <= k < indexes.len() ==> #[trigger] indexes@[k] < i && bases_agree(
                    results@[indexes@[k] as int],
                ),
            forall|m: usize|
                m < i && #[trigger] bases_agree(results@[m as int]) ==> indexes@.contains(m),
        decreases results.len() - i,
    {
        if results[i].alice_basis == results[i].bob_basis {
            let ghost before = indexes@;
            indexes.push(i);
            assert forall|m: usize|
                m < i + 1 && #[trigger] bases_agree(results@[m as int]) implies indexes@.contains(
                m,
            ) by {
                if m < i {
                    assert(before.contains(m));
                    let k = choose|k: int| 0 <= k < before.len() && before[k] == m;
                    assert(indexes@[k] == m);
                } else {
                    assert(indexes@[before.len() as int] == m);
                }
            }
        }
        i += 1;
    }
    assert(indexes@.to_set() =~= agreeing_set(results@));
    indexes
}

/// Lists, in ascending order, the rounds with a conclusive measurement.
pub fn conclusive_indexes(results: &Vec<QExecutionResult>) -> (indexes: Vec<usize>)
    ensures
        ascending(indexes@),
        indexes@.to_set() == conclusive_set(results@),
{
    let mut indexes: Vec<usize> = Vec::new();
    let mut i: usize = 0;
    while i < results.len()
        invariant
            i <= results.len(),
            ascending(indexes@),
            forall|k: int|
                0 <= k < indexes.len() ==> #[trigger] indexes@[k] < i && is_conclusive(
                    results@[indexes@[k] as int],
                ),
            forall|m: usize|
                m < i && #[trigger] is_conclusive(results@[m as int]) ==> indexes@.contains(m),
        decreases results.len() - i,
    {
        if results[i].bob_value {
            let ghost before = indexes@;
            indexes.push(i);
            assert forall|m: usize|
                m < i + 1 && #[trigger] is_conclusive(results@[m as int]) implies indexes@.contains(
                m,
            ) by {
                if m < i {
                    assert(before.contains(m));
                    let k = choose|k: int| 0 <= k < before.len() && before[k] == m;
                    assert(indexes@[k] == m);
                } else {
                    assert(indexes@[before.len() as int] == m);
                }
            }
        }
        i += 1;
    }
    assert(indexes@.to_set() =~= conclusive_set(results@));
    indexes
}

/// Rewrites every record as the conclusive-measurement protocol reads it.
pub fn reinterpret_b92(results: &Vec<QExecutionResult>) -> (rewritten: Vec<QExecutionResult>)
    ensures
        rewritten@ == reinterpreted_all(results@),
{
    let mut rewritten: Vec<QExecutionResult> = Vec::new();
    let mut i: usize = 0;
    while i < results.len()
        invariant
            i <= results.len(),
            rewritten.len() == i,
            forall|k: int| 0 <= k < i ==> #[trigger] rewritten@[k] == reinterpreted(results@[k]),
        decreases results.len() - i,
    {
        let record = results[i];
        let bob_value = if record.bob_value {
            record.bob_basis == 0
        } else {
            record.bob_value
        };
        rewritten.push(
            QExecutionResult {
                alice_value: record.alice_basis == 1,
                alice_basis: record.alice_basis,
                bob_value,
                bob_basis: record.bob_basis,
                eve_value: record.eve_value,
                eve_basis: record.eve_basis,
            },
        );
        i += 1;
    }
    assert(rewritten@ =~= reinterpreted_all(results@));
    rewritten
}

/// Announces both parties' values for the rounds of `indexes_to_check` and
/// keeps the rounds of `indexes_to_key` for the key.
pub fn disclose(
    results: Vec<QExecutionResult>,
    indexes_to_check: &Vec<usize>,
    indexes_to_key: Vec<usize>,
) -> (outcome: PublicDiscussionResult)
    requires
        all_below(indexes_to_check@, results@.len()),
    ensures
        outcome.results@ == results@,
        outcome.indexes_to_key@ == indexes_to_key@,
        outcome.alice_public_values@ == alice_values_at(results@, indexes_to_check@),
        outcome.bob_public_values@ == bob_values_at(results@, indexes_to_check@),
{
    let mut alice_public_values: Vec<bool> = Vec::new();
    let mut bob_public_values: Vec<bool> = Vec::new();
    let mut k: usize = 0;
    while k < indexes_to_check.len()
        invariant
            k <= indexes_to_check.len(),
            all_below(indexes_to_check@, results@.len()),
            alice_public_values.len() == k,
            bob_public_values.len() == k,
            forall|j: int|
                0 <= j < k ==> #[trigger] alice_public_values@[j]
                    == results@[indexes_to_check@[j] as int].alice_value,
            forall|j: int|
                0 <= j < k ==> #[trigger] bob_public_values@[j]
                    == results@[indexes_to_check@[j] as int].bob_value,
        decreases indexes_to_check.len() - k,
    {
        let i: usize = indexes_to_check[k];
        alice_public_values.push(results[i].alice_value);
        bob_public_values.push(results[i].bob_value);
        k += 1;
    }
    assert(alice_public_values@ =~= alice_values_at(results@, indexes_to_check@));
    assert(bob_public_values@ =~= bob_values_at(results@, indexes_to_check@));
    PublicDiscussionResult { alice_public_values, bob_public_values, indexes_to_key, results }
}

/// A rearrangement of a duplicate-free list, cut in two, splits the list's
/// elements: each lands in exactly one part, once.
pub proof fn lemma_rearrangement_splits(usable: Seq<usize>, checked: Seq<usize>, key: Seq<usize>)
    requires
        usable.no_duplicates(),
        (checked + key).to_multiset() == usable.to_multiset(),
    ensures
        checked.no_duplicates(),
        key.no_duplicates(),
        checked.to_set().disjoint(key.to_set()),
        checked.to_set().union(key.to_set()) == usable.to_set(),
        checked.len() + key.len() == usable.len(),
{
    broadcast use vstd::seq_lib::to_multiset_contains, vstd::seq_lib::to_multiset_len;

    let whole = checked + key;
    usable.lemma_multiset_has_no_duplicates();
    whole.lemma_multiset_has_no_duplicates_conv();
    assert(whole.to_multiset().len() == usable.to_multiset().len());
    assert(whole.len() == usable.len());
    assert forall|i: int, j: int| 0 <= i < checked.len() && 0 <= j < checked.len() && i
        != j implies checked[i] != checked[j] by {
        assert(whole[i] == checked[i] && whole[j] == checked[j]);
    }
    assert forall|i: int, j: int| 0 <= i < key.len() && 0 <= j < key.len() && i
        != j implies key[i] != key[j] by {
        assert(whole[checked.len() + i] == key[i] && whole[checked.len() + j] == key[j]);
    }
    assert forall|x: usize| !(checked.to_set().contains(x) && key.to_set().contains(x)) by {
        if checked.contains(x) && key.contains(x) {
            let i = choose|i: int| 0 <= i < checked.len() && checked[i] == x;
            let j = choose|j: int| 0 <= j < key.len() && key[j] == x;
            assert(whole[i] == x && whole[checked.len() + j] == x);
        }
    }
    assert forall|x: usize|
        checked.to_set().union(key.to_set()).contains(x) <==> usable.to_set().contains(x) by {
        assert(usable.contains(x) <==> usable.to_multiset().count(x) > 0);
        assert(whole.contains(x) <==> whole.to_multiset().count(x) > 0);
        if checked.contains(x) {
            let i = choose|i: int| 0 <= i < checked.len() && checked[i] == x;
            assert(whole[i] == x);
        }
        if key.contains(x) {
            let j = choose|j: int| 0 <= j < key.len() && key[j] == x;
            assert(whole[checked.len() + j] == x);
        }
        if whole.contains(x) {
            let i = choose|i: int| 0 <= i < whole.len() && whole[i] == x;
            if i < checked.len() {
                assert(checked[i] == x);
            } else {
                assert(key[i - checked.len()] == x);
            }
        }
    }
    assert(checked.to_set().union(key.to_set()) =~= usable.to_set());
}

/// An ascending list holds nothing twice.
pub proof fn lemma_ascending_no_duplicates(indexes: Seq<usize>)
    requires
        ascending(indexes),
    ensures
        indexes.no_duplicates(),
{
    assert forall|i: int, j: int| 0 <= i < indexes.len() && 0 <= j < indexes.len() && i
        != j implies indexes[i] != indexes[j] by {
        if i < j {
            assert(indexes[i] < indexes[j]);
        } else {
            assert(indexes[j] < indexes[i]);
        }
    }
}

/// Shuffles the usable rounds, reveals the first half of them and keeps the
/// rest for the key.
fn split_and_disclose(
    results: Vec<QExecutionResult>,
    usable_indexes: Vec<usize>,
) -> (outcome: PublicDiscussionResult)
    requires
        ascending(usable_indexes@),
        all_below(usable_indexes@, results@.len()),
    ensures
        outcome.wf(),
        exists|checked: Seq<usize>|
            is_discussion(results@, usable_indexes@.to_set(), checked, outcome),
{
    let ghost usable = usable_indexes@;
    let (indexes_to_check, indexes_to_key) = suffle_and_split(usable_indexes);
    proof {
        lemma_ascending_no_duplicates(usable);
        lemma_rearrangement_splits(usable, indexes_to_check@, indexes_to_key@);
        assert forall|k: int| 0 <= k < indexes_to_check.len() implies #[trigger] indexes_to_check@[k]
            < results@.len() by {
            let x = indexes_to_check@[k];
            assert(indexes_to_check@.to_set().contains(x));
            assert(indexes_to_check@.to_set().union(indexes_to_key@.to_set()).contains(x));
            assert(usable.contains(x));
        }
        assert forall|k: int| 0 <= k < indexes_to_key.len() implies #[trigger] indexes_to_key@[k]
            < results@.len() by {
            let x = indexes_to_key@[k];
            assert(indexes_to_key@.to_set().contains(x));
            assert(indexes_to_check@.to_set().union(indexes_to_key@.to_set()).contains(x));
            assert(usable.contains(x));
        }
    }
    let outcome = disclose(results, &indexes_to_check, indexes_to_key);
    assert(is_discussion(results@, usable.to_set(), indexes_to_check@, outcome));
    outcome
}

/// Public discussion by basis agreement: the usable rounds are those in which
/// sender and receiver used the basis of the same index. They are shuffled;
/// the first half, rounded down, is revealed, the rest is kept for the key.
/// The records are handed on unchanged.
pub fn default_public_basis_discussion(results: &Vec<QExecutionResult>) -> (outcome:
    PublicDiscussionResult)
    ensures
        outcome.wf(),
        exists|checked: Seq<usize>|
            is_discussion(results@, agreeing_set(results@), checked, outcome),
{
    let eq_basis_indexes = agreeing_indexes(results);
    proof {
        assert forall|k: int| 0 <= k < eq_basis_indexes.len() implies #[trigger] eq_basis_indexes@[k]
            < results@.len() by {
            assert(eq_basis_indexes@.to_set().contains(eq_basis_indexes@[k]));
        }
    }
    let records = results.clone();
    assert(records@ =~= results@);
    split_and_disclose(records, eq_basis_indexes)
}

/// Public discussion by conclusive measurement: the usable rounds are those
/// in which the receiver measured `true`. Every record is first rewritten as
/// this protocol reads it; then the usable rounds are shuffled, the first half,
/// rounded down, is revealed from the rewritten records, and the rest is kept
/// for the key.
pub fn public_basis_discussion_b92(results: &Vec<QExecutionResult>) -> (outcome:
    PublicDiscussionResult)
    ensures
        outcome.wf(),
        exists|checked: Seq<usize>|
            is_discussion(
                reinterpreted_all(results@),
                conclusive_set(results@),
                checked,
                outcome,
            ),
{
    let conclusive = conclusive_indexes(results);
    proof {
        assert forall|k: int| 0 <= k < conclusive.len() implies #[trigger] conclusive@[k]
            < results@.len() by {
            assert(conclusive@.to_set().contains(conclusive@[k]));
        }
    }
    let rewritten = reinterpret_b92(results);
    split_and_disclose(rewritten, conclusive)
}

/// The rounds that a way of reconciling takes for usable.
pub open spec fn usable_set(strategy: Reconciliation, records: Seq<QExecutionResult>) -> Set<
    usize,
> {
    match strategy {
        Reconciliation::BasisAgreement => agreeing_set(records),
        Reconciliation::ConclusiveMeasurement => conclusive_set(records),
    }
}

/// The records as a way of reconciling hands them on.
pub open spec fn handed_on(strategy: Reconciliation, records: Seq<QExecutionResult>) -> Seq<
    QExecutionResult,
> {
    match strategy {
        Reconciliation::BasisAgreement => records,
        Reconciliation::ConclusiveMeasurement => reinterpreted_all(records),
    }
}

/// Holds the public discussion in the given way.
pub fn reconcile(strategy: Reconciliation, results: &Vec<QExecutionResult>) -> (outcome:
    PublicDiscussionResult)
    ensures
        outcome.wf(),
        exists|checked: Seq<usize>|
            is_discussion(
                handed_on(strategy, results@),
                usable_set(strategy, results@),
                checked,
                outcome,
            ),
{
    match strategy {
        Reconciliation::BasisAgreement => {
            let outcome = default_public_basis_discussion(results);
            proof {
                let checked = choose|checked: Seq<usize>|
                    is_discussion(results@, agreeing_set(results@), checked, outcome);
                assert(is_discussion(
                    handed_on(strategy, results@),
                    usable_set(strategy, results@),
                    checked,
                    outcome,
                ));
            }
            outcome
        },
        Reconciliation::ConclusiveMeasurement => {
            let outcome = public_basis_discussion_b92(results);
            proof {
                let checked = choose|checked: Seq<usize>|
                    is_discussion(
                        reinterpreted_all(results@),
                        conclusive_set(results@),
                        checked,
                        outcome,
                    );
                assert(is_discussion(
                    handed_on(strategy, results@),
                    usable_set(strategy, results@),
                    checked,
                    outcome,
                ));
            }
            outcome
        },
    }
}

/// Of the usable rounds, half are checked, rounded down, and the others are
/// kept: with an odd number of usable rounds the key gets one more.
pub proof fn lemma_split_sizes(usable: Set<usize>, checked: Seq<usize>, key: Seq<usize>)
    requires
        splits(usable, checked, key),
    ensures
        usable.finite(),
        checked.len() == usable.len() / 2,
        key.len() == usable.len() - usable.len() / 2,
{
    checked.unique_seq_to_set();
    key.unique_seq_to_set();
    vstd::seq_lib::seq_to_set_is_finite(checked);
    vstd::seq_lib::seq_to_set_is_finite(key);
    vstd::set_lib::lemma_set_disjoint_lens(checked.to_set(), key.to_set());
    assert(checked.to_set() + key.to_set() == checked.to_set().union(key.to_set()));
}

/// Basis-agreement discussion splits the agreeing rounds: no round is both
/// checked and kept for the key, and a round is checked or kept exactly when
/// sender and receiver used the basis of the same index in it.
pub proof fn lemma_agreeing_rounds_are_split(
    records: Seq<QExecutionResult>,
    checked: Seq<usize>,
    outcome: PublicDiscussionResult,
)
    requires
        is_discussion(records, agreeing_set(records), checked, outcome),
    ensures
        forall|i: usize| !(checked.contains(i) && outcome.indexes_to_key@.contains(i)),
        forall|i: usize|
            (checked.contains(i) || outcome.indexes_to_key@.contains(i)) <==> (i < records.len()
                && records[i as int].alice_basis == records[i as int].bob_basis),
        outcome.wf(),
{
    let key = outcome.indexes_to_key@;
    assert forall|i: usize| !(checked.contains(i) && key.contains(i)) by {
        assert(!(checked.to_set().contains(i) && key.to_set().contains(i)));
    }
    assert forall|i: usize|
        (checked.contains(i) || key.contains(i)) <==> (i < records.len()
            && records[i as int].alice_basis == records[i as int].bob_basis) by {
        assert(checked.to_set().union(key.to_set()).contains(i) <==> agreeing_set(
            records,
        ).contains(i));
    }
    assert forall|k: int| 0 <= k < key.len() implies #[trigger] key[k] < records.len() by {
        assert(key.contains(key[k]));
    }
}

/// Conclusive-measurement discussion keeps and checks conclusive rounds only,
/// each of them in exactly one of the two parts, and hands on every record
/// rewritten: the sender's bit says whether she used the basis of index 1,
/// and the bit of a conclusive round says whether the receiver used the basis
/// of index 0.
pub proof fn lemma_conclusive_rounds_are_split(
    records: Seq<QExecutionResult>,
    checked: Seq<usize>,
    outcome: PublicDiscussionResult,
)
    requires
        is_discussion(reinterpreted_all(records), conclusive_set(records), checked, outcome),
    ensures
        forall|i: usize| !(checked.contains(i) && outcome.indexes_to_key@.contains(i)),
        forall|i: usize|
            (checked.contains(i) || outcome.indexes_to_key@.contains(i)) <==> (i < records.len()
                && records[i as int].bob_value),
        outcome.results@.len() == records.len(),
        forall|i: int|
            0 <= i < records.len() ==> {
                let rewritten = #[trigger] outcome.results@[i];
                &&& rewritten.alice_value == (records[i].alice_basis == 1)
                &&& rewritten.bob_value == (records[i].bob_value && records[i].bob_basis == 0)
                &&& rewritten.alice_basis == records[i].alice_basis
                &&& rewritten.bob_basis == records[i].bob_basis
                &&& rewritten.eve_value == records[i].eve_value
                &&& rewritten.eve_basis == records[i].eve_basis
            },
        outcome.wf(),
{
    let key = outcome.indexes_to_key@;
    assert forall|i: usize| !(checked.contains(i) && key.contains(i)) by {
        assert(!(checked.to_set().contains(i) && key.to_set().contains(i)));
    }
    assert forall|i: usize|
        (checked.contains(i) || key.contains(i)) <==> (i < records.len()
            && records[i as int].bob_value) by {
        assert(checked.to_set().union(key.to_set()).contains(i) <==> conclusive_set(
            records,
        ).contains(i));
    }
    assert forall|k: int| 0 <= k < key.len() implies #[trigger] key[k] < records.len() by {
        assert(key.contains(key[k]));
    }
}

} // verus!
