//! The result aggregator: splits a sequence of outcomes into its successes
//! and its failures.

use vstd::prelude::*;

verus! {

/// The successful values of a sequence of outcomes, in the order they came in.
pub open spec fn successes<A, B>(outcomes: Seq<Result<A, B>>) -> Seq<A>
    decreases outcomes.len(),
{
    if outcomes.len() == 0 {
        Seq::empty()
    } else {
        let front = successes(outcomes.drop_last());
        match outcomes.last() {
            Ok(value) => front.push(value),
            Err(_) => front,
        }
    }
}

/// The failures of a sequence of outcomes, in the order they came in.
pub open spec fn failures<A, B>(outcomes: Seq<Result<A, B>>) -> Seq<B>
    decreases outcomes.len(),
{
    if outcomes.len() == 0 {
        Seq::empty()
    } else {
        let front = failures(outcomes.drop_last());
        match outcomes.last() {
            Ok(_) => front,
            Err(error) => front.push(error),
        }
    }
}

/// Splits outcomes into the list of successes and the list of failures. Each
/// outcome lands in exactly one of the two lists, and each list keeps the
/// relative order the outcomes came in.
pub fn partition_results<A, B>(outcomes: Vec<Result<A, B>>) -> (parts: (Vec<A>, Vec<B>))
    ensures
        parts.0@ == successes(outcomes@),
        parts.1@ == failures(outcomes@),
        parts.0@.len() + parts.1@.len() == outcomes@.len(),
{
    proof {
        lemma_partition_total(outcomes@);
    }
    let mut oks: Vec<A> = Vec::new();
    let mut errs: Vec<B> = Vec::new();
    let ghost all = outcomes@;
    for outcome in it: outcomes
        invariant
            it.seq() == all,
            oks@ == successes(all.take(it.index() as int)),
            errs@ == failures(all.take(it.index() as int)),
    {
        proof {
            assert(all.take(it.index() + 1).drop_last() == all.take(it.index() as int));
        }
        match outcome {
            Ok(value) => oks.push(value),
            Err(error) => errs.push(error),
        }
    }
    proof {
        assert(all.take(all.len() as int) == all);
    }
    (oks, errs)
}

/// An outcome with `on_success` applied to a success and `on_failure` to a
/// failure.
pub open spec fn map_outcome<A, B, C, D>(
    outcome: Result<A, B>,
    on_success: spec_fn(A) -> C,
    on_failure: spec_fn(B) -> D,
) -> Result<C, D> {
    match outcome {
        Ok(value) => Ok(on_success(value)),
        Err(error) => Err(on_failure(error)),
    }
}

/// Partitioning commutes with a change of the values: to map every outcome
/// and then partition is to partition and then map each list.
pub proof fn lemma_partition_map<A, B, C, D>(
    outcomes: Seq<Result<A, B>>,
    on_success: spec_fn(A) -> C,
    on_failure: spec_fn(B) -> D,
)
    ensures
        successes(
            outcomes.map_values(|outcome: Result<A, B>| map_outcome(outcome, on_success, on_failure)),
        ) == successes(outcomes).map_values(on_success),
        failures(
            outcomes.map_values(|outcome: Result<A, B>| map_outcome(outcome, on_success, on_failure)),
        ) == failures(outcomes).map_values(on_failure),
    decreases outcomes.len(),
{
    let mapped = outcomes.map_values(
        |outcome: Result<A, B>| map_outcome(outcome, on_success, on_failure),
    );
    if outcomes.len() > 0 {
        lemma_partition_map(outcomes.drop_last(), on_success, on_failure);
        assert(mapped.drop_last() =~= outcomes.drop_last().map_values(
            |outcome: Result<A, B>| map_outcome(outcome, on_success, on_failure),
        ));
    }
}

/// Every outcome lands in exactly one of the two lists.
pub proof fn lemma_partition_total<A, B>(outcomes: Seq<Result<A, B>>)
    ensures
        successes(outcomes).len() + failures(outcomes).len() == outcomes.len(),
    decreases outcomes.len(),
{
    if outcomes.len() > 0 {
        lemma_partition_total(outcomes.drop_last());
    }
}

} // verus!
