//! Reporting how a whole run ended.
//!
//! All chains share one registry and run side by side.  The run is over when every
//! chain has ended; it failed if any chain failed, and the failure that was seen
//! first is the one reported.  A chain whose process was ended by the sweep of
//! another chain reports that end as a failure like any other: such failures are
//! not told apart from the one that caused the sweep, they only come later.

use crate::error::{result_view, ChainError, ChainErrorView};
use vstd::prelude::*;

verus! {

/// The first failure among `results`; success if none of them is a failure.
pub open spec fn first_failure(results: Seq<Result<(), ChainErrorView>>) -> Result<
    (),
    ChainErrorView,
>
    decreases results.len(),
{
    if results.len() == 0 {
        Ok(())
    } else if results[0] is Err {
        results[0]
    } else {
        first_failure(results.drop_first())
    }
}

/// The results of the chains as mathematical values, in the same order.
pub open spec fn results_view(results: Seq<Result<(), ChainError>>) -> Seq<
    Result<(), ChainErrorView>,
> {
    results.map_values(|result: Result<(), ChainError>| result_view(result))
}

/// `first_failure` is a success exactly when every result is one; otherwise it is
/// the failure at the least index that holds one.
pub proof fn lemma_first_failure(results: Seq<Result<(), ChainErrorView>>)
    ensures
        first_failure(results) is Ok <==> forall|i: int|
            0 <= i < results.len() ==> results[i] is Ok,
        first_failure(results) is Err ==> exists|k: int|
            0 <= k < results.len() && results[k] == first_failure(results) && forall|j: int|
                0 <= j < k ==> results[j] is Ok,
    decreases results.len(),
{
    if results.len() > 0 && results[0] is Ok {
        let rest = results.drop_first();
        lemma_first_failure(rest);
        if first_failure(rest) is Err {
            let k = choose|k: int|
                0 <= k < rest.len() && rest[k] == first_failure(rest) && forall|j: int|
                    0 <= j < k ==> rest[j] is Ok;
            assert forall|j: int| 0 <= j < k + 1 implies results[j] is Ok by {
                if j > 0 {
                    assert(rest[j - 1] is Ok);
                }
            }
        } else {
            assert forall|i: int| 0 <= i < results.len() implies results[i] is Ok by {
                if i > 0 {
                    assert(rest[i - 1] is Ok);
                }
            }
        }
    }
}

/// The result of the whole run, from the results of its chains in the order in
/// which the chains ended: the first failure, or success if no chain failed.
pub fn overall_result(results: Vec<Result<(), ChainError>>) -> (overall: Result<(), ChainError>)
    ensures
        result_view(overall) == first_failure(results_view(results@)),
{
    let ghost all = results_view(results@);
    let mut rest = results;
    let mut overall: Result<(), ChainError> = Ok(());
    while rest.len() > 0
        invariant
            rest@.len() <= all.len(),
            results_view(rest@) == all.take(rest@.len() as int),
            result_view(overall) == first_failure(all.skip(rest@.len() as int)),
        decreases rest.len(),
    {
        let ghost before = rest@;
        let last = rest.pop().unwrap();
        proof {
            let n = rest@.len() as int;
            assert(results_view(before)[n] == result_view(last));
            assert(all.skip(n).drop_first() == all.skip(n + 1));
        }
        if last.is_err() {
            overall = last;
        }
    }
    proof {
        assert(all.skip(0) == all);
    }
    overall
}

/// The exit code that stands for `overall`: 0 for success, 1 for failure.
pub fn exit_code(overall: &Result<(), ChainError>) -> (code: i32)
    ensures
        overall is Ok ==> code == 0,
        overall is Err ==> code == 1,
{
    match overall {
        Ok(_) => 0,
        Err(_) => 1,
    }
}

} // verus!
