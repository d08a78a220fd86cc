//! Undoing a disruption whatever happens in between.

use vstd::prelude::*;

verus! {

/// What a body and a restore come to: the body's failure goes first.
pub open spec fn settled<T, E>(body: Result<T, E>, restore: Result<(), E>) -> Result<T, E> {
    match (body, restore) {
        (Ok(value), Ok(_)) => Ok(value),
        (Err(error), _) => Err(error),
        (Ok(_), Err(error)) => Err(error),
    }
}

/// Whether a result is that of a body that ran between a disruption and its
/// restore. A disruption that failed is not restored; any other one is, whatever
/// the body came to, and with the restore's own budget.
pub open spec fn restored<T, E, D, R, B>(
    disrupt: D,
    restore: R,
    restore_budget: u64,
    body: B,
    result: Result<T, E>,
) -> bool where
    D: FnOnce() -> Result<(), E>,
    R: FnOnce(u64) -> Result<(), E>,
    B: FnOnce() -> Result<T, E>,
{
    exists|disrupted: Result<(), E>|
        {
            &&& #[trigger] disrupt.ensures((), disrupted)
            &&& match disrupted {
                Err(error) => result == Err::<T, E>(error),
                Ok(_) => exists|did: Result<T, E>, undid: Result<(), E>|
                    #[trigger] body.ensures((), did) && #[trigger] restore.ensures(
                        (restore_budget,),
                        undid,
                    ) && result == settled(did, undid),
            }
        }
}

/// Run a destructive action, then `body`, and always restore.
///
/// The order is part of it: a caller owes that `body` can run only once the
/// disruption succeeded, and that `restore` can run only once `body` did, whatever
/// that came to. So a disruption that failed is followed by neither.
///
/// `restore` uses `restore_budget`, in milliseconds, never the caller's
/// remaining body budget. That is the radio-cycle invariant: a timed-out body is
/// exactly when restore must still run.
pub fn with_restore<T, E, D, R, B>(disrupt: D, restore: R, restore_budget: u64, body: B) -> (result:
    Result<T, E>) where
    D: FnOnce() -> Result<(), E>,
    R: FnOnce(u64) -> Result<(), E>,
    B: FnOnce() -> Result<T, E>,

    requires
        disrupt.requires(()),
        forall|disrupted: Result<(), E>| #[trigger]
            disrupt.ensures((), disrupted) && disrupted is Ok ==> body.requires(()),
        forall|did: Result<T, E>| #[trigger]
            body.ensures((), did) ==> restore.requires((restore_budget,)),
    ensures
        restored(disrupt, restore, restore_budget, body, result),
{
    let disrupted: Result<(), E> = disrupt();
    match disrupted {
        Ok(_) => {},
        Err(error) => {
            assert(disrupt.ensures((), disrupted));
            return Err(error);
        },
    }
    let body_result: Result<T, E> = body();
    let restore_result: Result<(), E> = restore(restore_budget);
    assert(disrupt.ensures((), disrupted));
    assert(body.ensures((), body_result) && restore.ensures((restore_budget,), restore_result));
    match (body_result, restore_result) {
        (Ok(value), Ok(_)) => Ok(value),
        (Err(error), _) => Err(error),
        (Ok(_), Err(error)) => Err(error),
    }
}

} // verus!
