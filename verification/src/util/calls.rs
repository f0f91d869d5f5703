use vstd::prelude::*;

verus! {

/// Runs a widget's functionality: one call of the closure it was given, as
/// `FnMut::call_mut` does it. Nothing is claimed of what the call returns.
#[verifier::external_body]
pub(crate) fn run_functionality<T: FnMut() -> Result<(), String> + ?Sized>(f: &mut T) -> (r: Result<(), String>) {
    f()
}

/// A success without a value is `Ok(())`.
pub proof fn lemma_ok_is_unit(r: Result<(), String>)
    requires
        r is Ok,
    ensures
        r == Ok::<(), String>(()),
{
    let x = r->Ok_0;
    assert(x == ());
    assert(r == Ok::<(), String>(x));
}

/// The calls `plan`, each made and each succeeding.
pub open spec fn succeeded<A>(plan: Seq<A>) -> Seq<(A, Result<(), String>)> {
    plan.map_values(|a: A| (a, Ok::<(), String>(())))
}

/// `made` is what came of making the calls of `plan` in order, each with what
/// it returned, stopping at the first that fails, and `r` is what the run
/// returns: with `r` a success, every call was made and succeeded; else the
/// calls made are a start of the plan, of which only the last failed, and `r`
/// is what that call returned.
pub open spec fn calls_made<A>(made: Seq<(A, Result<(), String>)>, plan: Seq<A>, r: Result<(), String>) -> bool {
    if r is Ok {
        made == succeeded(plan)
    } else {
        &&& 1 <= made.len() <= plan.len()
        &&& made.drop_last() == succeeded(plan.take(made.len() - 1))
        &&& made.last() == (plan[made.len() - 1], r)
    }
}

/// Making the calls `now` after the calls `done` all succeeded.
pub proof fn lemma_calls_made_after<A>(
    done: Seq<A>,
    now: Seq<A>,
    made: Seq<(A, Result<(), String>)>,
    r: Result<(), String>,
)
    requires
        calls_made(made, now, r),
    ensures
        calls_made(succeeded(done) + made, done + now, r),
{
    assert(succeeded(done + now) == succeeded(done) + succeeded(now));
    if r is Err {
        assert((succeeded(done) + made).drop_last() == succeeded(done) + made.drop_last());
        assert((done + now).take(done.len() + made.len() - 1) == done + now.take(made.len() - 1));
        assert(succeeded(done + now.take(made.len() - 1)) == succeeded(done) + succeeded(
            now.take(made.len() - 1),
        ));
    }
}

/// A failed run of the start of a plan is a failed run of the plan.
pub proof fn lemma_calls_made_prefix<A>(
    made: Seq<(A, Result<(), String>)>,
    plan: Seq<A>,
    whole: Seq<A>,
    r: Result<(), String>,
)
    requires
        r is Err,
        calls_made(made, plan, r),
        plan.is_prefix_of(whole),
    ensures
        calls_made(made, whole, r),
{
    assert(whole.take(made.len() - 1) == plan.take(made.len() - 1));
}

/// Law: a run of a plan that calls anything starts with the plan's first call.
pub proof fn lemma_calls_made_first<A>(made: Seq<(A, Result<(), String>)>, plan: Seq<A>, r: Result<(), String>)
    requires
        calls_made(made, plan, r),
        plan.len() > 0,
    ensures
        made.len() >= 1,
        made[0].0 == plan[0],
{
    if r is Err && made.len() > 1 {
        assert(made.drop_last()[0] == made[0]);
    }
}

/// Law: a run that fails returns what its last call returned, and every call
/// before that one succeeded.
pub proof fn lemma_calls_made_error<A>(made: Seq<(A, Result<(), String>)>, plan: Seq<A>, r: Result<(), String>)
    requires
        calls_made(made, plan, r),
        r is Err,
    ensures
        made.len() >= 1,
        made.last().1 == r,
        forall|k: int| 0 <= k < made.len() - 1 ==> #[trigger] made[k].1 == Ok::<(), String>(()),
{
    assert forall|k: int| 0 <= k < made.len() - 1 implies #[trigger] made[k].1 == Ok::<(), String>(()) by {
        assert(made[k] == made.drop_last()[k]);
    }
}

/// A failed run recorded after the calls `all.take(n)` leaves as the last
/// recorded call the one that failed, with what the run returns.
pub proof fn lemma_error_is_last<A>(all: Seq<(A, Result<(), String>)>, n: int, plan: Seq<A>, r: Result<(), String>)
    requires
        0 <= n <= all.len(),
        calls_made(all.skip(n), plan, r),
        r is Err,
    ensures
        all.len() > n,
        all.last().1 == r,
{
    assert(all.skip(n).last() == all.last());
}

} // verus!
