//! Helpers shared by the pipeline implementations.
use vstd::prelude::*;

use crate::errors::{DispatchError, PipelineError, RescueFailure, StepFailure};
use crate::types::{taps_saw, PipelineResult, Sightings, Tap};

verus! {

/// `pe` is what converting the pipe error `e` into a [`PipelineError`] gives.
pub open spec fn converts<TError: Into<PipelineError>>(e: TError, pe: PipelineError) -> bool {
    call_ensures(TError::into, (e,), pe)
}

/// `result` is the pipe outcome `out` with its error, if any, converted into a
/// [`PipelineError`]; a successful value is kept as it is.
pub open spec fn settles<TPassable, TError: Into<PipelineError>>(
    out: Result<TPassable, TError>,
    result: PipelineResult<TPassable>,
) -> bool {
    match out {
        Ok(value) => result == Ok::<TPassable, PipelineError>(value),
        Err(e) => result matches Err(pe) && converts(e, pe),
    }
}

/// Converting an error of type `TError` into a [`PipelineError`] gives one
/// result for each error.
pub open spec fn converts_deterministically<TError: Into<PipelineError>>() -> bool {
    forall|e: TError, a: PipelineError, b: PipelineError|
        #[trigger] converts(e, a) && #[trigger] converts(e, b) ==> a == b
}

/// When the conversion gives one result for each error, an outcome settles to
/// one result.
pub proof fn lemma_settles_once<TPassable, TError: Into<PipelineError>>(
    out: Result<TPassable, TError>,
    first: PipelineResult<TPassable>,
    second: PipelineResult<TPassable>,
)
    requires
        converts_deterministically::<TError>(),
        settles(out, first),
        settles(out, second),
    ensures
        first == second,
{
    if let Err(e) = out {
        let a = first->Err_0;
        let b = second->Err_0;
        assert(converts(e, a) && converts(e, b));
    }
}

/// `items` with `item` added at the end when `condition` holds, and `items`
/// unchanged otherwise.
pub open spec fn appended_when<A>(item: A, condition: bool, items: Seq<A>) -> Seq<A> {
    if condition {
        items.push(item)
    } else {
        items
    }
}

/// The input that a pipeline starts from, or `InputMissing` when none was sent.
pub open spec fn required<TPassable>(passable: Option<TPassable>) -> PipelineResult<TPassable> {
    match passable {
        Some(value) => Ok(value),
        None => Err(PipelineError::InputMissing),
    }
}

/// Requires a pipeline input before execution starts.
///
/// Returns the input, or `Err(PipelineError::InputMissing)` when nothing was sent.
pub fn require_passable<TPassable>(passable: Option<TPassable>) -> (result: PipelineResult<
    TPassable,
>)
    ensures
        result == required(passable),
{
    match passable {
        Some(value) => Ok(value),
        None => Err(PipelineError::InputMissing),
    }
}

/// Runs every observer, in order, on the current value.
///
/// The record returned lists one call per observer, in the order in which the
/// observers were registered, each on `passable`.
pub fn run_taps<TPassable>(taps: &[Tap<TPassable>], passable: &TPassable) -> (seen: Sightings<
    TPassable,
>)
    ensures
        taps_saw(taps@, *passable),
        seen.calls().len() == taps@.len(),
        forall|i: int|
            0 <= i < taps@.len() ==> #[trigger] seen.calls()[i] == (taps@[i].watcher(), *passable),
{
    let mut seen = Sightings::none();
    let mut index: usize = 0;
    while index < taps.len()
        invariant
            index <= taps@.len(),
            forall|i: int| 0 <= i < index ==> #[trigger] taps@[i].observed(passable),
            seen.calls().len() == index,
            forall|i: int|
                0 <= i < index ==> #[trigger] seen.calls()[i] == (taps@[i].watcher(), *passable),
        decreases taps@.len() - index,
    {
        seen = taps[index].observe(passable, seen);
        index = index + 1;
    }
    seen
}

/// Converts the error of a pipe outcome into a [`PipelineError`]; a successful
/// value passes unchanged.
pub fn settle<TPassable, TError: Into<PipelineError>>(out: Result<TPassable, TError>) -> (result:
    PipelineResult<TPassable>)
    ensures
        settles(out, result),
{
    match out {
        Ok(value) => Ok(value),
        Err(e) => Err(e.into()),
    }
}

} // verus!

verus! {

/// `out` is what `rescue` gives for the run result `result`: a success is kept,
/// a missing input is still reported, and any other error is handed to
/// `recovery`, whose value becomes the success.
pub open spec fn rescued<TPassable, F: FnOnce(PipelineError) -> TPassable>(
    result: PipelineResult<TPassable>,
    recovery: F,
    out: PipelineResult<TPassable>,
) -> bool {
    match result {
        Ok(value) => out == Ok::<TPassable, PipelineError>(value),
        Err(PipelineError::InputMissing) => out == Err::<TPassable, PipelineError>(
            PipelineError::InputMissing,
        ),
        Err(e) => out matches Ok(value) && call_ensures(recovery, (e,), value),
    }
}

/// `out` is what `then` gives for the run result `result`: a success is handed
/// to `destination`, and an error is kept.
pub open spec fn delivered<TPassable, R, F: FnOnce(TPassable) -> R>(
    result: PipelineResult<TPassable>,
    destination: F,
    out: PipelineResult<R>,
) -> bool {
    match result {
        Ok(value) => out matches Ok(mapped) && call_ensures(destination, (value,), mapped),
        Err(e) => out == Err::<R, PipelineError>(e),
    }
}

/// Recovers from a failed run: a success is kept, `InputMissing` is returned as
/// it is, and any other error is replaced by what `recovery` makes of it.
pub fn recover<TPassable, F: FnOnce(PipelineError) -> TPassable>(
    result: PipelineResult<TPassable>,
    recovery: F,
) -> (out: PipelineResult<TPassable>)
    requires
        forall|e: PipelineError| call_requires(recovery, (e,)),
    ensures
        rescued(result, recovery, out),
        match result {
            Ok(value) => out == Ok::<TPassable, PipelineError>(value),
            Err(PipelineError::InputMissing) => out == result,
            Err(e) => out matches Ok(value) && call_ensures(recovery, (e,), value),
        },
{
    match result {
        Ok(value) => Ok(value),
        Err(PipelineError::InputMissing) => Err(PipelineError::InputMissing),
        Err(e) => Ok(recovery(e)),
    }
}

/// Hands a successful run value to `destination`; an error is kept.
pub fn deliver<TPassable, R, F: FnOnce(TPassable) -> R>(
    result: PipelineResult<TPassable>,
    destination: F,
) -> (out: PipelineResult<R>)
    requires
        forall|value: TPassable| call_requires(destination, (value,)),
    ensures
        delivered(result, destination, out),
        match result {
            Ok(value) => out matches Ok(mapped) && call_ensures(destination, (value,), mapped),
            Err(e) => out == Err::<R, PipelineError>(e),
        },
{
    match result {
        Ok(value) => Ok(destination(value)),
        Err(e) => Err(e),
    }
}

} // verus!

verus! {

/// `From::from` of a type into itself, which std documents as returning its
/// argument unchanged: this contract states that the result is the argument.
pub assume_specification<Value>[ <Value as std::convert::From<Value>>::from ](value: Value) -> (same: Value)
    ensures
        same == value,
;

/// An outcome whose error is already a [`PipelineError`] settles to itself: the
/// conversion keeps such an error as it is.
pub proof fn law_pipeline_errors_settle_unchanged<TPassable>(
    out: Result<TPassable, PipelineError>,
    result: PipelineResult<TPassable>,
)
    ensures
        settles(out, result) ==> result == out,
{
}

/// A [`PipelineError`] converts into itself, so its conversion gives one
/// result for each error.
pub proof fn law_pipeline_errors_convert_deterministically()
    ensures
        converts_deterministically::<PipelineError>(),
{
    assert forall|e: PipelineError, a: PipelineError, b: PipelineError|
        #[trigger] converts(e, a) && #[trigger] converts(e, b) implies a == b by {
        law_pipeline_errors_settle_unchanged(Err::<PipelineError, PipelineError>(e), Err(a));
        law_pipeline_errors_settle_unchanged(Err::<PipelineError, PipelineError>(e), Err(b));
    }
}

/// Named failures convert into the variant of [`PipelineError`] that carries them.
pub proof fn law_failures_convert_to_their_variant(
    step: StepFailure,
    dispatch: DispatchError,
    rescue: RescueFailure,
    err: PipelineError,
)
    ensures
        converts(step, err) ==> err == PipelineError::StepFailure(step),
        converts(dispatch, err) ==> err == PipelineError::DispatchError(dispatch),
        converts(rescue, err) ==> err == PipelineError::RescueFailure(rescue),
{
}

/// `rescue` hands `recovery` the very error that ended the run, with its
/// variant and payload, and returns what `recovery` made of it; a success and a
/// missing input come back as they were.
pub proof fn law_rescue_hands_recovery_the_error_itself<TPassable, F: FnOnce(
    PipelineError,
) -> TPassable>(result: PipelineResult<TPassable>, recovery: F, out: PipelineResult<TPassable>)
    requires
        rescued(result, recovery, out),
    ensures
        match result {
            Ok(value) => out == Ok::<TPassable, PipelineError>(value),
            Err(PipelineError::InputMissing) => out == result,
            Err(e) => out matches Ok(value) && call_ensures(recovery, (e,), value),
        },
{
}

/// `then` leaves an error exactly as the run returned it, variant and payload,
/// and hands a final value to `destination`.
pub proof fn law_then_keeps_errors_unchanged<TPassable, R, F: FnOnce(TPassable) -> R>(
    result: PipelineResult<TPassable>,
    destination: F,
    out: PipelineResult<R>,
)
    requires
        delivered(result, destination, out),
    ensures
        match result {
            Ok(value) => out matches Ok(mapped) && call_ensures(destination, (value,), mapped),
            Err(e) => out == Err::<R, PipelineError>(e),
        },
{
}

/// A conditional addition puts the item after every item already there, which
/// keep their places, and adds nothing when the condition fails.
pub proof fn law_conditional_item_goes_last<A>(item: A, condition: bool, items: Seq<A>)
    ensures
        condition ==> appended_when(item, condition, items).len() == items.len() + 1,
        condition ==> appended_when(item, condition, items).last() == item,
        condition ==> forall|i: int|
            0 <= i < items.len() ==> #[trigger] appended_when(item, condition, items)[i] == items[i],
        !condition ==> appended_when(item, condition, items) == items,
{
}

/// `rescue` never hides a missing input, and that is the only error it can
/// return: every other error is recovered.
pub proof fn law_rescue_fails_only_on_missing_input<TPassable, F: FnOnce(PipelineError) -> TPassable>(
    result: PipelineResult<TPassable>,
    recovery: F,
    out: PipelineResult<TPassable>,
)
    requires
        rescued(result, recovery, out),
    ensures
        result == Err::<TPassable, PipelineError>(PipelineError::InputMissing) ==> out == result,
        out is Err ==> out == Err::<TPassable, PipelineError>(PipelineError::InputMissing),
        result is Ok ==> out == result,
{
}

} // verus!
