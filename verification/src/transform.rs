//! The transform pipeline: every pipe receives the value and returns the next
//! one, without seeing the rest of the pipeline.
use vstd::prelude::*;

use crate::errors::PipelineError;
use crate::types::{
    finalized, taps_saw, Finalize, FinalizerFn, Finalizer, ObserverFn, Observe, PipelineResult, Tap, TransformPipeType,
};
use crate::utility;
use crate::utility::{appended_when, delivered, rescued, settles};

verus! {

/// The outcomes of running the transforms `pipes`, in order, on `passable`,
/// with observers `taps`: each transform receives the value that the one before
/// it returned, every observer looks at each value a transform returns, and the
/// first error stops the run.
pub open spec fn transform_outcome<TPassable, TError>(
    pipes: Seq<TransformPipeType<TPassable, TError>>,
    taps: Seq<Tap<TPassable>>,
    passable: TPassable,
    out: Result<TPassable, TError>,
) -> bool
    decreases pipes.len(),
{
    if pipes.len() == 0 {
        out == Ok::<TPassable, TError>(passable)
    } else {
        exists|step: Result<TPassable, TError>|
            #[trigger] pipes[0].transforms(passable, step) && match step {
                Ok(value) => taps_saw(taps, value) && transform_outcome(
                    pipes.drop_first(),
                    taps,
                    value,
                    out,
                ),
                Err(e) => out == Err::<TPassable, TError>(e),
            }
    }
}

/// The outcomes of the transforms `pipes` after an earlier part of a run ended
/// with `before`: an error ends the run, and a value goes on through `pipes`.
pub open spec fn continued<TPassable, TError>(
    pipes: Seq<TransformPipeType<TPassable, TError>>,
    taps: Seq<Tap<TPassable>>,
    before: Result<TPassable, TError>,
    out: Result<TPassable, TError>,
) -> bool {
    match before {
        Ok(value) => transform_outcome(pipes, taps, value, out),
        Err(e) => out == Err::<TPassable, TError>(e),
    }
}

/// The results that running the transforms `pipes` on the sent `passable` can
/// give: `InputMissing` when nothing was sent, otherwise an outcome of the
/// transforms with its error converted into a [`PipelineError`].
pub open spec fn transform_result<TPassable, TError: Into<PipelineError>>(
    passable: Option<TPassable>,
    pipes: Seq<TransformPipeType<TPassable, TError>>,
    taps: Seq<Tap<TPassable>>,
    result: PipelineResult<TPassable>,
) -> bool {
    match passable {
        None => result == Err::<TPassable, PipelineError>(PipelineError::InputMissing),
        Some(value) => transformed_to(pipes, taps, value, result),
    }
}

/// `result` is an outcome of running the transforms `pipes` on `passable`, with
/// its error converted into a [`PipelineError`].
pub open spec fn transformed_to<TPassable, TError: Into<PipelineError>>(
    pipes: Seq<TransformPipeType<TPassable, TError>>,
    taps: Seq<Tap<TPassable>>,
    passable: TPassable,
    result: PipelineResult<TPassable>,
) -> bool {
    exists|out: Result<TPassable, TError>|
        #[trigger] transform_outcome(pipes, taps, passable, out) && settles(out, result)
}

/// One transform, applied to a suffix of the pipes, extends a run of the rest.
proof fn lemma_transform_step<TPassable, TError>(
    pipes: Seq<TransformPipeType<TPassable, TError>>,
    taps: Seq<Tap<TPassable>>,
    index: int,
    passable: TPassable,
    step: Result<TPassable, TError>,
    out: Result<TPassable, TError>,
)
    requires
        0 <= index < pipes.len(),
        pipes[index].transforms(passable, step),
        step matches Ok(value) ==> taps_saw(taps, value),
        continued(pipes.skip(index + 1), taps, step, out),
    ensures
        transform_outcome(pipes.skip(index), taps, passable, out),
{
    let rest = pipes.skip(index);
    assert(rest.drop_first() =~= pipes.skip(index + 1));
    assert(rest[0] == pipes[index]);
    assert(rest[0].transforms(passable, step));
}

/// Running the transforms `first + second` is running `first` and then, on its
/// value, `second`: an error of `first` ends the run, and `second` never sees it.
pub proof fn law_transforms_compose<TPassable, TError>(
    first: Seq<TransformPipeType<TPassable, TError>>,
    second: Seq<TransformPipeType<TPassable, TError>>,
    taps: Seq<Tap<TPassable>>,
    passable: TPassable,
    out: Result<TPassable, TError>,
)
    ensures
        transform_outcome(first + second, taps, passable, out) <==> exists|middle: Result<
            TPassable,
            TError,
        >|
            #[trigger] transform_outcome(first, taps, passable, middle) && continued(
                second,
                taps,
                middle,
                out,
            ),
    decreases first.len(),
{
    let whole = first + second;
    if first.len() == 0 {
        assert(whole =~= second);
        let middle = Ok::<TPassable, TError>(passable);
        assert(transform_outcome(first, taps, passable, middle));
    } else {
        let rest = first.drop_first();
        assert(whole[0] == first[0]);
        assert(whole.drop_first() =~= rest + second);
        if transform_outcome(whole, taps, passable, out) {
            let step = choose|step: Result<TPassable, TError>|
                #[trigger] whole[0].transforms(passable, step) && match step {
                    Ok(value) => taps_saw(taps, value) && transform_outcome(
                        whole.drop_first(),
                        taps,
                        value,
                        out,
                    ),
                    Err(e) => out == Err::<TPassable, TError>(e),
                };
            assert(first[0].transforms(passable, step));
            match step {
                Ok(value) => {
                    law_transforms_compose(rest, second, taps, value, out);
                    let middle = choose|middle: Result<TPassable, TError>|
                        #[trigger] transform_outcome(rest, taps, value, middle) && continued(
                            second,
                            taps,
                            middle,
                            out,
                        );
                    assert(transform_outcome(first, taps, passable, middle));
                },
                Err(e) => {
                    assert(transform_outcome(first, taps, passable, step));
                    assert(continued(second, taps, step, out));
                },
            }
        }
        if exists|middle: Result<TPassable, TError>|
            #[trigger] transform_outcome(first, taps, passable, middle) && continued(
                second,
                taps,
                middle,
                out,
            ) {
            let middle = choose|middle: Result<TPassable, TError>|
                #[trigger] transform_outcome(first, taps, passable, middle) && continued(
                    second,
                    taps,
                    middle,
                    out,
                );
            let step = choose|step: Result<TPassable, TError>|
                #[trigger] first[0].transforms(passable, step) && match step {
                    Ok(value) => taps_saw(taps, value) && transform_outcome(
                        rest,
                        taps,
                        value,
                        middle,
                    ),
                    Err(e) => middle == Err::<TPassable, TError>(e),
                };
            assert(whole[0].transforms(passable, step));
            match step {
                Ok(value) => {
                    law_transforms_compose(rest, second, taps, value, out);
                    assert(transform_outcome(rest, taps, value, middle));
                    assert(transform_outcome(rest + second, taps, value, out));
                },
                Err(e) => {},
            }
            assert(transform_outcome(whole, taps, passable, out));
        }
    }
}

/// With no transform the run returns the input itself.
pub proof fn law_no_transforms_return_input<TPassable, TError>(
    taps: Seq<Tap<TPassable>>,
    passable: TPassable,
    out: Result<TPassable, TError>,
)
    ensures
        transform_outcome(Seq::<TransformPipeType<TPassable, TError>>::empty(), taps, passable, out)
            <==> out == Ok::<TPassable, TError>(passable),
{
}

/// Without input every transform pipeline reports `InputMissing`, whatever its
/// transforms.
pub proof fn law_transforms_need_input<TPassable, TError: Into<PipelineError>>(
    pipes: Seq<TransformPipeType<TPassable, TError>>,
    taps: Seq<Tap<TPassable>>,
    result: PipelineResult<TPassable>,
)
    ensures
        transform_result(None, pipes, taps, result) <==> result == Err::<TPassable, PipelineError>(
            PipelineError::InputMissing,
        ),
{
}

/// Every transform in `pipes` gives one outcome for each value it receives.
pub open spec fn transforms_deterministically<TPassable, TError>(
    pipes: Seq<TransformPipeType<TPassable, TError>>,
) -> bool {
    forall|i: int, passable: TPassable, a: Result<TPassable, TError>, b: Result<TPassable, TError>|
        0 <= i < pipes.len() && #[trigger] pipes[i].transforms(passable, a)
            && #[trigger] pipes[i].transforms(passable, b) ==> a == b
}

/// Transforms that each give one outcome for each value give one outcome for
/// the whole run.
pub proof fn law_deterministic_transforms_run_once<TPassable, TError>(
    pipes: Seq<TransformPipeType<TPassable, TError>>,
    taps: Seq<Tap<TPassable>>,
    passable: TPassable,
    first: Result<TPassable, TError>,
    second: Result<TPassable, TError>,
)
    requires
        transforms_deterministically(pipes),
        transform_outcome(pipes, taps, passable, first),
        transform_outcome(pipes, taps, passable, second),
    ensures
        first == second,
    decreases pipes.len(),
{
    if pipes.len() > 0 {
        let rest = pipes.drop_first();
        let a = choose|step: Result<TPassable, TError>|
            #[trigger] pipes[0].transforms(passable, step) && match step {
                Ok(value) => taps_saw(taps, value) && transform_outcome(rest, taps, value, first),
                Err(e) => first == Err::<TPassable, TError>(e),
            };
        let b = choose|step: Result<TPassable, TError>|
            #[trigger] pipes[0].transforms(passable, step) && match step {
                Ok(value) => taps_saw(taps, value) && transform_outcome(rest, taps, value, second),
                Err(e) => second == Err::<TPassable, TError>(e),
            };
        assert(pipes[0].transforms(passable, a) && pipes[0].transforms(passable, b));
        assert(a == b);
        if let Ok(value) = a {
            assert forall|
                i: int,
                p: TPassable,
                x: Result<TPassable, TError>,
                y: Result<TPassable, TError>,
            |
                0 <= i < rest.len() && #[trigger] rest[i].transforms(p, x)
                    && #[trigger] rest[i].transforms(p, y) implies x == y by {
                assert(rest[i] == pipes[i + 1]);
            }
            law_deterministic_transforms_run_once(rest, taps, value, first, second);
        }
    }
}

/// A sequential transform pipeline.
///
/// Each transform receives the current value and returns the next one; the
/// transforms cannot see or control the rest of the pipeline.
#[verifier::reject_recursive_types(TPassable)]
#[verifier::reject_recursive_types(TError)]
pub struct TransformPipeline<TPassable, TError = PipelineError> {
    passable: Option<TPassable>,
    pipes: Vec<TransformPipeType<TPassable, TError>>,
    finally: Option<Finalizer<TPassable>>,
    taps: Vec<Tap<TPassable>>,
}

impl<TPassable, TError> TransformPipeline<TPassable, TError> {
    /// The input that was sent, if any.
    pub closed spec fn passable(&self) -> Option<TPassable> {
        self.passable
    }

    /// The transforms, in the order in which they run.
    pub closed spec fn pipes(&self) -> Seq<TransformPipeType<TPassable, TError>> {
        self.pipes@
    }

    /// The observers, in the order in which they were registered.
    pub closed spec fn taps(&self) -> Seq<Tap<TPassable>> {
        self.taps@
    }

    /// The finalizer, if one was registered.
    pub closed spec fn finalizer(&self) -> Option<Finalizer<TPassable>> {
        self.finally
    }

    /// Creates an empty pipeline: no input, no transforms, no observers, no finalizer.
    pub fn new() -> (pipeline: Self)
        ensures
            pipeline.passable() is None,
            pipeline.pipes() == Seq::<TransformPipeType<TPassable, TError>>::empty(),
            pipeline.taps() == Seq::<Tap<TPassable>>::empty(),
            pipeline.finalizer() is None,
    {
        TransformPipeline { passable: None, pipes: Vec::new(), finally: None, taps: Vec::new() }
    }

    /// Sets the input that flows through the transforms.
    pub fn send(self, passable: TPassable) -> (pipeline: Self)
        ensures
            pipeline.passable() == Some(passable),
            pipeline.pipes() == self.pipes(),
            pipeline.taps() == self.taps(),
            pipeline.finalizer() == self.finalizer(),
    {
        let mut pipeline = self;
        pipeline.passable = Some(passable);
        pipeline
    }

    /// Appends transforms, which run in the order given, after the ones already there.
    pub fn through(self, pipes: Vec<TransformPipeType<TPassable, TError>>) -> (pipeline: Self)
        ensures
            pipeline.passable() == self.passable(),
            pipeline.pipes() == self.pipes() + pipes@,
            pipeline.taps() == self.taps(),
            pipeline.finalizer() == self.finalizer(),
    {
        let mut pipeline = self;
        let mut pipes = pipes;
        pipeline.pipes.append(&mut pipes);
        pipeline
    }

    /// Appends `pipe` when `condition` is true; otherwise leaves the pipeline as it is.
    pub fn when(self, condition: bool, pipe: TransformPipeType<TPassable, TError>) -> (pipeline:
        Self)
        ensures
            pipeline.passable() == self.passable(),
            pipeline.pipes() == appended_when(pipe, condition, self.pipes()),
            condition ==> pipeline.pipes().len() == self.pipes().len() + 1,
            condition ==> pipeline.pipes().last() == pipe,
            condition ==> forall|i: int|
                0 <= i < self.pipes().len() ==> #[trigger] pipeline.pipes()[i] == self.pipes()[i],
            !condition ==> pipeline.pipes() == self.pipes(),
            pipeline.taps() == self.taps(),
            pipeline.finalizer() == self.finalizer(),
    {
        let mut pipeline = self;
        if condition {
            let mut added = vec![pipe];
            pipeline.pipes.append(&mut added);
        }
        pipeline
    }

    /// Appends `pipe` when `condition` is false; otherwise leaves the pipeline as it is.
    pub fn unless(self, condition: bool, pipe: TransformPipeType<TPassable, TError>) -> (pipeline:
        Self)
        ensures
            pipeline.passable() == self.passable(),
            pipeline.pipes() == appended_when(pipe, !condition, self.pipes()),
            !condition ==> pipeline.pipes().len() == self.pipes().len() + 1,
            !condition ==> pipeline.pipes().last() == pipe,
            !condition ==> forall|i: int|
                0 <= i < self.pipes().len() ==> #[trigger] pipeline.pipes()[i] == self.pipes()[i],
            condition ==> pipeline.pipes() == self.pipes(),
            pipeline.taps() == self.taps(),
            pipeline.finalizer() == self.finalizer(),
    {
        let mut pipeline = self;
        if !condition {
            let mut added = vec![pipe];
            pipeline.pipes.append(&mut added);
        }
        pipeline
    }

    /// Registers the finalizer, which receives the result of every run that had
    /// an input, success or failure; it replaces any finalizer registered before.
    pub fn finally<F>(self, callback: F) -> (pipeline: Self) where
        F: Fn(&PipelineResult<TPassable>) + Send + Sync + 'static,
        TPassable: 'static,
        requires
            forall|result: &PipelineResult<TPassable>| call_requires(callback, (result,)),
        ensures
            pipeline.passable() == self.passable(),
            pipeline.pipes() == self.pipes(),
            pipeline.taps() == self.taps(),
            pipeline.finalizer() is Some,
            forall|result: &PipelineResult<TPassable>|
                #[trigger] pipeline.finalizer()->0.finished_with(result) <==> call_ensures(
                    callback,
                    (result,),
                    (),
                ),
    {
        let mut pipeline = self;
        let wrapped = FinalizerFn::new(callback);
        pipeline.finally = Some(Box::new(wrapped));
        pipeline
    }

    /// Registers an observer of the value after each successful transform, after
    /// the observers registered before it.
    pub fn tap<F>(self, callback: F) -> (pipeline: Self) where
        F: Fn(&TPassable) + Send + Sync + 'static,
        TPassable: 'static,
        requires
            forall|value: &TPassable| call_requires(callback, (value,)),
        ensures
            pipeline.passable() == self.passable(),
            pipeline.pipes() == self.pipes(),
            pipeline.taps().len() == self.taps().len() + 1,
            pipeline.taps().take(self.taps().len() as int) == self.taps(),
            forall|value: &TPassable|
                #[trigger] pipeline.taps().last().observed(value) <==> call_ensures(
                    callback,
                    (value,),
                    (),
                ),
            pipeline.finalizer() == self.finalizer(),
    {
        let mut pipeline = self;
        let observer = ObserverFn::new(callback);
        let mut added: Vec<Tap<TPassable>> = vec![Box::new(observer)];
        pipeline.taps.append(&mut added);
        pipeline
    }
}

impl<TPassable, TError> Default for TransformPipeline<TPassable, TError> {
    /// An empty pipeline, as [`TransformPipeline::new`] makes it.
    fn default() -> (pipeline: Self)
        ensures
            pipeline.passable() is None,
            pipeline.pipes() == Seq::<TransformPipeType<TPassable, TError>>::empty(),
            pipeline.taps() == Seq::<Tap<TPassable>>::empty(),
            pipeline.finalizer() is None,
    {
        Self::new()
    }
}

impl<TPassable, TError: Into<PipelineError>> TransformPipeline<TPassable, TError> {
    /// The results that running this pipeline can give.
    ///
    /// The finalizer, when one is registered and an input was sent, has looked
    /// at the result.
    pub open spec fn runs_to(&self, result: PipelineResult<TPassable>) -> bool {
        &&& transform_result(self.passable(), self.pipes(), self.taps(), result)
        &&& finalized(self.passable(), self.finalizer(), result)
    }

    /// Runs the transforms and hands the final value to `destination`.
    ///
    /// Without input the result is `Err(InputMissing)`; an error of a transform
    /// is returned converted; a final value becomes what `destination` makes of it.
    pub fn then<F, R>(self, destination: F) -> (result: PipelineResult<R>) where
        F: FnOnce(TPassable) -> R,
        requires
            forall|value: TPassable| call_requires(destination, (value,)),
        ensures
            exists|run: PipelineResult<TPassable>|
                #[trigger] self.runs_to(run) && delivered(run, destination, result),
    {
        let run = self.then_return();
        utility::deliver(run, destination)
    }

    /// Runs the transforms in order and returns the final value.
    ///
    /// Without input the result is `Err(InputMissing)`. Otherwise each transform
    /// receives the value that the one before it returned, observers see each
    /// new value, the first error stops the run and is returned converted, and
    /// the finalizer sees the result before it is returned.
    pub fn then_return(self) -> (result: PipelineResult<TPassable>)
        ensures
            self.runs_to(result),
            self.passable() is Some && self.finalizer() is Some ==> self.finalizer()->0.finished_with(
                &result,
            ),
    {
        let TransformPipeline { passable, pipes, finally, taps } = self;
        let start = match utility::require_passable(passable) {
            Err(missing) => {
                return Err(missing);
            },
            Ok(value) => value,
        };
        let ghost first = start;
        let mut passable = start;
        let mut index: usize = 0;
        assert(pipes@.skip(0) =~= pipes@);
        while index < pipes.len()
            invariant
                index <= pipes@.len(),
                self.passable() == Some(first),
                self.pipes() == pipes@,
                self.taps() == taps@,
                self.finalizer() == finally,
                forall|out: Result<TPassable, TError>|
                    transform_outcome(pipes@.skip(index as int), taps@, passable, out)
                        ==> #[trigger] transform_outcome(pipes@, taps@, first, out),
            decreases pipes@.len() - index,
        {
            let ghost current = passable;
            let out = pipes[index].handle(passable);
            let ghost step = out;
            match utility::settle(out) {
                Ok(next) => {
                    passable = next;
                    utility::run_taps(taps.as_slice(), &passable);
                    proof {
                        assert forall|later: Result<TPassable, TError>|
                            transform_outcome(pipes@.skip(index + 1), taps@, passable, later)
                                implies #[trigger] transform_outcome(pipes@, taps@, first, later) by {
                            lemma_transform_step(pipes@, taps@, index as int, current, step, later);
                        }
                    }
                },
                Err(err) => {
                    let result = Err(err);
                    if let Some(finalizer) = &finally {
                        finalizer.finish(&result);
                    }
                    proof {
                        lemma_transform_step(pipes@, taps@, index as int, current, step, step);
                        assert(transform_outcome(pipes@, taps@, first, step));
                    }
                    return result;
                },
            }
            index = index + 1;
        }
        let result = Ok(passable);
        if let Some(finalizer) = &finally {
            finalizer.finish(&result);
        }
        proof {
            assert(pipes@.skip(index as int) =~= Seq::<TransformPipeType<TPassable, TError>>::empty());
            let done = Ok::<TPassable, TError>(passable);
            assert(transform_outcome(pipes@, taps@, first, done));
        }
        result
    }

    /// Runs the transforms and recovers from their errors with `recovery`.
    ///
    /// A missing input is still reported as `Err(InputMissing)`.
    pub fn rescue<F>(self, recovery: F) -> (result: PipelineResult<TPassable>) where
        F: FnOnce(PipelineError) -> TPassable,
        requires
            forall|e: PipelineError| call_requires(recovery, (e,)),
        ensures
            exists|run: PipelineResult<TPassable>|
                #[trigger] self.runs_to(run) && rescued(run, recovery, result),
    {
        let run = self.then_return();
        utility::recover(run, recovery)
    }
}

/// Whenever an input was sent and a finalizer registered, the finalizer has
/// looked at the result the run returns, a success as much as a failure.
pub proof fn law_finalizer_sees_every_transform_result<TPassable, TError: Into<PipelineError>>(
    pipeline: TransformPipeline<TPassable, TError>,
    result: PipelineResult<TPassable>,
)
    requires
        pipeline.runs_to(result),
    ensures
        pipeline.passable() is Some && pipeline.finalizer() is Some ==> pipeline.finalizer()->0.finished_with(
            &result,
        ),
{
}

/// A pipeline whose transforms and error conversion each give one result runs
/// to one result.
pub proof fn law_deterministic_pipeline_runs_once<TPassable, TError: Into<PipelineError>>(
    pipeline: TransformPipeline<TPassable, TError>,
    first: PipelineResult<TPassable>,
    second: PipelineResult<TPassable>,
)
    requires
        transforms_deterministically(pipeline.pipes()),
        utility::converts_deterministically::<TError>(),
        pipeline.runs_to(first),
        pipeline.runs_to(second),
    ensures
        first == second,
{
    if let Some(value) = pipeline.passable() {
        let pipes = pipeline.pipes();
        let taps = pipeline.taps();
        let a = choose|out: Result<TPassable, TError>|
            #[trigger] transform_outcome(pipes, taps, value, out) && settles(out, first);
        let b = choose|out: Result<TPassable, TError>|
            #[trigger] transform_outcome(pipes, taps, value, out) && settles(out, second);
        law_deterministic_transforms_run_once(pipes, taps, value, a, b);
        utility::lemma_settles_once(a, first, second);
    }
}

/// For a pipeline whose transforms and error conversion each give one result,
/// `then(destination)` gives what `then_return` gives, with a final value handed
/// to `destination` and an error kept as it is.
pub proof fn law_then_delivers_the_run<TPassable, TError: Into<PipelineError>, R, F: FnOnce(
    TPassable,
) -> R>(
    pipeline: TransformPipeline<TPassable, TError>,
    run: PipelineResult<TPassable>,
    destination: F,
    result: PipelineResult<R>,
)
    requires
        transforms_deterministically(pipeline.pipes()),
        utility::converts_deterministically::<TError>(),
        pipeline.runs_to(run),
        exists|other: PipelineResult<TPassable>|
            #[trigger] pipeline.runs_to(other) && delivered(other, destination, result),
    ensures
        delivered(run, destination, result),
{
    let other = choose|other: PipelineResult<TPassable>|
        #[trigger] pipeline.runs_to(other) && delivered(other, destination, result);
    law_deterministic_pipeline_runs_once(pipeline, run, other);
}

/// For a pipeline whose transforms and error conversion each give one result,
/// `rescue(recovery)` gives what `then_return` gives, with every error but a
/// missing input replaced by what `recovery` makes of it.
pub proof fn law_rescue_recovers_the_run<TPassable, TError: Into<PipelineError>, F: FnOnce(
    PipelineError,
) -> TPassable>(
    pipeline: TransformPipeline<TPassable, TError>,
    run: PipelineResult<TPassable>,
    recovery: F,
    result: PipelineResult<TPassable>,
)
    requires
        transforms_deterministically(pipeline.pipes()),
        utility::converts_deterministically::<TError>(),
        pipeline.runs_to(run),
        exists|other: PipelineResult<TPassable>|
            #[trigger] pipeline.runs_to(other) && rescued(other, recovery, result),
    ensures
        rescued(run, recovery, result),
{
    let other = choose|other: PipelineResult<TPassable>|
        #[trigger] pipeline.runs_to(other) && rescued(other, recovery, result);
    law_deterministic_pipeline_runs_once(pipeline, run, other);
}

} // verus!

verus! {

/// An asynchronous transform pipeline: the input and the asynchronous
/// transforms, in the order in which they run. The transforms are awaited by the
/// code that drives them.
#[verifier::reject_recursive_types(TPassable)]
pub struct AsyncTransformPipeline<TPassable, TPipe> {
    passable: Option<TPassable>,
    pipes: Vec<TPipe>,
}

impl<TPassable, TPipe> AsyncTransformPipeline<TPassable, TPipe> {
    /// The input that was sent, if any.
    pub closed spec fn passable(&self) -> Option<TPassable> {
        self.passable
    }

    /// The transforms, in the order in which they run.
    pub closed spec fn pipes(&self) -> Seq<TPipe> {
        self.pipes@
    }

    /// Creates an empty asynchronous transform pipeline: no input, no transforms.
    pub fn new() -> (pipeline: Self)
        ensures
            pipeline.passable() is None,
            pipeline.pipes() == Seq::<TPipe>::empty(),
    {
        AsyncTransformPipeline { passable: None, pipes: Vec::new() }
    }

    /// Sets the input that flows through the transforms.
    pub fn send(self, passable: TPassable) -> (pipeline: Self)
        ensures
            pipeline.passable() == Some(passable),
            pipeline.pipes() == self.pipes(),
    {
        let mut pipeline = self;
        pipeline.passable = Some(passable);
        pipeline
    }

    /// Appends transforms, which run in the order given, after the ones already there.
    pub fn through(self, pipes: Vec<TPipe>) -> (pipeline: Self)
        ensures
            pipeline.passable() == self.passable(),
            pipeline.pipes() == self.pipes() + pipes@,
    {
        let mut pipeline = self;
        let mut pipes = pipes;
        pipeline.pipes.append(&mut pipes);
        pipeline
    }

    /// Takes the pipeline apart into its input and its transforms, for the code
    /// that awaits them.
    pub fn into_parts(self) -> (parts: (Option<TPassable>, Vec<TPipe>))
        ensures
            parts.0 == self.passable(),
            parts.1@ == self.pipes(),
    {
        (self.passable, self.pipes)
    }
}

/// Where a run of transforms that are awaited one at a time stands.
#[derive(Debug)]
pub enum TransformStep<T> {
    /// Hand this value to the transform at this index and await its outcome.
    Run(usize, T),
    /// The run is over, with this result.
    Finish(PipelineResult<T>),
}

/// Starts a run of `count` transforms on the sent input.
///
/// Without input the run is over with `Err(InputMissing)`; with no transform
/// it is over with the input itself; otherwise the first transform gets the input.
pub fn begin_transforms<T>(passable: Option<T>, count: usize) -> (step: TransformStep<T>)
    ensures
        match passable {
            None => step == TransformStep::<T>::Finish(Err(PipelineError::InputMissing)),
            Some(value) => if count == 0 {
                step == TransformStep::<T>::Finish(Ok(value))
            } else {
                step == TransformStep::<T>::Run(0, value)
            },
        },
{
    match utility::require_passable(passable) {
        Err(missing) => TransformStep::Finish(Err(missing)),
        Ok(value) => if count == 0 {
            TransformStep::Finish(Ok(value))
        } else {
            TransformStep::Run(0, value)
        },
    }
}

/// Takes the outcome of the transform at `index`, out of `count`, and says what
/// comes next.
///
/// A value goes to the next transform, or ends the run when this was the last
/// one; an error ends the run at once, converted into a [`PipelineError`].
pub fn advance_transforms<T, E: Into<PipelineError>>(
    index: usize,
    count: usize,
    outcome: Result<T, E>,
) -> (step: TransformStep<T>)
    requires
        index < count,
    ensures
        match outcome {
            Ok(value) => if index + 1 < count {
                step == TransformStep::<T>::Run((index + 1) as usize, value)
            } else {
                step == TransformStep::<T>::Finish(Ok(value))
            },
            Err(e) => step matches TransformStep::Finish(result) && settles(
                Err::<T, E>(e),
                result,
            ),
        },
{
    match utility::settle(outcome) {
        Ok(value) => {
            let next = index + 1;
            if next < count {
                TransformStep::Run(next, value)
            } else {
                TransformStep::Finish(Ok(value))
            }
        },
        Err(err) => TransformStep::Finish(Err(err)),
    }
}

impl<TPassable, TPipe> Default for AsyncTransformPipeline<TPassable, TPipe> {
    /// An empty pipeline, as [`AsyncTransformPipeline::new`] makes it.
    fn default() -> (pipeline: Self)
        ensures
            pipeline.passable() is None,
            pipeline.pipes() == Seq::<TPipe>::empty(),
    {
        Self::new()
    }
}

} // verus!
