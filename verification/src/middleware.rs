//! The middleware pipeline: every pipe receives the value and a [`Next`]
//! continuation for the rest of the chain.
use vstd::prelude::*;

use crate::errors::PipelineError;
use crate::types::{
    chain_outcome, chain_outcomes, finalized, taps_saw, Chain, Continuation, Finalize, FinalizerFn,
    Finalizer, Observe, ObserverFn,
    PipeType, PipelineResult, Tap,
};
use crate::utility;
use crate::utility::{appended_when, delivered, rescued, settles};

verus! {

/// The results that running the middleware `pipes`, with observers `taps`, on
/// the sent `passable` can give: `InputMissing` when nothing was sent,
/// otherwise an outcome of the chain with its error converted into a
/// [`PipelineError`].
pub open spec fn middleware_result<TPassable, TError: Into<PipelineError>>(
    passable: Option<TPassable>,
    pipes: Seq<PipeType<TPassable, TError>>,
    taps: Seq<Tap<TPassable>>,
    result: PipelineResult<TPassable>,
) -> bool {
    match passable {
        None => result == Err::<TPassable, PipelineError>(PipelineError::InputMissing),
        Some(value) => chained_to(pipes, taps, value, result),
    }
}

/// `result` is an outcome of the middleware chain `pipes`, with observers
/// `taps`, receiving `passable`, with its error converted into a [`PipelineError`].
pub open spec fn chained_to<TPassable, TError: Into<PipelineError>>(
    pipes: Seq<PipeType<TPassable, TError>>,
    taps: Seq<Tap<TPassable>>,
    passable: TPassable,
    result: PipelineResult<TPassable>,
) -> bool {
    exists|out: Result<TPassable, TError>|
        #[trigger] chain_outcome(pipes, taps, passable, out) && settles(out, result)
}

/// A middleware pipeline without pipes returns its input unchanged, after every
/// observer has looked at it.
pub proof fn law_empty_chain_returns_input<TPassable, TError: Into<PipelineError>>(
    taps: Seq<Tap<TPassable>>,
    passable: TPassable,
    result: PipelineResult<TPassable>,
)
    ensures
        chained_to(Seq::<PipeType<TPassable, TError>>::empty(), taps, passable, result) <==> (
        result == Ok::<TPassable, PipelineError>(passable) && taps_saw(taps, passable)),
{
    let pipes = Seq::<PipeType<TPassable, TError>>::empty();
    let out = Ok::<TPassable, TError>(passable);
    assert(chain_outcome(pipes, taps, passable, out) == taps_saw(taps, passable));
}

/// Without input every middleware pipeline reports `InputMissing`, whatever its pipes.
pub proof fn law_chain_needs_input<TPassable, TError: Into<PipelineError>>(
    pipes: Seq<PipeType<TPassable, TError>>,
    taps: Seq<Tap<TPassable>>,
    result: PipelineResult<TPassable>,
)
    ensures
        middleware_result(None, pipes, taps, result) <==> result == Err::<TPassable, PipelineError>(
            PipelineError::InputMissing,
        ),
{
}

/// The first pipe of a chain decides its outcome, and the continuation it
/// receives runs exactly the pipes after it: appending `later` pipes changes
/// only what that continuation does.
pub proof fn law_first_pipe_continues_with_the_rest<TPassable, TError>(
    pipes: Seq<PipeType<TPassable, TError>>,
    later: Seq<PipeType<TPassable, TError>>,
    taps: Seq<Tap<TPassable>>,
    passable: TPassable,
    out: Result<TPassable, TError>,
)
    requires
        pipes.len() > 0,
    ensures
        chain_outcome(pipes + later, taps, passable, out) == pipes[0].handles(
            passable,
            chain_outcomes(pipes.drop_first() + later, taps),
            out,
        ),
{
    let whole = pipes + later;
    assert(whole[0] == pipes[0]);
    assert(whole.drop_first() =~= pipes.drop_first() + later);
}

/// `outcomes` gives one outcome for each value.
pub open spec fn single_valued<TPassable, TError>(
    outcomes: spec_fn(TPassable, Result<TPassable, TError>) -> bool,
) -> bool {
    forall|passable: TPassable, a: Result<TPassable, TError>, b: Result<TPassable, TError>|
        #[trigger] outcomes(passable, a) && #[trigger] outcomes(passable, b) ==> a == b
}

/// Every pipe in `pipes` gives one outcome for each value whenever the
/// continuation it receives does.
pub open spec fn pipes_keep_single_outcomes<TPassable, TError>(
    pipes: Seq<PipeType<TPassable, TError>>,
) -> bool {
    forall|
        i: int,
        rest: spec_fn(TPassable, Result<TPassable, TError>) -> bool,
        passable: TPassable,
        a: Result<TPassable, TError>,
        b: Result<TPassable, TError>,
    |
        0 <= i < pipes.len() && single_valued(rest) && #[trigger] pipes[i].handles(passable, rest, a)
            && #[trigger] pipes[i].handles(passable, rest, b) ==> a == b
}

/// A chain of pipes that each give one outcome whenever their continuation
/// does gives one outcome for each value.
pub proof fn law_chain_has_single_outcomes<TPassable, TError>(
    pipes: Seq<PipeType<TPassable, TError>>,
    taps: Seq<Tap<TPassable>>,
)
    requires
        pipes_keep_single_outcomes(pipes),
    ensures
        single_valued(chain_outcomes(pipes, taps)),
    decreases pipes.len(),
{
    if pipes.len() > 0 {
        let rest = pipes.drop_first();
        assert forall|
            i: int,
            later: spec_fn(TPassable, Result<TPassable, TError>) -> bool,
            passable: TPassable,
            a: Result<TPassable, TError>,
            b: Result<TPassable, TError>,
        |
            0 <= i < rest.len() && single_valued(later) && #[trigger] rest[i].handles(
                passable,
                later,
                a,
            ) && #[trigger] rest[i].handles(passable, later, b) implies a == b by {
            assert(rest[i] == pipes[i + 1]);
        }
        law_chain_has_single_outcomes(rest, taps);
        let continuation = chain_outcomes(rest, taps);
        let whole = chain_outcomes(pipes, taps);
        assert forall|passable: TPassable, a: Result<TPassable, TError>, b: Result<TPassable, TError>|
            #[trigger] whole(passable, a) && #[trigger] whole(passable, b) implies a == b by {
            assert(pipes[0].handles(passable, continuation, a));
            assert(pipes[0].handles(passable, continuation, b));
        }
    }
}

/// A middleware pipeline.
///
/// Each pipe receives the current value and a [`Next`] continuation: it can
/// call `next.handle(value)` to continue, return early to stop the chain, or
/// change what the rest of the chain returned.
#[verifier::reject_recursive_types(TPassable)]
#[verifier::reject_recursive_types(TError)]
pub struct Pipeline<TPassable, TError = PipelineError> {
    passable: Option<TPassable>,
    pipes: Vec<PipeType<TPassable, TError>>,
    finally: Option<Finalizer<TPassable>>,
    taps: Vec<Tap<TPassable>>,
}

impl<TPassable, TError> Pipeline<TPassable, TError> {
    /// The input that was sent, if any.
    pub closed spec fn passable(&self) -> Option<TPassable> {
        self.passable
    }

    /// The pipes, in the order in which they run.
    pub closed spec fn pipes(&self) -> Seq<PipeType<TPassable, TError>> {
        self.pipes@
    }

    /// The observers, in the order in which they were registered.
    pub closed spec fn taps(&self) -> Seq<Tap<TPassable>> {
        self.taps@
    }

    /// The finalizer, if one was registered.
    pub closed spec fn finalizer(&self) -> Option<Finalizer<TPassable>> {
        self.finally
    }

    /// Creates an empty pipeline: no input, no pipes, no observers, no finalizer.
    pub fn new() -> (pipeline: Self)
        ensures
            pipeline.passable() is None,
            pipeline.pipes() == Seq::<PipeType<TPassable, TError>>::empty(),
            pipeline.taps() == Seq::<Tap<TPassable>>::empty(),
            pipeline.finalizer() is None,
    {
        Pipeline { passable: None, pipes: Vec::new(), finally: None, taps: Vec::new() }
    }

    /// Sets the input that flows through the pipeline.
    pub fn send(self, passable: TPassable) -> (pipeline: Self)
        ensures
            pipeline.passable() == Some(passable),
            pipeline.pipes() == self.pipes(),
            pipeline.taps() == self.taps(),
            pipeline.finalizer() == self.finalizer(),
    {
        let mut pipeline = self;
        pipeline.passable = Some(passable);
        pipeline
    }

    /// Appends pipes, which run in the order given, after the ones already there.
    pub fn through(self, pipes: Vec<PipeType<TPassable, TError>>) -> (pipeline: Self)
        ensures
            pipeline.passable() == self.passable(),
            pipeline.pipes() == self.pipes() + pipes@,
            pipeline.taps() == self.taps(),
            pipeline.finalizer() == self.finalizer(),
    {
        let mut pipeline = self;
        let mut pipes = pipes;
        pipeline.pipes.append(&mut pipes);
        pipeline
    }

    /// Appends `pipe` when `condition` is true; otherwise leaves the pipeline as it is.
    pub fn when(self, condition: bool, pipe: PipeType<TPassable, TError>) -> (pipeline: Self)
        ensures
            pipeline.passable() == self.passable(),
            pipeline.pipes() == appended_when(pipe, condition, self.pipes()),
            condition ==> pipeline.pipes().len() == self.pipes().len() + 1,
            condition ==> pipeline.pipes().last() == pipe,
            condition ==> forall|i: int|
                0 <= i < self.pipes().len() ==> #[trigger] pipeline.pipes()[i] == self.pipes()[i],
            !condition ==> pipeline.pipes() == self.pipes(),
            pipeline.taps() == self.taps(),
            pipeline.finalizer() == self.finalizer(),
    {
        let mut pipeline = self;
        if condition {
            let mut added = vec![pipe];
            pipeline.pipes.append(&mut added);
        }
        pipeline
    }

    /// Appends `pipe` when `condition` is false; otherwise leaves the pipeline as it is.
    pub fn unless(self, condition: bool, pipe: PipeType<TPassable, TError>) -> (pipeline: Self)
        ensures
            pipeline.passable() == self.passable(),
            pipeline.pipes() == appended_when(pipe, !condition, self.pipes()),
            !condition ==> pipeline.pipes().len() == self.pipes().len() + 1,
            !condition ==> pipeline.pipes().last() == pipe,
            !condition ==> forall|i: int|
                0 <= i < self.pipes().len() ==> #[trigger] pipeline.pipes()[i] == self.pipes()[i],
            condition ==> pipeline.pipes() == self.pipes(),
            pipeline.taps() == self.taps(),
            pipeline.finalizer() == self.finalizer(),
    {
        let mut pipeline = self;
        if !condition {
            let mut added = vec![pipe];
            pipeline.pipes.append(&mut added);
        }
        pipeline
    }

    /// Registers the finalizer, which receives the result of every run, success
    /// or failure; it replaces any finalizer registered before.
    pub fn finally<F>(self, callback: F) -> (pipeline: Self) where
        F: Fn(&PipelineResult<TPassable>) + Send + Sync + 'static,
        TPassable: 'static,
        requires
            forall|result: &PipelineResult<TPassable>| call_requires(callback, (result,)),
        ensures
            pipeline.passable() == self.passable(),
            pipeline.pipes() == self.pipes(),
            pipeline.taps() == self.taps(),
            pipeline.finalizer() is Some,
            forall|result: &PipelineResult<TPassable>|
                #[trigger] pipeline.finalizer()->0.finished_with(result) <==> call_ensures(
                    callback,
                    (result,),
                    (),
                ),
    {
        let wrapped = FinalizerFn::new(callback);
        let mut pipeline = self;
        pipeline.finally = Some(Box::new(wrapped));
        pipeline
    }

    /// Registers an observer of the value that reaches the end of the chain,
    /// after the observers registered before it.
    pub fn tap<F>(self, callback: F) -> (pipeline: Self) where
        F: Fn(&TPassable) + Send + Sync + 'static,
        TPassable: 'static,
        requires
            forall|value: &TPassable| call_requires(callback, (value,)),
        ensures
            pipeline.passable() == self.passable(),
            pipeline.pipes() == self.pipes(),
            pipeline.taps().len() == self.taps().len() + 1,
            pipeline.taps().take(self.taps().len() as int) == self.taps(),
            forall|value: &TPassable|
                #[trigger] pipeline.taps().last().observed(value) <==> call_ensures(
                    callback,
                    (value,),
                    (),
                ),
            pipeline.finalizer() == self.finalizer(),
    {
        let observer = ObserverFn::new(callback);
        let mut pipeline = self;
        let mut added: Vec<Tap<TPassable>> = vec![Box::new(observer)];
        pipeline.taps.append(&mut added);
        pipeline
    }
}

impl<TPassable, TError> Default for Pipeline<TPassable, TError> {
    /// An empty pipeline, as [`Pipeline::new`] makes it.
    fn default() -> (pipeline: Self)
        ensures
            pipeline.passable() is None,
            pipeline.pipes() == Seq::<PipeType<TPassable, TError>>::empty(),
            pipeline.taps() == Seq::<Tap<TPassable>>::empty(),
            pipeline.finalizer() is None,
    {
        Self::new()
    }
}

impl<TPassable, TError: Into<PipelineError>> Pipeline<TPassable, TError> {
    /// The results that running this pipeline can give.
    ///
    /// The finalizer, when one is registered and an input was sent, has looked
    /// at the result.
    pub open spec fn runs_to(&self, result: PipelineResult<TPassable>) -> bool {
        &&& middleware_result(self.passable(), self.pipes(), self.taps(), result)
        &&& finalized(self.passable(), self.finalizer(), result)
    }

    /// Runs the chain and hands the final value to `destination`.
    ///
    /// Without input the result is `Err(InputMissing)`; an error of the chain is
    /// returned converted; a final value becomes what `destination` makes of it.
    pub fn then<F, R>(self, destination: F) -> (result: PipelineResult<R>) where
        F: FnOnce(TPassable) -> R,
        requires
            forall|value: TPassable| call_requires(destination, (value,)),
        ensures
            exists|run: PipelineResult<TPassable>|
                #[trigger] self.runs_to(run) && delivered(run, destination, result),
    {
        let run = self.run();
        utility::deliver(run, destination)
    }

    /// Runs the chain and returns the final value.
    ///
    /// Without input the result is `Err(InputMissing)`; with no pipe it is the
    /// input itself; otherwise it is the outcome of the first pipe, which
    /// received the input, with its error converted.
    pub fn then_return(self) -> (result: PipelineResult<TPassable>)
        ensures
            self.runs_to(result),
            self.passable() is Some && self.finalizer() is Some ==> self.finalizer()->0.finished_with(
                &result,
            ),
    {
        self.run()
    }

    /// Runs the chain and recovers from its errors with `recovery`.
    ///
    /// A missing input is still reported as `Err(InputMissing)`.
    pub fn rescue<F>(self, recovery: F) -> (result: PipelineResult<TPassable>) where
        F: FnOnce(PipelineError) -> TPassable,
        requires
            forall|e: PipelineError| call_requires(recovery, (e,)),
        ensures
            exists|run: PipelineResult<TPassable>|
                #[trigger] self.runs_to(run) && rescued(run, recovery, result),
    {
        let run = self.then_return();
        utility::recover(run, recovery)
    }

    /// Runs the chain from the sent input, lets the finalizer see the result,
    /// and returns it.
    fn run(self) -> (result: PipelineResult<TPassable>)
        ensures
            self.runs_to(result),
    {
        let Pipeline { passable, pipes, finally, taps } = self;
        match utility::require_passable(passable) {
            Err(missing) => Err(missing),
            Ok(value) => {
                let chain = Chain { pipes: pipes.as_slice(), taps: taps.as_slice() };
                let out = chain.resume(value);
                let ghost outcome = out;
                let result = utility::settle(out);
                if let Some(finalizer) = &finally {
                    finalizer.finish(&result);
                }
                assert(chain_outcome(pipes@, taps@, value, outcome));
                result
            },
        }
    }
}

/// Whenever an input was sent and a finalizer registered, the finalizer has
/// looked at the result the run returns, a success as much as a failure.
pub proof fn law_finalizer_sees_every_chain_result<TPassable, TError: Into<PipelineError>>(
    pipeline: Pipeline<TPassable, TError>,
    result: PipelineResult<TPassable>,
)
    requires
        pipeline.runs_to(result),
    ensures
        pipeline.passable() is Some && pipeline.finalizer() is Some ==> pipeline.finalizer()->0.finished_with(
            &result,
        ),
{
}

/// A pipeline whose pipes give one outcome whenever their continuation does,
/// and whose error conversion gives one result, runs to one result.
pub proof fn law_deterministic_chain_runs_once<TPassable, TError: Into<PipelineError>>(
    pipeline: Pipeline<TPassable, TError>,
    first: PipelineResult<TPassable>,
    second: PipelineResult<TPassable>,
)
    requires
        pipes_keep_single_outcomes(pipeline.pipes()),
        utility::converts_deterministically::<TError>(),
        pipeline.runs_to(first),
        pipeline.runs_to(second),
    ensures
        first == second,
{
    if let Some(value) = pipeline.passable() {
        let pipes = pipeline.pipes();
        let taps = pipeline.taps();
        let a = choose|out: Result<TPassable, TError>|
            #[trigger] chain_outcome(pipes, taps, value, out) && settles(out, first);
        let b = choose|out: Result<TPassable, TError>|
            #[trigger] chain_outcome(pipes, taps, value, out) && settles(out, second);
        law_chain_has_single_outcomes(pipes, taps);
        let outcomes = chain_outcomes(pipes, taps);
        assert(outcomes(value, a) && outcomes(value, b));
        utility::lemma_settles_once(a, first, second);
    }
}

/// For a pipeline whose pipes give one outcome whenever their continuation
/// does, and whose error conversion gives one result, `then(destination)` gives
/// what `then_return` gives, with a final value handed to `destination` and an
/// error kept as it is.
pub proof fn law_then_delivers_the_chain<TPassable, TError: Into<PipelineError>, R, F: FnOnce(
    TPassable,
) -> R>(
    pipeline: Pipeline<TPassable, TError>,
    run: PipelineResult<TPassable>,
    destination: F,
    result: PipelineResult<R>,
)
    requires
        pipes_keep_single_outcomes(pipeline.pipes()),
        utility::converts_deterministically::<TError>(),
        pipeline.runs_to(run),
        exists|other: PipelineResult<TPassable>|
            #[trigger] pipeline.runs_to(other) && delivered(other, destination, result),
    ensures
        delivered(run, destination, result),
{
    let other = choose|other: PipelineResult<TPassable>|
        #[trigger] pipeline.runs_to(other) && delivered(other, destination, result);
    law_deterministic_chain_runs_once(pipeline, run, other);
}

/// For a pipeline whose pipes give one outcome whenever their continuation
/// does, and whose error conversion gives one result, `rescue(recovery)` gives
/// what `then_return` gives, with every error but a missing input replaced by
/// what `recovery` makes of it.
pub proof fn law_rescue_recovers_the_chain<TPassable, TError: Into<PipelineError>, F: FnOnce(
    PipelineError,
) -> TPassable>(
    pipeline: Pipeline<TPassable, TError>,
    run: PipelineResult<TPassable>,
    recovery: F,
    result: PipelineResult<TPassable>,
)
    requires
        pipes_keep_single_outcomes(pipeline.pipes()),
        utility::converts_deterministically::<TError>(),
        pipeline.runs_to(run),
        exists|other: PipelineResult<TPassable>|
            #[trigger] pipeline.runs_to(other) && rescued(other, recovery, result),
    ensures
        rescued(run, recovery, result),
{
    let other = choose|other: PipelineResult<TPassable>|
        #[trigger] pipeline.runs_to(other) && rescued(other, recovery, result);
    law_deterministic_chain_runs_once(pipeline, run, other);
}

} // verus!

verus! {

/// An asynchronous middleware pipeline: the input and the asynchronous pipes,
/// in the order in which they run. The pipes are awaited by the code that
/// drives them.
#[verifier::reject_recursive_types(TPassable)]
pub struct AsyncPipeline<TPassable, TPipe> {
    passable: Option<TPassable>,
    pipes: Vec<TPipe>,
}

impl<TPassable, TPipe> AsyncPipeline<TPassable, TPipe> {
    /// The input that was sent, if any.
    pub closed spec fn passable(&self) -> Option<TPassable> {
        self.passable
    }

    /// The pipes, in the order in which they run.
    pub closed spec fn pipes(&self) -> Seq<TPipe> {
        self.pipes@
    }

    /// Creates an empty asynchronous pipeline: no input, no pipes.
    pub fn new() -> (pipeline: Self)
        ensures
            pipeline.passable() is None,
            pipeline.pipes() == Seq::<TPipe>::empty(),
    {
        AsyncPipeline { passable: None, pipes: Vec::new() }
    }

    /// Sets the input that flows through the pipeline.
    pub fn send(self, passable: TPassable) -> (pipeline: Self)
        ensures
            pipeline.passable() == Some(passable),
            pipeline.pipes() == self.pipes(),
    {
        let mut pipeline = self;
        pipeline.passable = Some(passable);
        pipeline
    }

    /// Appends pipes, which run in the order given, after the ones already there.
    pub fn through(self, pipes: Vec<TPipe>) -> (pipeline: Self)
        ensures
            pipeline.passable() == self.passable(),
            pipeline.pipes() == self.pipes() + pipes@,
    {
        let mut pipeline = self;
        let mut pipes = pipes;
        pipeline.pipes.append(&mut pipes);
        pipeline
    }

    /// Takes the pipeline apart into its input and its pipes, for the code that
    /// awaits them.
    pub fn into_parts(self) -> (parts: (Option<TPassable>, Vec<TPipe>))
        ensures
            parts.0 == self.passable(),
            parts.1@ == self.pipes(),
    {
        (self.passable, self.pipes)
    }
}

impl<TPassable, TPipe> Default for AsyncPipeline<TPassable, TPipe> {
    /// An empty pipeline, as [`AsyncPipeline::new`] makes it.
    fn default() -> (pipeline: Self)
        ensures
            pipeline.passable() is None,
            pipeline.pipes() == Seq::<TPipe>::empty(),
    {
        Self::new()
    }
}

} // verus!
