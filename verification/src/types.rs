//! The traits that pipes implement, the continuation handed to middleware, and
//! the boxed callbacks that pipelines store.
use std::marker::PhantomData;
use std::sync::Arc;
use vstd::prelude::*;

use crate::errors::PipelineError;

verus! {

/// The result of a top-level pipeline operation.
pub type PipelineResult<TPassable> = Result<TPassable, PipelineError>;

/// The result of one middleware pipe.
pub type PipeResult<TPassable, TError = PipelineError> = Result<TPassable, TError>;

/// The result of one transform pipe.
pub type TransformPipeResult<TPassable, TError = PipelineError> = Result<TPassable, TError>;

/// A shareable middleware unit.
pub type PipeType<TPassable, TError = PipelineError> = Arc<dyn Pipe<TPassable, TError>>;

/// A shareable transform unit.
pub type TransformPipeType<TPassable, TError = PipelineError> = Arc<
    dyn TransformPipe<TPassable, TError>,
>;

/// The observer calls made so far, in the order in which they were made: each
/// entry names the observer, by what it looks at, and the value it was called
/// with. Only an observer's own call adds an entry.
#[verifier::reject_recursive_types(TPassable)]
pub struct Sightings<TPassable> {
    calls: Ghost<Seq<(spec_fn(TPassable) -> bool, TPassable)>>,
}

impl<TPassable> Sightings<TPassable> {
    /// The calls recorded, oldest first.
    pub closed spec fn calls(&self) -> Seq<(spec_fn(TPassable) -> bool, TPassable)> {
        self.calls@
    }

    /// A record of no call yet.
    pub fn none() -> (sightings: Self)
        ensures
            sightings.calls() == Seq::<(spec_fn(TPassable) -> bool, TPassable)>::empty(),
    {
        Sightings { calls: Ghost(Seq::empty()) }
    }

    /// Adds the call of the observer named by `watcher` on `value`.
    fn record(
        self,
        Ghost(watcher): Ghost<spec_fn(TPassable) -> bool>,
        Ghost(value): Ghost<TPassable>,
    ) -> (sightings: Self)
        ensures
            sightings.calls() == self.calls().push((watcher, value)),
    {
        Sightings { calls: Ghost(self.calls@.push((watcher, value))) }
    }
}

/// An observer of the values that flow through a pipeline.
pub trait Observe<TPassable> {
    /// That this observer has looked at `value`.
    spec fn observed(&self, value: &TPassable) -> bool;

    /// The name of this observer in a record of calls: what it looks at.
    open spec fn watcher(&self) -> spec_fn(TPassable) -> bool {
        |value: TPassable| self.observed(&value)
    }

    /// Looks at the current value, and adds this call to the record `seen`.
    fn observe(&self, value: &TPassable, seen: Sightings<TPassable>) -> (now: Sightings<TPassable>)
        ensures
            self.observed(value),
            now.calls() == seen.calls().push((self.watcher(), *value)),
    ;
}

/// Every observer in `taps` has looked at `value`.
pub open spec fn taps_saw<TPassable>(taps: Seq<Tap<TPassable>>, value: TPassable) -> bool {
    forall|i: int| 0 <= i < taps.len() ==> #[trigger] taps[i].observed(&value)
}

/// A stored observer callback.
pub type Tap<TPassable> = Box<dyn Observe<TPassable>>;

/// An observer made from a closure that accepts every value.
pub struct ObserverFn<TPassable, F: Fn(&TPassable)> {
    callback: F,
    marker: PhantomData<TPassable>,
}

impl<TPassable, F: Fn(&TPassable)> ObserverFn<TPassable, F> {
    #[verifier::type_invariant]
    closed spec fn accepts_every_value(self) -> bool {
        forall|value: &TPassable| call_requires(self.callback, (value,))
    }

    /// The wrapped callback.
    pub closed spec fn callback(self) -> F {
        self.callback
    }

    /// Wraps a callback that may be called with any value.
    pub fn new(callback: F) -> (observer: Self)
        requires
            forall|value: &TPassable| call_requires(callback, (value,)),
        ensures
            observer.callback() == callback,
            forall|value: &TPassable|
                #[trigger] observer.observed(value) <==> call_ensures(callback, (value,), ()),
    {
        ObserverFn { callback, marker: PhantomData }
    }
}

impl<TPassable, F: Fn(&TPassable)> Observe<TPassable> for ObserverFn<TPassable, F> {
    /// The wrapped callback has run on `value`.
    closed spec fn observed(&self, value: &TPassable) -> bool {
        call_ensures(self.callback, (value,), ())
    }

    /// Calls the wrapped callback with `value`.
    fn observe(&self, value: &TPassable, seen: Sightings<TPassable>) -> (now: Sightings<TPassable>) {
        proof {
            use_type_invariant(self);
        }
        (self.callback)(value);
        seen.record(Ghost(self.watcher()), Ghost(*value))
    }
}

/// A callback that receives the final result of a pipeline run.
pub trait Finalize<TPassable> {
    /// That this finalizer has looked at `result`.
    spec fn finished_with(&self, result: &PipelineResult<TPassable>) -> bool;

    /// Looks at the final result.
    fn finish(&self, result: &PipelineResult<TPassable>)
        ensures
            self.finished_with(result),
    ;
}

/// When an input was sent and a finalizer registered, the finalizer has looked
/// at `result`.
pub open spec fn finalized<TPassable>(
    passable: Option<TPassable>,
    finalizer: Option<Finalizer<TPassable>>,
    result: PipelineResult<TPassable>,
) -> bool {
    passable is Some && finalizer is Some ==> finalizer->0.finished_with(&result)
}

/// A stored finalizer callback.
pub type Finalizer<TPassable> = Box<dyn Finalize<TPassable>>;

/// A finalizer made from a closure that accepts every result.
pub struct FinalizerFn<TPassable, F: Fn(&PipelineResult<TPassable>)> {
    callback: F,
    marker: PhantomData<TPassable>,
}

impl<TPassable, F: Fn(&PipelineResult<TPassable>)> FinalizerFn<TPassable, F> {
    #[verifier::type_invariant]
    closed spec fn accepts_every_result(self) -> bool {
        forall|result: &PipelineResult<TPassable>| call_requires(self.callback, (result,))
    }

    /// The wrapped callback.
    pub closed spec fn callback(self) -> F {
        self.callback
    }

    /// Wraps a callback that may be called with any result.
    pub fn new(callback: F) -> (finalizer: Self)
        requires
            forall|result: &PipelineResult<TPassable>| call_requires(callback, (result,)),
        ensures
            finalizer.callback() == callback,
            forall|result: &PipelineResult<TPassable>|
                #[trigger] finalizer.finished_with(result) <==> call_ensures(callback, (result,), ()),
    {
        FinalizerFn { callback, marker: PhantomData }
    }
}

impl<TPassable, F: Fn(&PipelineResult<TPassable>)> Finalize<TPassable> for FinalizerFn<
    TPassable,
    F,
> {
    /// The wrapped callback has run on `result`.
    closed spec fn finished_with(&self, result: &PipelineResult<TPassable>) -> bool {
        call_ensures(self.callback, (result,), ())
    }

    /// Calls the wrapped callback with `result`.
    fn finish(&self, result: &PipelineResult<TPassable>) {
        proof {
            use_type_invariant(self);
        }
        (self.callback)(result)
    }
}

/// The rest of a middleware chain, as seen from the pipe before it.
pub(crate) trait Continuation<TPassable, TError> {
    /// The outcomes that resuming the rest of the chain with `passable` can have.
    spec fn continues(&self, passable: TPassable, out: Result<TPassable, TError>) -> bool;

    /// Runs the rest of the chain.
    fn resume(&self, passable: TPassable) -> (out: Result<TPassable, TError>)
        ensures
            self.continues(passable, out),
    ;
}

/// The continuation handed to a middleware pipe.
///
/// A pipe calls [`Next::handle`] to run the rest of the chain, returns early to
/// stop it, or changes the value that the rest of the chain returned.
#[verifier::reject_recursive_types(TPassable)]
#[verifier::reject_recursive_types(TError)]
pub struct Next<'a, TPassable, TError = PipelineError> {
    rest: &'a dyn Continuation<TPassable, TError>,
}

impl<'a, TPassable, TError> Next<'a, TPassable, TError> {
    /// The outcomes that the rest of the chain can have: `outcomes()(passable,
    /// out)` holds when running the rest on `passable` can give `out`. A
    /// continuation is only built by the chain itself, in `Chain::resume`, which
    /// proves that the one it hands to a pipe has the outcomes
    /// `chain_outcomes(rest, taps)` of the pipes `rest` after that pipe.
    pub closed spec fn outcomes(&self) -> spec_fn(TPassable, Result<TPassable, TError>) -> bool {
        |passable: TPassable, out: Result<TPassable, TError>| self.rest.continues(passable, out)
    }

    /// A continuation that runs the rest of a chain.
    pub(crate) fn new(chain: &'a Chain<'a, TPassable, TError>) -> (next: Self)
        ensures
            next.outcomes() == chain.outcomes(),
    {
        let next = Next { rest: chain };
        assert(next.outcomes() =~= chain.outcomes());
        next
    }

    /// Runs the rest of the chain with `passable`: the next pipe, or the end of
    /// the chain when no pipe is left.
    pub fn handle(self, passable: TPassable) -> (out: PipeResult<TPassable, TError>)
        ensures
            (self.outcomes())(passable, out),
    {
        self.rest.resume(passable)
    }
}

/// A middleware pipe: it receives the value and the continuation for the rest
/// of the chain, and decides whether and when the rest runs.
///
/// The outcomes of a pipe are whatever its implementation returns: `handles`
/// names them, given the outcomes `rest` of the continuation it receives, and
/// nothing more is assumed of them.
pub trait Pipe<TPassable, TError = PipelineError>: Send + Sync {
    /// The outcomes that this pipe can have when it receives `passable` and a
    /// continuation whose outcomes are `rest`.
    open spec fn handles(
        &self,
        passable: TPassable,
        rest: spec_fn(TPassable, Result<TPassable, TError>) -> bool,
        out: Result<TPassable, TError>,
    ) -> bool {
        true
    }

    /// Handles `passable`, possibly continuing with `next`.
    fn handle(&self, passable: TPassable, next: Next<'_, TPassable, TError>) -> (out: PipeResult<
        TPassable,
        TError,
    >)
        ensures
            self.handles(passable, next.outcomes(), out),
    ;
}

/// The outcomes of a middleware chain made of `pipes`, with observers `taps`:
/// `chain_outcomes(pipes, taps)(passable, out)` holds when the chain can give
/// `out` for `passable`. With no pipe left the value reaches the end of the
/// chain, where every observer looks at it, and comes back unchanged.
/// Otherwise the chain has the outcomes of its first pipe, given a continuation
/// whose outcomes are those of the remaining pipes.
pub open spec fn chain_outcomes<TPassable, TError>(
    pipes: Seq<PipeType<TPassable, TError>>,
    taps: Seq<Tap<TPassable>>,
) -> spec_fn(TPassable, Result<TPassable, TError>) -> bool
    decreases pipes.len(),
{
    if pipes.len() == 0 {
        |passable: TPassable, out: Result<TPassable, TError>|
            out == Ok::<TPassable, TError>(passable) && taps_saw(taps, passable)
    } else {
        let rest = chain_outcomes(pipes.drop_first(), taps);
        let first = pipes[0];
        |passable: TPassable, out: Result<TPassable, TError>| first.handles(passable, rest, out)
    }
}

/// The middleware chain `pipes`, with observers `taps`, can give `out` when it
/// receives `passable`.
pub open spec fn chain_outcome<TPassable, TError>(
    pipes: Seq<PipeType<TPassable, TError>>,
    taps: Seq<Tap<TPassable>>,
    passable: TPassable,
    out: Result<TPassable, TError>,
) -> bool {
    (chain_outcomes(pipes, taps))(passable, out)
}

/// The part of a middleware chain that is still to run, with the observers
/// that look at the value when it reaches the end.
#[verifier::reject_recursive_types(TPassable)]
#[verifier::reject_recursive_types(TError)]
pub(crate) struct Chain<'a, TPassable, TError> {
    pub(crate) pipes: &'a [PipeType<TPassable, TError>],
    pub(crate) taps: &'a [Tap<TPassable>],
}

impl<'a, TPassable, TError> Chain<'a, TPassable, TError> {
    /// The outcomes of running this part of the chain.
    pub(crate) closed spec fn outcomes(&self) -> spec_fn(TPassable, Result<TPassable, TError>) -> bool {
        chain_outcomes(self.pipes@, self.taps@)
    }
}

impl<'a, TPassable, TError> Continuation<TPassable, TError> for Chain<'a, TPassable, TError> {
    open spec fn continues(&self, passable: TPassable, out: Result<TPassable, TError>) -> bool {
        chain_outcome(self.pipes@, self.taps@, passable, out)
    }

    fn resume(&self, passable: TPassable) -> (out: Result<TPassable, TError>) {
        if self.pipes.len() > 0 {
            let (head, rest) = self.pipes.split_at(1);
            let chain = Chain { pipes: rest, taps: self.taps };
            let next = Next::new(&chain);
            proof {
                assert(rest@ =~= self.pipes@.drop_first());
                assert(head@[0] == self.pipes@[0]);
            }
            head[0].handle(passable, next)
        } else {
            crate::utility::run_taps(self.taps, &passable);
            Ok(passable)
        }
    }
}

/// A transform pipe: it receives the value and returns the next one.
///
/// The outcomes of a transform are whatever its implementation returns:
/// `transforms` names them, and nothing more is assumed of them.
pub trait TransformPipe<TPassable, TError = PipelineError>: Send + Sync {
    /// The outcomes that this transform can have when it receives `passable`.
    open spec fn transforms(&self, passable: TPassable, out: Result<TPassable, TError>) -> bool {
        true
    }

    /// Transforms `passable`.
    fn handle(&self, passable: TPassable) -> (out: TransformPipeResult<TPassable, TError>)
        ensures
            self.transforms(passable, out),
    ;
}

} // verus!
