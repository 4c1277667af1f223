//! A fallible step pipeline: each step receives the value and returns the next
//! one or an error of the pipeline's own error type.
use vstd::prelude::*;

verus! {

/// A step of a [`Pipeline`].
///
/// The outcomes of a step are whatever its implementation returns: `processes`
/// names them, and nothing more is assumed of them.
pub trait Pipe<T, E> {
    /// The outcomes that this step can have when it receives `input`.
    open spec fn processes(&self, input: T, out: Result<T, E>) -> bool {
        true
    }

    /// Processes `input`.
    fn handle(&self, input: T) -> (out: Result<T, E>)
        ensures
            self.processes(input, out),
    ;
}

/// The outcomes of running `steps`, in order, on `input`: each step receives
/// the value that the one before it returned, and the first error stops the run.
pub open spec fn step_outcome<T, E>(steps: Seq<Box<dyn Pipe<T, E>>>, input: T, out: Result<T, E>) -> bool
    decreases steps.len(),
{
    if steps.len() == 0 {
        out == Ok::<T, E>(input)
    } else {
        exists|step: Result<T, E>|
            #[trigger] steps[0].processes(input, step) && match step {
                Ok(value) => step_outcome(steps.drop_first(), value, out),
                Err(e) => out == Err::<T, E>(e),
            }
    }
}

/// One step, applied to a suffix of the steps, extends a run of the rest.
proof fn lemma_step<T, E>(
    steps: Seq<Box<dyn Pipe<T, E>>>,
    index: int,
    input: T,
    step: Result<T, E>,
    out: Result<T, E>,
)
    requires
        0 <= index < steps.len(),
        steps[index].processes(input, step),
        match step {
            Ok(value) => step_outcome(steps.skip(index + 1), value, out),
            Err(e) => out == Err::<T, E>(e),
        },
    ensures
        step_outcome(steps.skip(index), input, out),
{
    let rest = steps.skip(index);
    assert(rest.drop_first() =~= steps.skip(index + 1));
    assert(rest[0] == steps[index]);
    assert(rest[0].processes(input, step));
}

/// Running the steps `first + second` is running `first` and then, on its
/// value, `second`: an error of `first` ends the run.
pub proof fn law_steps_compose<T, E>(
    first: Seq<Box<dyn Pipe<T, E>>>,
    second: Seq<Box<dyn Pipe<T, E>>>,
    input: T,
    out: Result<T, E>,
)
    ensures
        step_outcome(first + second, input, out) <==> exists|middle: Result<T, E>|
            #[trigger] step_outcome(first, input, middle) && match middle {
                Ok(value) => step_outcome(second, value, out),
                Err(e) => out == Err::<T, E>(e),
            },
    decreases first.len(),
{
    let whole = first + second;
    if first.len() == 0 {
        assert(whole =~= second);
        let middle = Ok::<T, E>(input);
        assert(step_outcome(first, input, middle));
    } else {
        let rest = first.drop_first();
        assert(whole[0] == first[0]);
        assert(whole.drop_first() =~= rest + second);
        if step_outcome(whole, input, out) {
            let step = choose|step: Result<T, E>|
                #[trigger] whole[0].processes(input, step) && match step {
                    Ok(value) => step_outcome(whole.drop_first(), value, out),
                    Err(e) => out == Err::<T, E>(e),
                };
            assert(first[0].processes(input, step));
            match step {
                Ok(value) => {
                    law_steps_compose(rest, second, value, out);
                    let middle = choose|middle: Result<T, E>|
                        #[trigger] step_outcome(rest, value, middle) && match middle {
                            Ok(v) => step_outcome(second, v, out),
                            Err(e) => out == Err::<T, E>(e),
                        };
                    assert(step_outcome(first, input, middle));
                },
                Err(e) => {
                    assert(step_outcome(first, input, step));
                },
            }
        }
        if exists|middle: Result<T, E>|
            #[trigger] step_outcome(first, input, middle) && match middle {
                Ok(value) => step_outcome(second, value, out),
                Err(e) => out == Err::<T, E>(e),
            } {
            let middle = choose|middle: Result<T, E>|
                #[trigger] step_outcome(first, input, middle) && match middle {
                    Ok(value) => step_outcome(second, value, out),
                    Err(e) => out == Err::<T, E>(e),
                };
            let step = choose|step: Result<T, E>|
                #[trigger] first[0].processes(input, step) && match step {
                    Ok(value) => step_outcome(rest, value, middle),
                    Err(e) => middle == Err::<T, E>(e),
                };
            assert(whole[0].processes(input, step));
            match step {
                Ok(value) => {
                    law_steps_compose(rest, second, value, out);
                    assert(step_outcome(rest, value, middle));
                    assert(step_outcome(rest + second, value, out));
                },
                Err(e) => {},
            }
            assert(step_outcome(whole, input, out));
        }
    }
}

/// Every step in `steps` gives one outcome for each input.
pub open spec fn steps_deterministic<T, E>(steps: Seq<Box<dyn Pipe<T, E>>>) -> bool {
    forall|i: int, input: T, a: Result<T, E>, b: Result<T, E>|
        0 <= i < steps.len() && #[trigger] steps[i].processes(input, a)
            && #[trigger] steps[i].processes(input, b) ==> a == b
}

/// Steps that each give one outcome for each input give one outcome for the
/// whole run.
pub proof fn law_deterministic_steps_run_once<T, E>(
    steps: Seq<Box<dyn Pipe<T, E>>>,
    input: T,
    first: Result<T, E>,
    second: Result<T, E>,
)
    requires
        steps_deterministic(steps),
        step_outcome(steps, input, first),
        step_outcome(steps, input, second),
    ensures
        first == second,
    decreases steps.len(),
{
    if steps.len() > 0 {
        let rest = steps.drop_first();
        let a = choose|step: Result<T, E>|
            #[trigger] steps[0].processes(input, step) && match step {
                Ok(value) => step_outcome(rest, value, first),
                Err(e) => first == Err::<T, E>(e),
            };
        let b = choose|step: Result<T, E>|
            #[trigger] steps[0].processes(input, step) && match step {
                Ok(value) => step_outcome(rest, value, second),
                Err(e) => second == Err::<T, E>(e),
            };
        assert(steps[0].processes(input, a) && steps[0].processes(input, b));
        if let Ok(value) = a {
            assert forall|i: int, x: T, y: Result<T, E>, z: Result<T, E>|
                0 <= i < rest.len() && #[trigger] rest[i].processes(x, y)
                    && #[trigger] rest[i].processes(x, z) implies y == z by {
                assert(rest[i] == steps[i + 1]);
            }
            law_deterministic_steps_run_once(rest, value, first, second);
        }
    }
}

/// For steps that each give one outcome for each input, `then(f)` gives what
/// `then_return` gives, with a final value handed to `f` and the first error
/// kept as it is.
pub proof fn law_then_maps_the_run<T, E, R, F: FnOnce(T) -> R>(
    steps: Seq<Box<dyn Pipe<T, E>>>,
    input: T,
    run: Result<T, E>,
    f: F,
    result: Result<R, E>,
)
    requires
        steps_deterministic(steps),
        step_outcome(steps, input, run),
        exists|out: Result<T, E>|
            #[trigger] step_outcome(steps, input, out) && match out {
                Ok(value) => result matches Ok(mapped) && call_ensures(f, (value,), mapped),
                Err(e) => result == Err::<R, E>(e),
            },
    ensures
        match run {
            Ok(value) => result matches Ok(mapped) && call_ensures(f, (value,), mapped),
            Err(e) => result == Err::<R, E>(e),
        },
{
    let out = choose|out: Result<T, E>|
        #[trigger] step_outcome(steps, input, out) && match out {
            Ok(value) => result matches Ok(mapped) && call_ensures(f, (value,), mapped),
            Err(e) => result == Err::<R, E>(e),
        };
    law_deterministic_steps_run_once(steps, input, run, out);
}

/// A pipeline of fallible steps that share the error type `E`.
#[verifier::reject_recursive_types(T)]
#[verifier::reject_recursive_types(E)]
pub struct Pipeline<T, E> {
    input: Option<T>,
    steps: Vec<Box<dyn Pipe<T, E>>>,
    method: String,
}

impl<T, E> Pipeline<T, E> {
    /// The input that was sent, if any.
    pub closed spec fn input(&self) -> Option<T> {
        self.input
    }

    /// The steps, in the order in which they run.
    pub closed spec fn steps(&self) -> Seq<Box<dyn Pipe<T, E>>> {
        self.steps@
    }

    /// The name of the method through which the steps are called.
    pub closed spec fn method(&self) -> Seq<char> {
        self.method@
    }

    /// Creates an empty pipeline that calls its steps through `handle`.
    pub fn new() -> (pipeline: Self)
        ensures
            pipeline.input() is None,
            pipeline.steps() == Seq::<Box<dyn Pipe<T, E>>>::empty(),
            pipeline.method() == "handle"@,
    {
        Pipeline { input: None, steps: Vec::new(), method: String::from_str("handle") }
    }

    /// Sets the input.
    pub fn send(self, input: T) -> (pipeline: Self)
        ensures
            pipeline.input() == Some(input),
            pipeline.steps() == self.steps(),
            pipeline.method() == self.method(),
    {
        let mut pipeline = self;
        pipeline.input = Some(input);
        pipeline
    }

    /// Names the method through which the steps are called.
    pub fn via(self, method: &str) -> (pipeline: Self)
        ensures
            pipeline.input() == self.input(),
            pipeline.steps() == self.steps(),
            pipeline.method() == method@,
    {
        let mut pipeline = self;
        pipeline.method = String::from_str(method);
        pipeline
    }

    /// Lets `f` look at the input, if one was sent; the pipeline is unchanged.
    pub fn tap<F>(self, f: F) -> (pipeline: Self) where F: Fn(&T) + 'static,
        requires
            self.input() matches Some(input) ==> call_requires(f, (&input,)),
        ensures
            pipeline.input() == self.input(),
            pipeline.steps() == self.steps(),
            pipeline.method() == self.method(),
            self.input() matches Some(input) ==> call_ensures(f, (&input,), ()),
    {
        if let Some(input) = &self.input {
            f(input);
        }
        self
    }

    /// Appends steps, which run in the order given, after the ones already there.
    pub fn through(self, steps: Vec<Box<dyn Pipe<T, E>>>) -> (pipeline: Self)
        ensures
            pipeline.input() == self.input(),
            pipeline.steps() == self.steps() + steps@,
            pipeline.method() == self.method(),
    {
        let mut pipeline = self;
        let mut steps = steps;
        pipeline.steps.append(&mut steps);
        pipeline
    }

    /// Runs the steps on the input and hands the final value to `f`; the first
    /// error is returned as it is. The input must have been sent.
    pub fn then<F, R>(self, f: F) -> (result: Result<R, E>) where F: FnOnce(T) -> R,
        requires
            self.input() is Some,
            forall|value: T| call_requires(f, (value,)),
        ensures
            exists|out: Result<T, E>|
                #[trigger] step_outcome(self.steps(), self.input()->0, out) && match out {
                    Ok(value) => result matches Ok(mapped) && call_ensures(f, (value,), mapped),
                    Err(e) => result == Err::<R, E>(e),
                },
    {
        let ghost steps = self.steps();
        let ghost input = self.input()->0;
        let out = self.then_return();
        assert(step_outcome(steps, input, out));
        match out {
            Ok(value) => Ok(f(value)),
            Err(e) => Err(e),
        }
    }

    /// Runs the steps on the input, each on the value the one before returned,
    /// and returns the final value or the first error. The input must have been
    /// sent.
    pub fn then_return(self) -> (out: Result<T, E>)
        requires
            self.input() is Some,
        ensures
            step_outcome(self.steps(), self.input()->0, out),
    {
        let Pipeline { input, steps, method: _ } = self;
        let first_value = input.unwrap();
        let ghost first = first_value;
        let mut value = first_value;
        let mut index: usize = 0;
        assert(steps@.skip(0) =~= steps@);
        while index < steps.len()
            invariant
                index <= steps@.len(),
                self.steps() == steps@,
                self.input() == Some(first),
                forall|out: Result<T, E>|
                    step_outcome(steps@.skip(index as int), value, out)
                        ==> #[trigger] step_outcome(steps@, first, out),
            decreases steps@.len() - index,
        {
            let ghost current = value;
            match steps[index].handle(value) {
                Ok(next) => {
                    proof {
                        assert forall|later: Result<T, E>|
                            step_outcome(steps@.skip(index + 1), next, later)
                                implies #[trigger] step_outcome(steps@, first, later) by {
                            lemma_step(steps@, index as int, current, Ok::<T, E>(next), later);
                        }
                    }
                    value = next;
                },
                Err(e) => {
                    proof {
                        let failed = Err::<T, E>(e);
                        lemma_step(steps@, index as int, current, failed, failed);
                        assert(step_outcome(steps@, first, failed));
                    }
                    return Err(e);
                },
            }
            index = index + 1;
        }
        proof {
            assert(steps@.skip(index as int) =~= Seq::<Box<dyn Pipe<T, E>>>::empty());
        }
        Ok(value)
    }
}

} // verus!
