//! An infallible step pipeline: each step turns the value into the next one.
use vstd::prelude::*;

verus! {

/// A step of a [`Pipeline`] that always produces a value.
///
/// The values a step produces are whatever its implementation returns:
/// `produces` names them, and nothing more is assumed of them.
pub trait Pipe<T> {
    /// The values that this step can produce from `input`.
    open spec fn produces(&self, input: T, output: T) -> bool {
        true
    }

    /// Turns `input` into the next value.
    fn handle(&self, input: T) -> (output: T)
        ensures
            self.produces(input, output),
    ;
}

/// The values that running `steps`, in order, on `input` can produce: each step
/// receives the value that the one before it produced.
pub open spec fn produced<T>(steps: Seq<Box<dyn Pipe<T>>>, input: T, output: T) -> bool
    decreases steps.len(),
{
    if steps.len() == 0 {
        output == input
    } else {
        exists|value: T|
            #[trigger] steps[0].produces(input, value) && produced(steps.drop_first(), value, output)
    }
}

/// One step, applied to a suffix of the steps, extends a run of the rest.
proof fn lemma_produce<T>(steps: Seq<Box<dyn Pipe<T>>>, index: int, input: T, value: T, output: T)
    requires
        0 <= index < steps.len(),
        steps[index].produces(input, value),
        produced(steps.skip(index + 1), value, output),
    ensures
        produced(steps.skip(index), input, output),
{
    let rest = steps.skip(index);
    assert(rest.drop_first() =~= steps.skip(index + 1));
    assert(rest[0] == steps[index]);
    assert(rest[0].produces(input, value));
}

/// Running the steps `first + second` is running `first` and then, on the
/// value it produced, `second`.
pub proof fn law_simple_steps_compose<T>(
    first: Seq<Box<dyn Pipe<T>>>,
    second: Seq<Box<dyn Pipe<T>>>,
    input: T,
    output: T,
)
    ensures
        produced(first + second, input, output) <==> exists|middle: T|
            #[trigger] produced(first, input, middle) && produced(second, middle, output),
    decreases first.len(),
{
    let whole = first + second;
    if first.len() == 0 {
        assert(whole =~= second);
        assert(produced(first, input, input));
    } else {
        let rest = first.drop_first();
        assert(whole[0] == first[0]);
        assert(whole.drop_first() =~= rest + second);
        if produced(whole, input, output) {
            let value = choose|value: T|
                #[trigger] whole[0].produces(input, value) && produced(whole.drop_first(), value, output);
            assert(first[0].produces(input, value));
            law_simple_steps_compose(rest, second, value, output);
            let middle = choose|middle: T|
                #[trigger] produced(rest, value, middle) && produced(second, middle, output);
            assert(produced(first, input, middle));
        }
        if exists|middle: T| #[trigger] produced(first, input, middle) && produced(second, middle, output) {
            let middle = choose|middle: T|
                #[trigger] produced(first, input, middle) && produced(second, middle, output);
            let value = choose|value: T|
                #[trigger] first[0].produces(input, value) && produced(rest, value, middle);
            assert(whole[0].produces(input, value));
            law_simple_steps_compose(rest, second, value, output);
            assert(produced(rest, value, middle));
            assert(produced(rest + second, value, output));
            assert(produced(whole, input, output));
        }
    }
}

/// A pipeline without steps returns its input.
pub proof fn law_no_steps_return_input<T>(input: T, output: T)
    ensures
        produced(Seq::<Box<dyn Pipe<T>>>::empty(), input, output) <==> output == input,
{
}

/// Every step in `steps` produces one value for each input.
pub open spec fn steps_deterministic<T>(steps: Seq<Box<dyn Pipe<T>>>) -> bool {
    forall|i: int, input: T, a: T, b: T|
        0 <= i < steps.len() && #[trigger] steps[i].produces(input, a)
            && #[trigger] steps[i].produces(input, b) ==> a == b
}

/// Steps that each produce one value for each input produce one value for the
/// whole run.
pub proof fn law_deterministic_steps_produce_once<T>(
    steps: Seq<Box<dyn Pipe<T>>>,
    input: T,
    first: T,
    second: T,
)
    requires
        steps_deterministic(steps),
        produced(steps, input, first),
        produced(steps, input, second),
    ensures
        first == second,
    decreases steps.len(),
{
    if steps.len() > 0 {
        let rest = steps.drop_first();
        let a = choose|value: T|
            #[trigger] steps[0].produces(input, value) && produced(rest, value, first);
        let b = choose|value: T|
            #[trigger] steps[0].produces(input, value) && produced(rest, value, second);
        assert(steps[0].produces(input, a) && steps[0].produces(input, b));
        assert forall|i: int, x: T, y: T, z: T|
            0 <= i < rest.len() && #[trigger] rest[i].produces(x, y) && #[trigger] rest[i].produces(
                x,
                z,
            ) implies y == z by {
            assert(rest[i] == steps[i + 1]);
        }
        law_deterministic_steps_produce_once(rest, a, first, second);
    }
}

/// The last step runs on what the steps before it produced: when those steps
/// each produce one value for each input and produce `before` from `input`, the
/// whole pipeline produces `output` from `input` exactly when the last step
/// produces `output` from `before`.
pub proof fn law_last_step_runs_on_the_rest<T>(
    steps: Seq<Box<dyn Pipe<T>>>,
    input: T,
    before: T,
    output: T,
)
    requires
        steps.len() > 0,
        steps_deterministic(steps.drop_last()),
        produced(steps.drop_last(), input, before),
    ensures
        produced(steps, input, output) <==> steps.last().produces(before, output),
{
    let earlier = steps.drop_last();
    let last = seq![steps.last()];
    assert(steps =~= earlier + last);
    law_simple_steps_compose(earlier, last, input, output);
    assert(last.drop_first() =~= Seq::<Box<dyn Pipe<T>>>::empty());
    if produced(steps, input, output) {
        let middle = choose|middle: T|
            #[trigger] produced(earlier, input, middle) && produced(last, middle, output);
        law_deterministic_steps_produce_once(earlier, input, before, middle);
        let value = choose|value: T|
            #[trigger] last[0].produces(middle, value) && produced(last.drop_first(), value, output);
        assert(last[0].produces(middle, value));
    }
    if steps.last().produces(before, output) {
        assert(last[0].produces(before, output));
        assert(produced(last.drop_first(), output, output));
        assert(produced(last, before, output));
    }
}

/// A step as it is stored in a [`Pipeline`]: it produces exactly what the
/// wrapped step produces.
struct Appended<P> {
    step: P,
}

impl<T, P: Pipe<T>> Pipe<T> for Appended<P> {
    closed spec fn produces(&self, input: T, output: T) -> bool {
        self.step.produces(input, output)
    }

    fn handle(&self, input: T) -> (output: T) {
        self.step.handle(input)
    }
}

/// A pipeline of infallible steps.
#[verifier::reject_recursive_types(T)]
pub struct Pipeline<T> {
    steps: Vec<Box<dyn Pipe<T>>>,
}

impl<T> Pipeline<T> {
    /// The steps, in the order in which they run.
    pub closed spec fn steps(&self) -> Seq<Box<dyn Pipe<T>>> {
        self.steps@
    }

    /// Creates a pipeline without steps.
    pub fn new() -> (pipeline: Self)
        ensures
            pipeline.steps() == Seq::<Box<dyn Pipe<T>>>::empty(),
    {
        Pipeline { steps: Vec::new() }
    }

    /// Appends `step` after the steps already there.
    pub fn add<P: Pipe<T> + 'static>(self, step: P) -> (pipeline: Self)
        ensures
            pipeline.steps().len() == self.steps().len() + 1,
            pipeline.steps().drop_last() == self.steps(),
            forall|input: T, output: T|
                #[trigger] pipeline.steps().last().produces(input, output) <==> step.produces(
                    input,
                    output,
                ),
    {
        let mut pipeline = self;
        let mut added: Vec<Box<dyn Pipe<T>>> = vec![Box::new(Appended { step })];
        pipeline.steps.append(&mut added);
        pipeline
    }

    /// Runs every step in order, each on the value the one before produced, and
    /// returns the last value.
    pub fn execute(&self, input: T) -> (output: T)
        ensures
            produced(self.steps(), input, output),
    {
        let ghost first = input;
        let mut value = input;
        let mut index: usize = 0;
        assert(self.steps@.skip(0) =~= self.steps@);
        while index < self.steps.len()
            invariant
                index <= self.steps@.len(),
                forall|output: T|
                    produced(self.steps@.skip(index as int), value, output)
                        ==> #[trigger] produced(self.steps@, first, output),
            decreases self.steps@.len() - index,
        {
            let ghost current = value;
            let next = self.steps[index].handle(value);
            proof {
                assert forall|later: T|
                    produced(self.steps@.skip(index + 1), next, later)
                        implies #[trigger] produced(self.steps@, first, later) by {
                    lemma_produce(self.steps@, index as int, current, next, later);
                }
            }
            value = next;
            index = index + 1;
        }
        proof {
            assert(self.steps@.skip(index as int) =~= Seq::<Box<dyn Pipe<T>>>::empty());
        }
        value
    }
}

} // verus!
