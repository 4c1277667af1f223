use std::sync::{Arc, Mutex};

use rustpipe::errors::{DispatchError, PipelineError, RescueFailure, StepFailure};
use rustpipe::transform::{advance_transforms, begin_transforms, TransformStep};
use rustpipe::utility::{deliver, recover, require_passable, run_taps, settle};
use rustpipe::{
    AsyncPipeline, AsyncTransformPipeline, Next, ObserverFn, Pipe, PipeResult, Pipeline, Tap,
    TransformPipe, TransformPipeResult, TransformPipeType, TransformPipeline,
};

struct AddOne(Arc<Mutex<Vec<u64>>>);

impl TransformPipe<u64> for AddOne {
    fn handle(&self, passable: u64) -> TransformPipeResult<u64> {
        self.0.lock().unwrap().push(passable);
        Ok(passable + 1)
    }
}

struct Double;

impl TransformPipe<u64> for Double {
    fn handle(&self, passable: u64) -> TransformPipeResult<u64> {
        Ok(passable * 2)
    }
}

struct FailAt(u64);

impl TransformPipe<u64> for FailAt {
    fn handle(&self, passable: u64) -> TransformPipeResult<u64> {
        if passable == self.0 {
            Err(StepFailure { step: "FailAt", message: format!("reached {passable}") }.into())
        } else {
            Ok(passable)
        }
    }
}

struct Tag(&'static str);

impl Pipe<String> for Tag {
    fn handle(&self, passable: String, next: Next<'_, String>) -> PipeResult<String> {
        next.handle(format!("{}{}", passable, self.0))
    }
}

struct Halt;

impl Pipe<String> for Halt {
    fn handle(&self, passable: String, _next: Next<'_, String>) -> PipeResult<String> {
        Ok(format!("halted:{passable}"))
    }
}

struct Deny;

impl Pipe<String> for Deny {
    fn handle(&self, _passable: String, _next: Next<'_, String>) -> PipeResult<String> {
        Err(PipelineError::DispatchError(DispatchError { method: "deny", message: "no".to_string() }))
    }
}

fn log() -> Arc<Mutex<Vec<u64>>> {
    Arc::new(Mutex::new(Vec::new()))
}

#[test]
fn error_descriptions_match_their_formats() {
    let step = StepFailure { step: "Validate", message: "bad email".to_string() };
    assert_eq!(step.describe(), "Step `Validate` failed: bad email");
    let dispatch = DispatchError { method: "handle", message: "unknown".to_string() };
    assert_eq!(dispatch.describe(), "Dispatch `handle` error: unknown");
    let rescue = RescueFailure { rescue: "fallback", message: "gave up".to_string() };
    assert_eq!(rescue.describe(), "Rescue `fallback` failed: gave up");
    assert_eq!(PipelineError::InputMissing.describe(), "Pipeline input not set");
    assert_eq!(PipelineError::StepFailure(step).describe(), "Step `Validate` failed: bad email");
    assert_eq!(PipelineError::DispatchError(dispatch).describe(), "Dispatch `handle` error: unknown");
    assert_eq!(PipelineError::RescueFailure(rescue).describe(), "Rescue `fallback` failed: gave up");
    assert_eq!(PipelineError::Custom("domain error".to_string()).describe(), "domain error");
}

#[test]
fn failures_convert_into_their_variant() {
    let err: PipelineError = StepFailure { step: "s", message: "m".to_string() }.into();
    assert!(matches!(err, PipelineError::StepFailure(StepFailure { step: "s", .. })));
    let err: PipelineError = DispatchError { method: "d", message: "m".to_string() }.into();
    assert!(matches!(err, PipelineError::DispatchError(DispatchError { method: "d", .. })));
    let err: PipelineError = RescueFailure { rescue: "r", message: "m".to_string() }.into();
    assert!(matches!(err, PipelineError::RescueFailure(RescueFailure { rescue: "r", .. })));
}

#[test]
fn require_passable_reports_missing_input() {
    assert_eq!(require_passable(Some(7_u64)).unwrap(), 7);
    assert!(matches!(require_passable::<u64>(None), Err(PipelineError::InputMissing)));
}

#[test]
fn settle_keeps_values_and_pipeline_errors() {
    assert_eq!(settle::<u64, PipelineError>(Ok(3)).unwrap(), 3);
    let failure = StepFailure { step: "keep", message: "same".to_string() };
    let settled = settle::<u64, PipelineError>(Err(PipelineError::StepFailure(failure)));
    match settled {
        Err(PipelineError::StepFailure(failure)) => {
            assert_eq!(failure.step, "keep");
            assert_eq!(failure.message, "same");
        }
        other => panic!("unexpected {other:?}"),
    }
    let converted = settle::<u64, StepFailure>(Err(StepFailure { step: "c", message: String::new() }));
    assert!(matches!(converted, Err(PipelineError::StepFailure(StepFailure { step: "c", .. }))));
}

#[test]
fn recover_keeps_success_and_missing_input() {
    assert_eq!(recover(Ok(1_u64), |_| 9).unwrap(), 1);
    assert!(matches!(recover(Err(PipelineError::InputMissing), |_| 9_u64), Err(PipelineError::InputMissing)));
    let recovered = recover(Err(PipelineError::Custom("x".to_string())), |err| match err {
        PipelineError::Custom(text) => text.len() as u64,
        _ => 0,
    });
    assert_eq!(recovered.unwrap(), 1);
}

#[test]
fn deliver_maps_success_and_keeps_errors() {
    assert_eq!(deliver(Ok(4_u64), |value| value * 10).unwrap(), 40);
    assert!(matches!(deliver(Err::<u64, _>(PipelineError::InputMissing), |value| value * 10), Err(PipelineError::InputMissing)));
}

#[test]
fn run_taps_calls_every_observer_in_order() {
    let seen = log();
    let first = Arc::clone(&seen);
    let second = Arc::clone(&seen);
    let taps: Vec<Tap<u64>> = vec![
        Box::new(ObserverFn::new(move |value: &u64| first.lock().unwrap().push(*value))),
        Box::new(ObserverFn::new(move |value: &u64| second.lock().unwrap().push(*value + 100))),
    ];
    run_taps(&taps, &5);
    assert_eq!(*seen.lock().unwrap(), vec![5, 105]);
}

#[test]
fn transforms_compose_like_one_pipeline() {
    let stack = |calls: &Arc<Mutex<Vec<u64>>>| -> Vec<TransformPipeType<u64>> {
        vec![Arc::new(AddOne(Arc::clone(calls))), Arc::new(Double)]
    };
    let calls = log();
    let split = TransformPipeline::new()
        .send(3_u64)
        .through(stack(&calls))
        .through(vec![Arc::new(AddOne(Arc::clone(&calls)))])
        .then_return()
        .unwrap();
    let together: Vec<TransformPipeType<u64>> = vec![
        Arc::new(AddOne(Arc::clone(&calls))),
        Arc::new(Double),
        Arc::new(AddOne(Arc::clone(&calls))),
    ];
    let joined = TransformPipeline::new().send(3_u64).through(together).then_return().unwrap();
    assert_eq!(split, 9);
    assert_eq!(joined, 9);
    assert_eq!(*calls.lock().unwrap(), vec![3, 8, 3, 8]);
}

#[test]
fn first_transform_error_stops_the_run() {
    let calls = log();
    let result = TransformPipeline::new()
        .send(1_u64)
        .through(vec![
            Arc::new(AddOne(Arc::clone(&calls))),
            Arc::new(FailAt(2)),
            Arc::new(AddOne(Arc::clone(&calls))),
        ])
        .then_return();
    match result {
        Err(PipelineError::StepFailure(failure)) => {
            assert_eq!(failure.describe(), "Step `FailAt` failed: reached 2");
        }
        other => panic!("unexpected {other:?}"),
    }
    assert_eq!(*calls.lock().unwrap(), vec![1]);
}

#[test]
fn empty_pipelines_return_their_input() {
    assert_eq!(TransformPipeline::<u64>::new().send(12).then_return().unwrap(), 12);
    assert_eq!(Pipeline::<String>::new().send("same".to_string()).then_return().unwrap(), "same");
    assert_eq!(TransformPipeline::<u64>::default().send(5).then(|v| v + 1).unwrap(), 6);
    assert_eq!(Pipeline::<String>::default().send("x".to_string()).then(|v| v.len()).unwrap(), 1);
}

#[test]
fn missing_input_is_reported_everywhere() {
    assert!(matches!(TransformPipeline::<u64>::new().then(|v| v), Err(PipelineError::InputMissing)));
    assert!(matches!(Pipeline::<String>::new().then(|v| v), Err(PipelineError::InputMissing)));
    assert!(matches!(Pipeline::<String>::new().rescue(|_| String::new()), Err(PipelineError::InputMissing)));
}

#[test]
fn finalizer_is_not_called_without_input() {
    let called = Arc::new(Mutex::new(false));
    let in_transform = Arc::clone(&called);
    let in_middleware = Arc::clone(&called);
    let transform = TransformPipeline::<u64>::new()
        .finally(move |_| *in_transform.lock().unwrap() = true)
        .then_return();
    let middleware = Pipeline::<String>::new()
        .finally(move |_| *in_middleware.lock().unwrap() = true)
        .then_return();
    assert!(transform.is_err());
    assert!(middleware.is_err());
    assert!(!*called.lock().unwrap());
}

#[test]
fn first_pipe_decides_the_chain() {
    let result = Pipeline::new()
        .send("in".to_string())
        .through(vec![Arc::new(Tag(":a")), Arc::new(Halt), Arc::new(Tag(":never"))])
        .then_return()
        .unwrap();
    assert_eq!(result, "halted:in:a");
}

#[test]
fn rescue_recovers_every_other_error() {
    let result = Pipeline::new()
        .send("in".to_string())
        .through(vec![Arc::new(Deny)])
        .rescue(|err| err.describe())
        .unwrap();
    assert_eq!(result, "Dispatch `deny` error: no");
    let plain = Pipeline::new().send("ok".to_string()).through(vec![Arc::new(Tag("!"))]).rescue(|_| String::new());
    assert_eq!(plain.unwrap(), "ok!");
}

#[test]
fn unless_is_when_with_the_condition_negated() {
    for condition in [true, false] {
        let with_when = TransformPipeline::new().send(2_u64).when(!condition, Arc::new(Double)).then_return().unwrap();
        let with_unless = TransformPipeline::new().send(2_u64).unless(condition, Arc::new(Double)).then_return().unwrap();
        assert_eq!(with_when, with_unless);
    }
    let when = Pipeline::new().send("v".to_string()).when(false, Arc::new(Tag("x"))).unless(false, Arc::new(Tag("y"))).then_return().unwrap();
    assert_eq!(when, "vy");
}

#[test]
fn middleware_taps_see_the_value_at_the_end_of_the_chain() {
    let seen = Arc::new(Mutex::new(Vec::new()));
    let in_tap = Arc::clone(&seen);
    let result = Pipeline::new()
        .send("v".to_string())
        .tap(move |value: &String| in_tap.lock().unwrap().push(value.clone()))
        .through(vec![Arc::new(Tag("1")), Arc::new(Tag("2"))])
        .then_return()
        .unwrap();
    assert_eq!(result, "v12");
    assert_eq!(*seen.lock().unwrap(), vec!["v12".to_string()]);
}

#[test]
fn taps_do_not_run_when_a_transform_fails() {
    let seen = log();
    let in_tap = Arc::clone(&seen);
    let result = TransformPipeline::new()
        .send(1_u64)
        .tap(move |value: &u64| in_tap.lock().unwrap().push(*value))
        .through(vec![Arc::new(Double), Arc::new(FailAt(2)), Arc::new(Double)])
        .then_return();
    assert!(result.is_err());
    assert_eq!(*seen.lock().unwrap(), vec![2]);
}

#[test]
fn async_pipelines_keep_input_and_order() {
    let (input, pipes) = AsyncTransformPipeline::<u64, &'static str>::new()
        .send(4)
        .through(vec!["a", "b"])
        .through(vec!["c"])
        .into_parts();
    assert_eq!(input, Some(4));
    assert_eq!(pipes, vec!["a", "b", "c"]);
    let (input, pipes) = AsyncPipeline::<String, u8>::default().through(vec![1, 2]).into_parts();
    assert_eq!(input, None);
    assert_eq!(pipes, vec![1, 2]);
}

#[test]
fn finalizer_sees_the_unrecovered_result_under_rescue() {
    let seen = Arc::new(Mutex::new(None));
    let in_finally = Arc::clone(&seen);
    let result = TransformPipeline::new()
        .send(2_u64)
        .through(vec![Arc::new(FailAt(2))])
        .finally(move |result| *in_finally.lock().unwrap() = Some(result.is_err()))
        .rescue(|_| 40)
        .unwrap();
    assert_eq!(result, 40);
    assert_eq!(*seen.lock().unwrap(), Some(true));
}

#[test]
fn begin_transforms_without_input_finishes_with_input_missing() {
    let step = begin_transforms::<u64>(None, 3);
    assert!(matches!(step, TransformStep::Finish(Err(PipelineError::InputMissing))));
}

#[test]
fn begin_transforms_without_transforms_finishes_with_the_input() {
    let step = begin_transforms(Some(7u64), 0);
    assert!(matches!(step, TransformStep::Finish(Ok(7))));
}

#[test]
fn begin_transforms_hands_the_input_to_the_first_transform() {
    let step = begin_transforms(Some(7u64), 3);
    assert!(matches!(step, TransformStep::Run(0, 7)));
}

#[test]
fn advance_transforms_moves_a_value_to_the_next_transform() {
    let step = advance_transforms::<u64, PipelineError>(1, 3, Ok(12));
    assert!(matches!(step, TransformStep::Run(2, 12)));
}

#[test]
fn advance_transforms_finishes_after_the_last_transform() {
    let step = advance_transforms::<u64, PipelineError>(2, 3, Ok(12));
    assert!(matches!(step, TransformStep::Finish(Ok(12))));
}

#[test]
fn advance_transforms_stops_at_an_error_and_converts_it() {
    let failure = StepFailure { step: "Parse", message: "bad".to_string() };
    let step = advance_transforms::<u64, StepFailure>(0, 3, Err(failure));
    match step {
        TransformStep::Finish(Err(PipelineError::StepFailure(f))) => {
            assert_eq!(f.step, "Parse");
            assert_eq!(f.message, "bad");
        }
        other => panic!("unexpected step: {other:?}"),
    }
}

#[test]
fn advance_transforms_keeps_a_pipeline_error_as_it_is() {
    let step =
        advance_transforms::<u64, PipelineError>(1, 3, Err(PipelineError::Custom("x".to_string())));
    match step {
        TransformStep::Finish(Err(PipelineError::Custom(text))) => assert_eq!(text, "x"),
        other => panic!("unexpected step: {other:?}"),
    }
}

fn drive(passable: Option<u64>, pipes: &[TransformPipeType<u64>]) -> Result<u64, PipelineError> {
    let mut step = begin_transforms(passable, pipes.len());
    loop {
        match step {
            TransformStep::Run(index, value) => {
                let outcome = pipes[index].handle(value);
                step = advance_transforms(index, pipes.len(), outcome);
            }
            TransformStep::Finish(result) => return result,
        }
    }
}

#[test]
fn stepped_transforms_run_in_order_and_stop_at_the_first_error() {
    let seen = Arc::new(Mutex::new(Vec::new()));
    let pipes: Vec<TransformPipeType<u64>> = vec![
        Arc::new(AddOne(seen.clone())),
        Arc::new(Double),
        Arc::new(AddOne(seen.clone())),
    ];
    assert_eq!(drive(Some(3), &pipes).unwrap(), 9);
    assert_eq!(*seen.lock().unwrap(), vec![3, 8]);

    let failing: Vec<TransformPipeType<u64>> = vec![
        Arc::new(Double),
        Arc::new(FailAt(6)),
        Arc::new(AddOne(seen.clone())),
    ];
    assert!(matches!(drive(Some(3), &failing), Err(PipelineError::StepFailure(_))));
    assert_eq!(*seen.lock().unwrap(), vec![3, 8]);
    assert!(matches!(drive(None, &failing), Err(PipelineError::InputMissing)));
}

fn transforms_from(start: Option<u64>, fail_at: u64) -> TransformPipeline<u64> {
    let pipeline = TransformPipeline::new()
        .through(vec![Arc::new(Double), Arc::new(FailAt(fail_at)), Arc::new(Double)]);
    match start {
        Some(value) => pipeline.send(value),
        None => pipeline,
    }
}

#[test]
fn transform_then_maps_what_then_return_gives() {
    for (start, fail_at) in [(Some(3), 100), (Some(3), 6), (None, 6)] {
        let mapped = transforms_from(start, fail_at).then(|value| value + 1);
        let run = transforms_from(start, fail_at).then_return();
        match (mapped, run) {
            (Ok(m), Ok(r)) => assert_eq!(m, r + 1),
            (Err(a), Err(b)) => assert_eq!(a.describe(), b.describe()),
            other => panic!("then and then_return disagree: {other:?}"),
        }
    }
    assert_eq!(transforms_from(Some(3), 100).then(|value| value + 1).unwrap(), 13);
}

#[test]
fn transform_rescue_recovers_what_then_return_gives() {
    for (start, fail_at) in [(Some(3), 100), (Some(3), 6), (None, 6)] {
        let rescued = transforms_from(start, fail_at).rescue(|_| 0);
        match transforms_from(start, fail_at).then_return() {
            Ok(value) => assert_eq!(rescued.unwrap(), value),
            Err(PipelineError::InputMissing) => {
                assert!(matches!(rescued, Err(PipelineError::InputMissing)))
            }
            Err(_) => assert_eq!(rescued.unwrap(), 0),
        }
    }
}

fn chain_from(start: &str, pipes: Vec<rustpipe::PipeType<String>>) -> Pipeline<String> {
    Pipeline::new().send(start.to_string()).through(pipes)
}

#[test]
fn middleware_then_and_rescue_follow_then_return() {
    let ok = || vec![Arc::new(Tag(":a")) as rustpipe::PipeType<String>, Arc::new(Tag(":b"))];
    let failing = || vec![Arc::new(Tag(":a")) as rustpipe::PipeType<String>, Arc::new(Deny)];
    let run = chain_from("in", ok()).then_return().unwrap();
    assert_eq!(chain_from("in", ok()).then(|value| value.len()).unwrap(), run.len());
    assert_eq!(chain_from("in", ok()).rescue(|_| String::new()).unwrap(), run);
    let failed = chain_from("in", failing()).then_return().unwrap_err().describe();
    let mapped = chain_from("in", failing()).then(|value| value.len()).unwrap_err().describe();
    assert_eq!(mapped, failed);
    let recovered = chain_from("in", failing()).rescue(|err| err.describe()).unwrap();
    assert_eq!(recovered, failed);
}
