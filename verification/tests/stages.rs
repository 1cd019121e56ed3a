use std::sync::{Arc, Mutex};

use arrayvec::ArrayString;

use axon::backend::Backend;
use axon::config::OutputType;
use axon::error::BackendError;
use axon::numeric::F32;
use axon::pipeline::stages::clip::ClipStage;
use axon::pipeline::stages::impute::ImputeStage;
use axon::pipeline::stages::infer::InferStage;
use axon::pipeline::stages::normalize::NormalizeStage;
use axon::pipeline::stages::postprocess::PostprocessStage;
use axon::pipeline::stages::validate::ValidateStage;
use axon::pipeline::{InferenceScratchpad, PipelineError};
use axon::types::{NamedTensorRef, OutputBuffer, Tensor};

fn f(value: f32) -> F32 {
    F32::from_bits(value.to_bits())
}

fn tensor(shape: &[usize], values: &[f32]) -> Tensor {
    let values: Vec<F32> = values.iter().map(|v| f(*v)).collect();
    Tensor::from_values(&shape.to_vec(), &values)
}

fn floats(tensor: &Tensor) -> Vec<f32> {
    tensor.values().iter().map(|v| f32::from_bits(v.to_bits())).collect()
}

fn ctx(values: &[f32]) -> InferenceScratchpad {
    InferenceScratchpad {
        entity_id: ArrayString::new(),
        request_id: ArrayString::new(),
        timestamp_ms: 0,
        input: tensor(&[values.len()], values),
        outputs: Vec::new(),
    }
}

fn ctx_with_output(values: &[f32]) -> InferenceScratchpad {
    let mut pad = ctx(&[0.0]);
    pad.outputs.push(OutputBuffer {
        name: "output".parse().unwrap(),
        data: tensor(&[values.len()], values),
    });
    pad
}

fn failure(result: Result<(), PipelineError>) -> (String, String) {
    match result {
        Err(PipelineError::StageFailed { stage, message }) => (stage.to_owned(), message),
        other => panic!("expected a failed stage, got {other:?}"),
    }
}

// Clip

#[test]
fn values_within_range_unchanged() {
    let mut stage = ClipStage { min: f(-1.0), max: f(1.0) };
    let mut ctx = ctx(&[0.0, 0.5, -0.5]);
    stage.run(&mut ctx).unwrap();
    assert_eq!(floats(&ctx.input), &[0.0, 0.5, -0.5]);
}

#[test]
fn values_below_min_clamped() {
    let mut stage = ClipStage { min: f(-1.0), max: f(1.0) };
    let mut ctx = ctx(&[-5.0]);
    stage.run(&mut ctx).unwrap();
    assert_eq!(floats(&ctx.input)[0], -1.0);
}

#[test]
fn values_above_max_clamped() {
    let mut stage = ClipStage { min: f(-1.0), max: f(1.0) };
    let mut ctx = ctx(&[5.0]);
    stage.run(&mut ctx).unwrap();
    assert_eq!(floats(&ctx.input)[0], 1.0);
}

#[test]
fn boundary_values_unchanged() {
    let mut stage = ClipStage { min: f(-1.0), max: f(1.0) };
    let mut ctx = ctx(&[-1.0, 1.0]);
    stage.run(&mut ctx).unwrap();
    assert_eq!(floats(&ctx.input), &[-1.0, 1.0]);
}

#[test]
fn clip_always_returns_ok() {
    let mut stage = ClipStage { min: f(0.0), max: f(1.0) };
    let mut ctx = ctx(&[-999.0, 999.0]);
    assert!(stage.run(&mut ctx).is_ok());
}

#[test]
fn clip_output_always_in_range() {
    let values = [-1e6, -3.5, -0.0, 0.25, 7.0, 1e6, f32::INFINITY, f32::NEG_INFINITY];
    for (min, max) in [(-3.0f32, 3.0f32), (-1e5, 0.5), (-0.5, -0.25)] {
        let mut stage = ClipStage { min: f(min), max: f(max) };
        let mut ctx = ctx(&values);
        stage.run(&mut ctx).unwrap();
        for (out, v) in floats(&ctx.input).iter().zip(values) {
            assert!(*out >= min && *out <= max);
            assert_eq!(*out, v.clamp(min, max));
        }
    }
}

#[test]
fn clip_in_range_elements_unchanged() {
    let mut stage = ClipStage { min: f(-2.0), max: f(5.0) };
    let mut pad = ctx(&[-1.99, 0.1, 4.99]);
    stage.run(&mut pad).unwrap();
    assert_eq!(floats(&pad.input), &[-1.99, 0.1, 4.99]);
    stage.run(&mut pad).unwrap();
    assert_eq!(floats(&pad.input), &[-1.99, 0.1, 4.99]);
}

#[test]
fn clip_keeps_order() {
    let mut pad = ctx(&[-9.0, -2.0, -1.0, 0.0, 4.5, 5.0, 9.0]);
    ClipStage { min: f(-2.0), max: f(5.0) }.run(&mut pad).unwrap();
    let clipped = floats(&pad.input);
    assert!(clipped.windows(2).all(|pair| pair[0] <= pair[1]));
}

#[test]
fn clip_leaves_nan() {
    let mut stage = ClipStage { min: f(-1.0), max: f(1.0) };
    let mut pad = ctx(&[f32::NAN]);
    stage.run(&mut pad).unwrap();
    assert!(floats(&pad.input)[0].is_nan());
}

// Impute

#[test]
fn non_nan_values_unchanged() {
    let mut stage = ImputeStage { default_value: f(0.0) };
    let mut ctx = ctx(&[1.0, 2.0, 3.0]);
    stage.run(&mut ctx).unwrap();
    assert_eq!(floats(&ctx.input), &[1.0, 2.0, 3.0]);
}

#[test]
fn nan_replaced_with_default() {
    let mut stage = ImputeStage { default_value: f(-1.0) };
    let mut ctx = ctx(&[f32::NAN]);
    stage.run(&mut ctx).unwrap();
    assert_eq!(floats(&ctx.input)[0], -1.0);
}

#[test]
fn only_nan_values_replaced() {
    let mut stage = ImputeStage { default_value: f(99.0) };
    let mut ctx = ctx(&[1.0, f32::NAN, 3.0]);
    stage.run(&mut ctx).unwrap();
    let s = floats(&ctx.input);
    assert_eq!(s[0], 1.0);
    assert_eq!(s[1], 99.0);
    assert_eq!(s[2], 3.0);
}

#[test]
fn impute_always_returns_ok() {
    let mut stage = ImputeStage { default_value: f(0.0) };
    let mut ctx = ctx(&[f32::NAN, f32::NAN]);
    assert!(stage.run(&mut ctx).is_ok());
}

#[test]
fn impute_removes_all_nans() {
    let mut stage = ImputeStage { default_value: f(2.5) };
    let quiet = f32::from_bits(0xffc0_0001);
    let loud = f32::from_bits(0x7f80_0001);
    let mut pad = ctx(&[f32::NAN, quiet, loud, f32::INFINITY, -0.0]);
    stage.run(&mut pad).unwrap();
    assert_eq!(floats(&pad.input), &[2.5, 2.5, 2.5, f32::INFINITY, -0.0]);
}

#[test]
fn impute_preserves_non_nan_values() {
    let values = [-1e6, -1.5, 0.0, 1e-40, 1e6];
    let mut stage = ImputeStage { default_value: f(f32::NAN) };
    let mut pad = ctx(&values);
    stage.run(&mut pad).unwrap();
    assert_eq!(floats(&pad.input), &values);
}

// Normalize

#[test]
fn subtracts_mean() {
    let mut stage = NormalizeStage { mean: f(2.0), inv_std: f(1.0) };
    let mut ctx = ctx(&[2.0, 4.0]);
    stage.run(&mut ctx).unwrap();
    assert_eq!(floats(&ctx.input), &[0.0, 2.0]);
}

#[test]
fn scales_by_inv_std() {
    let mut stage = NormalizeStage { mean: f(0.0), inv_std: f(2.0) };
    let mut ctx = ctx(&[1.0, 3.0]);
    stage.run(&mut ctx).unwrap();
    assert_eq!(floats(&ctx.input), &[2.0, 6.0]);
}

#[test]
fn combined_transform() {
    let mut stage = NormalizeStage { mean: f(1.0), inv_std: f(0.5) };
    let mut ctx = ctx(&[3.0]);
    stage.run(&mut ctx).unwrap();
    assert!((floats(&ctx.input)[0] - 1.0).abs() < 1e-6);
}

#[test]
fn zero_input_minus_mean_gives_neg_mean_times_inv_std() {
    let mut stage = NormalizeStage { mean: f(4.0), inv_std: f(0.25) };
    let mut ctx = ctx(&[0.0]);
    stage.run(&mut ctx).unwrap();
    assert!((floats(&ctx.input)[0] - (-1.0)).abs() < 1e-6);
}

#[test]
fn normalize_always_returns_ok() {
    let mut stage = NormalizeStage { mean: f(0.0), inv_std: f(1.0) };
    let mut ctx = ctx(&[1.0]);
    assert!(stage.run(&mut ctx).is_ok());
}

#[test]
fn normalize_rounds_each_operation() {
    let values = [0.1f32, -7.3, 1e-30, 3.4e38, f32::INFINITY];
    let (mean, inv_std) = (0.3f32, 1.0f32 / 0.7);
    let mut stage = NormalizeStage { mean: f(mean), inv_std: f(inv_std) };
    let mut pad = ctx(&values);
    stage.run(&mut pad).unwrap();
    for (out, v) in floats(&pad.input).iter().zip(values) {
        assert_eq!(out.to_bits(), ((v - mean) * inv_std).to_bits());
    }
}

// Validate

#[test]
fn correct_shape_passes() {
    let mut stage = ValidateStage { expected_shape: vec![3] };
    let mut ctx = ctx(&[1.0, 2.0, 3.0]);
    assert!(stage.run(&mut ctx).is_ok());
}

#[test]
fn wrong_shape_fails() {
    let mut stage = ValidateStage { expected_shape: vec![4] };
    let mut ctx = ctx(&[1.0, 2.0, 3.0]);
    assert_eq!(
        failure(stage.run(&mut ctx)),
        (
            "ValidateStage".to_owned(),
            "validate: expected shape [4], got [3]".to_owned()
        )
    );
}

#[test]
fn same_count_in_another_shape_fails() {
    let mut stage = ValidateStage { expected_shape: vec![2, 2] };
    let mut pad = ctx(&[1.0, 2.0, 3.0, 4.0]);
    assert_eq!(
        failure(stage.run(&mut pad)).1,
        "validate: expected shape [2, 2], got [4]"
    );
}

#[test]
fn nan_fails() {
    let mut stage = ValidateStage { expected_shape: vec![2] };
    let mut ctx = ctx(&[1.0, f32::NAN]);
    assert_eq!(failure(stage.run(&mut ctx)).1, "validate: input contains NaN");
}

#[test]
fn infinite_fails() {
    let mut stage = ValidateStage { expected_shape: vec![1] };
    let mut ctx = ctx(&[f32::INFINITY]);
    assert_eq!(
        failure(stage.run(&mut ctx)).1,
        "validate: input contains infinite value"
    );
}

#[test]
fn neg_infinite_fails() {
    let mut stage = ValidateStage { expected_shape: vec![1] };
    let mut ctx = ctx(&[f32::NEG_INFINITY]);
    assert!(stage.run(&mut ctx).is_err());
}

#[test]
fn first_bad_value_decides_the_message() {
    let mut stage = ValidateStage { expected_shape: vec![3] };
    let mut pad = ctx(&[0.0, f32::NEG_INFINITY, f32::NAN]);
    assert_eq!(
        failure(stage.run(&mut pad)).1,
        "validate: input contains infinite value"
    );
}

#[test]
fn all_finite_passes() {
    let mut stage = ValidateStage { expected_shape: vec![4] };
    let mut ctx = ctx(&[-1.0, 0.0, 0.5, 1e6]);
    assert!(stage.run(&mut ctx).is_ok());
    assert_eq!(floats(&ctx.input), &[-1.0, 0.0, 0.5, 1e6]);
}

#[test]
fn validate_accepts_any_finite_correct_shape() {
    for n in 1..50usize {
        let values: Vec<f32> = (0..n).map(|i| (i as f32 - 25.0) * 4e4).collect();
        let mut stage = ValidateStage { expected_shape: vec![n] };
        assert!(stage.run(&mut ctx(&values)).is_ok());
    }
}

#[test]
fn validate_rejects_any_wrong_shape() {
    for extra in 1..10usize {
        let mut stage = ValidateStage { expected_shape: vec![5 + extra] };
        assert!(stage.run(&mut ctx(&[0.0; 5])).is_err());
    }
}

#[test]
fn imputed_input_passes_validation() {
    let mut pad = ctx(&[f32::NAN, 1.0]);
    let mut validate = ValidateStage { expected_shape: vec![2] };
    assert!(validate.run(&mut pad).is_err());
    ImputeStage { default_value: f(0.0) }.run(&mut pad).unwrap();
    assert!(validate.run(&mut pad).is_ok());
    ClipStage { min: f(0.25), max: f(0.75) }.run(&mut pad).unwrap();
    assert!(validate.run(&mut pad).is_ok());
}

#[test]
fn imputed_then_clipped_values_lie_in_range() {
    let mut pad = ctx(&[f32::NAN, f32::INFINITY, -1e30, 0.5]);
    ImputeStage { default_value: f(99.0) }.run(&mut pad).unwrap();
    ClipStage { min: f(-3.0), max: f(3.0) }.run(&mut pad).unwrap();
    assert_eq!(floats(&pad.input), &[3.0, 3.0, -3.0, 0.5]);
}

#[test]
fn mean_is_normalised_to_zero() {
    let mut pad = ctx(&[2.75, 2.75]);
    NormalizeStage { mean: f(2.75), inv_std: f(-1e20) }.run(&mut pad).unwrap();
    assert!(floats(&pad.input).iter().all(|v| *v == 0.0));
}

#[test]
fn standard_scale_changes_nothing() {
    let values = [-0.0, 1e-45, 3.4e38, f32::NEG_INFINITY, 0.1];
    let mut pad = ctx(&values);
    NormalizeStage { mean: f(0.0), inv_std: f(1.0) }.run(&mut pad).unwrap();
    for (out, v) in floats(&pad.input).iter().zip(values) {
        assert_eq!(out.to_bits(), v.to_bits());
    }
}

// Postprocess

fn postprocess(threshold: f32, output_type: OutputType) -> PostprocessStage {
    PostprocessStage { threshold: f(threshold), output_type }
}

#[test]
fn binary_above_threshold_gives_1() {
    let mut ctx = ctx_with_output(&[0.8]);
    postprocess(0.5, OutputType::Binary).run(&mut ctx).unwrap();
    assert_eq!(floats(&ctx.outputs[0].data)[0], 1.0);
}

#[test]
fn binary_at_threshold_gives_neg1() {
    let mut ctx = ctx_with_output(&[0.5]);
    postprocess(0.5, OutputType::Binary).run(&mut ctx).unwrap();
    assert_eq!(floats(&ctx.outputs[0].data)[0], -1.0);
}

#[test]
fn binary_below_threshold_gives_neg1() {
    let mut ctx = ctx_with_output(&[0.2]);
    postprocess(0.5, OutputType::Binary).run(&mut ctx).unwrap();
    assert_eq!(floats(&ctx.outputs[0].data)[0], -1.0);
}

#[test]
fn binary_score_that_is_nan_gives_neg1() {
    let mut ctx = ctx_with_output(&[f32::NAN]);
    postprocess(0.5, OutputType::Binary).run(&mut ctx).unwrap();
    assert_eq!(floats(&ctx.outputs[0].data)[0], -1.0);
}

#[test]
fn probability_passthrough() {
    let mut ctx = ctx_with_output(&[0.7, 0.3]);
    postprocess(0.5, OutputType::Probability).run(&mut ctx).unwrap();
    assert_eq!(floats(&ctx.outputs[0].data), &[0.7, 0.3]);
}

#[test]
fn raw_passthrough() {
    let mut ctx = ctx_with_output(&[1.5, -2.0]);
    postprocess(0.5, OutputType::Raw).run(&mut ctx).unwrap();
    assert_eq!(floats(&ctx.outputs[0].data), &[1.5, -2.0]);
}

#[test]
fn empty_outputs_fails() {
    let mut pad = ctx(&[0.0]);
    assert_eq!(
        failure(postprocess(0.5, OutputType::Binary).run(&mut pad)),
        (
            "PostprocessStage".to_owned(),
            "postprocess: no outputs from infer stage".to_owned()
        )
    );
    assert!(postprocess(0.5, OutputType::Raw).run(&mut pad).is_err());
}

#[test]
fn binary_non_scalar_fails() {
    let mut ctx = ctx_with_output(&[0.6, 0.4]);
    assert_eq!(
        failure(postprocess(0.5, OutputType::Binary).run(&mut ctx)).1,
        "postprocess: binary output type requires a scalar output, got shape [2]"
    );
    assert_eq!(floats(&ctx.outputs[0].data), &[0.6, 0.4]);
}

#[test]
fn only_first_output_is_interpreted() {
    let mut pad = ctx_with_output(&[0.9]);
    pad.outputs.push(OutputBuffer {
        name: "second".parse().unwrap(),
        data: tensor(&[1], &[0.9]),
    });
    postprocess(0.5, OutputType::Binary).run(&mut pad).unwrap();
    assert_eq!(floats(&pad.outputs[0].data), &[1.0]);
    assert_eq!(floats(&pad.outputs[1].data), &[0.9]);
}

// Infer

#[derive(Debug)]
struct MockBackend {
    output_value: f32,
}

impl Backend for MockBackend {
    fn run(
        &self,
        _inputs: &Vec<NamedTensorRef<'_>>,
        outputs: &mut Vec<OutputBuffer>,
    ) -> Result<(), BackendError> {
        for out in outputs.iter_mut() {
            out.data.fill(f(self.output_value));
        }
        Ok(())
    }
}

#[derive(Debug)]
struct FailingBackend;

impl Backend for FailingBackend {
    fn run(
        &self,
        _inputs: &Vec<NamedTensorRef<'_>>,
        _outputs: &mut Vec<OutputBuffer>,
    ) -> Result<(), BackendError> {
        Err(BackendError::InferenceFailed("backend exploded".into()))
    }
}

#[derive(Debug)]
struct CapturingBackend {
    captured: Mutex<Vec<(String, Vec<f32>)>>,
}

impl Backend for CapturingBackend {
    fn run(
        &self,
        inputs: &Vec<NamedTensorRef<'_>>,
        _outputs: &mut Vec<OutputBuffer>,
    ) -> Result<(), BackendError> {
        *self.captured.lock().unwrap() =
            inputs.iter().map(|t| (t.name.to_owned(), floats(t.data))).collect();
        Ok(())
    }
}

#[test]
fn backend_output_written_to_scratchpad() {
    let mut stage = InferStage {
        backend: Arc::new(MockBackend { output_value: 42.0 }),
        input_name: "features".parse().unwrap(),
    };
    let mut ctx = ctx_with_output(&[0.0]);
    stage.run(&mut ctx).unwrap();
    assert_eq!(floats(&ctx.outputs[0].data)[0], 42.0);
}

#[test]
fn backend_error_propagates_as_stage_failed() {
    let mut stage = InferStage {
        backend: Arc::new(FailingBackend),
        input_name: "features".parse().unwrap(),
    };
    let err = stage.run(&mut ctx_with_output(&[0.0])).unwrap_err();
    assert!(matches!(err, PipelineError::StageFailed { stage: "InferStage", .. }));
    assert_eq!(failure(Err(err)).1, "inference failed: backend exploded");
}

#[test]
fn input_name_forwarded_to_backend() {
    let capturing = Arc::new(CapturingBackend { captured: Mutex::new(Vec::new()) });
    let mut stage = InferStage {
        backend: Arc::clone(&capturing),
        input_name: "my_input".parse().unwrap(),
    };
    let mut pad = ctx(&[1.5, 2.5]);
    stage.run(&mut pad).unwrap();
    let captured = capturing.captured.lock().unwrap();
    assert_eq!(*captured, vec![("my_input".to_owned(), vec![1.5, 2.5])]);
}
