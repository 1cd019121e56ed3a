use axon::backend::{session_error, write_outputs, ProducedTensor, SessionStep};
use axon::config::DeviceConfig;
use axon::error::BackendError;
use axon::numeric::F32;
use axon::types::{can_allocate, OutputBuffer, Tensor};

fn f(value: f32) -> F32 {
    F32::from_bits(value.to_bits())
}

fn list(values: &[f32]) -> Vec<F32> {
    values.iter().map(|v| f(*v)).collect()
}

fn buffer(name: &str, shape: &[usize]) -> OutputBuffer {
    OutputBuffer { name: name.parse().unwrap(), data: Tensor::zeros(&shape.to_vec()) }
}

#[test]
fn tensor_keeps_shape_and_values() {
    let mut tensor = Tensor::zeros(&vec![2, 3]);
    assert_eq!(tensor.shape(), vec![2, 3]);
    assert_eq!(tensor.len(), 6);
    assert!(!tensor.is_empty());
    assert_eq!(tensor.values(), list(&[0.0; 6]));
    tensor.copy_from(&list(&[1.0, 2.0, 3.0, 4.0, 5.0, 6.0]));
    assert_eq!(tensor.values(), list(&[1.0, 2.0, 3.0, 4.0, 5.0, 6.0]));
    let copy = tensor.clone();
    tensor.fill(f(-1.0));
    assert_eq!(tensor.values(), list(&[-1.0; 6]));
    assert_eq!(copy.values(), list(&[1.0, 2.0, 3.0, 4.0, 5.0, 6.0]));
    assert_eq!(copy.shape(), vec![2, 3]);
}

#[test]
fn tensor_without_axes_is_a_scalar() {
    let tensor = Tensor::from_values(&vec![], &list(&[7.0]));
    assert_eq!(tensor.shape(), Vec::<usize>::new());
    assert_eq!(tensor.len(), 1);
    assert_eq!(tensor.values(), list(&[7.0]));
}

#[test]
fn tensor_with_a_zero_axis_is_empty() {
    let tensor = Tensor::zeros(&vec![3, 0]);
    assert!(tensor.is_empty());
    assert_eq!(tensor.len(), 0);
    assert_eq!(tensor.values(), Vec::new());
}

#[test]
fn output_buffer_clone_keeps_everything() {
    let mut buffer = buffer("score", &[1, 2]);
    buffer.data.fill(f(0.5));
    let copy = buffer.clone();
    assert_eq!(copy.name.as_str(), "score");
    assert_eq!(copy.data.shape(), vec![1, 2]);
    assert_eq!(copy.data.values(), list(&[0.5, 0.5]));
}

#[test]
fn allocation_limits() {
    assert!(can_allocate(&vec![]));
    assert!(can_allocate(&vec![1, 28, 28]));
    assert!(can_allocate(&vec![0, 1 << 62]));
    assert!(!can_allocate(&vec![0, usize::MAX]));
    assert!(!can_allocate(&vec![0, 1 << 40, 1 << 40]));
    assert!(!can_allocate(&vec![1 << 62]));
    assert!(!can_allocate(&vec![usize::MAX, usize::MAX]));
}

#[test]
fn outputs_are_written_in_order() {
    let mut outputs = vec![buffer("a", &[1, 2]), buffer("b", &[1])];
    let produced = vec![
        ProducedTensor { shape: vec![1, 2], values: list(&[1.0, 2.0]) },
        ProducedTensor { shape: vec![1], values: list(&[3.0]) },
        ProducedTensor { shape: vec![9], values: list(&[0.0; 9]) },
    ];
    write_outputs(&mut outputs, &produced).unwrap();
    assert_eq!(outputs[0].data.values(), list(&[1.0, 2.0]));
    assert_eq!(outputs[1].data.values(), list(&[3.0]));
    assert_eq!(outputs[1].name.as_str(), "b");
}

#[test]
fn too_few_outputs_are_refused() {
    let mut outputs = vec![buffer("a", &[1]), buffer("b", &[1])];
    let produced = vec![ProducedTensor { shape: vec![1], values: list(&[1.0]) }];
    assert!(matches!(
        write_outputs(&mut outputs, &produced),
        Err(BackendError::OutputCountMismatch { expected: 2, got: 1 })
    ));
}

#[test]
fn output_of_another_shape_is_refused() {
    let mut outputs = vec![buffer("a", &[1]), buffer("b", &[2, 1])];
    let produced = vec![
        ProducedTensor { shape: vec![1], values: list(&[1.0]) },
        ProducedTensor { shape: vec![1, 2], values: list(&[1.0, 2.0]) },
    ];
    match write_outputs(&mut outputs, &produced) {
        Err(BackendError::ShapeMismatch { expected, got }) => {
            assert_eq!(expected, vec![2, 1]);
            assert_eq!(got, vec![1, 2]);
        }
        other => panic!("expected a shape mismatch, got {other:?}"),
    }
}

#[test]
fn session_errors_name_the_step() {
    let text = |step: SessionStep| session_error(&step, "boom").message();
    assert_eq!(
        text(SessionStep::Builder),
        "failed to create inference session: failed to create session builder: boom"
    );
    assert_eq!(
        text(SessionStep::Optimization),
        "failed to create inference session: failed to set optimization level: boom"
    );
    assert_eq!(
        text(SessionStep::Provider(DeviceConfig::CoreMl)),
        "failed to create inference session: CoreML EP unavailable: boom"
    );
    assert_eq!(
        text(SessionStep::Provider(DeviceConfig::Cuda)),
        "failed to create inference session: CUDA EP unavailable: boom"
    );
    assert_eq!(
        text(SessionStep::Provider(DeviceConfig::TensorRt)),
        "failed to create inference session: TensorRT EP unavailable: boom"
    );
    assert_eq!(
        text(SessionStep::Load("m.onnx".to_owned())),
        "failed to create inference session: failed to load model from m.onnx: boom"
    );
}
