//! Inference backends.
//!
//! A [`Backend`] is anything that takes named input tensors and writes its
//! predictions into pre-allocated output buffers. It is the one extension point
//! for a new inference runtime: pipeline, server and config do not change.

use vstd::prelude::*;

use crate::config::DeviceConfig;
use crate::error::BackendError;
use crate::numeric::F32;
use crate::types::{NamedTensorRef, OutputBuffer, OutputView, TensorView};

pub mod packaging;

verus! {

/// What a list of borrowed inputs holds: names and values.
pub open spec fn input_views(inputs: Seq<NamedTensorRef<'_>>) -> Seq<(Seq<char>, TensorView)> {
    inputs.map_values(|input: NamedTensorRef<'_>| (input.name@, input.data@))
}

/// An inference runtime, shared by all concurrent requests.
pub trait Backend: core::fmt::Debug + Send + Sync {
    /// The answers that this backend may give to `inputs`: what becomes of the
    /// output buffers, and the outcome. A backend that says nothing more may give
    /// any answer.
    open spec fn answers(
        &self,
        inputs: Seq<(Seq<char>, TensorView)>,
        before: Seq<OutputView>,
        after: Seq<OutputView>,
        outcome: Result<(), BackendError>,
    ) -> bool {
        true
    }

    /// Runs the model on the inputs and writes the results into the output
    /// buffers in place.
    ///
    /// On success every buffer must have been overwritten with the model's
    /// predictions, under its name and in the declared shape. On an error the
    /// contents of the buffers are unspecified.
    ///
    /// The same inputs must always give the same outputs; [`repeatable`] says
    /// this of the answers.
    fn run(&self, inputs: &Vec<NamedTensorRef<'_>>, outputs: &mut Vec<OutputBuffer>) -> (outcome:
        Result<(), BackendError>)
        ensures
            final(outputs)@.len() == old(outputs)@.len(),
            outcome is Ok ==> crate::types::same_declarations(
                crate::types::output_views(final(outputs)@),
                crate::types::output_views(old(outputs)@),
            ),
            self.answers(
                input_views(inputs@),
                crate::types::output_views(old(outputs)@),
                crate::types::output_views(final(outputs)@),
                outcome,
            ),
    ;
}

/// True if a backend's predictions depend on the inputs and on the declared
/// outputs alone, not on what the buffers held before.
pub open spec fn repeatable<B: Backend>(backend: B) -> bool {
    forall|
        inputs: Seq<(Seq<char>, TensorView)>,
        before: Seq<OutputView>,
        after: Seq<OutputView>,
        other_before: Seq<OutputView>,
        other_after: Seq<OutputView>,
    |
        #[trigger] backend.answers(inputs, before, after, Ok::<(), BackendError>(()))
            && #[trigger] backend.answers(
            inputs,
            other_before,
            other_after,
            Ok::<(), BackendError>(()),
        ) && crate::types::same_declarations(before, other_before) ==> after == other_after
}

/// A tensor that a model has produced.
#[derive(Debug)]
pub struct ProducedTensor {
    /// Axis lengths.
    pub shape: Vec<usize>,
    /// Values, in row-major order.
    pub values: Vec<F32>,
}

impl ProducedTensor {
    /// True if this tensor has the shape of an output buffer.
    pub open spec fn fits(self, output: OutputView) -> bool {
        self.shape@ == output.data.axes && self.values@.len() == output.data.elements.len()
    }
}

/// True if the produced tensors can be written into the output buffers: there
/// is one of the right shape for every buffer.
pub open spec fn outputs_fit(produced: Seq<ProducedTensor>, outputs: Seq<OutputView>) -> bool {
    &&& produced.len() >= outputs.len()
    &&& forall|i: int| 0 <= i < outputs.len() ==> (#[trigger] produced[i]).fits(outputs[i])
}

/// The output buffers with the values of the produced tensors.
pub open spec fn written(produced: Seq<ProducedTensor>, outputs: Seq<OutputView>) -> Seq<
    OutputView,
> {
    Seq::new(
        outputs.len(),
        |i: int|
            OutputView {
                name: outputs[i].name,
                data: TensorView { axes: outputs[i].data.axes, elements: produced[i].values@ },
            },
    )
}

/// True if `error` says why the produced tensors cannot be written: too few of
/// them, or otherwise the first that has another shape than its buffer.
pub open spec fn misfit(
    produced: Seq<ProducedTensor>,
    outputs: Seq<OutputView>,
    error: BackendError,
) -> bool {
    if produced.len() < outputs.len() {
        match error {
            BackendError::OutputCountMismatch { expected, got } => expected == outputs.len() && got
                == produced.len(),
            _ => false,
        }
    } else {
        match error {
            BackendError::ShapeMismatch { expected, got } => exists|i: int|
                {
                    &&& 0 <= i < outputs.len()
                    &&& !(#[trigger] produced[i]).fits(outputs[i])
                    &&& forall|j: int| 0 <= j < i ==> (#[trigger] produced[j]).fits(outputs[j])
                    &&& expected@ == outputs[i].data.axes.map_values(|axis: usize| axis as i64)
                    &&& got@ == produced[i].shape@.map_values(|axis: usize| axis as i64)
                },
            _ => false,
        }
    }
}

/// Writes what a model has produced into the output buffers, in order.
///
/// Tensors beyond the declared outputs are not looked at. On an error the
/// buffers before the one at fault have been written.
pub fn write_outputs(outputs: &mut Vec<OutputBuffer>, produced: &Vec<ProducedTensor>) -> (done:
    Result<(), BackendError>)
    ensures
        final(outputs)@.len() == old(outputs)@.len(),
        done is Ok <==> outputs_fit(produced@, crate::types::output_views(old(outputs)@)),
        done is Ok ==> crate::types::output_views(final(outputs)@) == written(
            produced@,
            crate::types::output_views(old(outputs)@),
        ),
        done is Err ==> misfit(
            produced@,
            crate::types::output_views(old(outputs)@),
            done->Err_0,
        ),
{
    let ghost before = crate::types::output_views(outputs@);
    let count = outputs.len();
    if produced.len() < count {
        return Err(BackendError::OutputCountMismatch { expected: count, got: produced.len() });
    }
    for i in 0..count
        invariant
            count == outputs@.len(),
            count == before.len(),
            count <= produced@.len(),
            before == crate::types::output_views(old(outputs)@),
            old(outputs)@.len() == count,
            forall|j: int| i <= j < count ==> #[trigger] outputs@[j] == old(outputs)@[j],
            forall|j: int|
                0 <= j < i ==> (#[trigger] outputs@[j])@ == written(produced@, before)[j],
            forall|j: int| 0 <= j < i ==> (#[trigger] produced@[j]).fits(before[j]),
    {
        assert(outputs@[i as int] == old(outputs)@[i as int]);
        assert(before[i as int] == outputs@[i as int]@);
        let axes = outputs[i].data.shape();
        if !same_axes(&axes, &produced[i].shape) || outputs[i].data.len()
            != produced[i].values.len() {
            assert(!produced@[i as int].fits(before[i as int]));
            return Err(
                BackendError::ShapeMismatch {
                    expected: to_dimensions(&axes),
                    got: to_dimensions(&produced[i].shape),
                },
            );
        }
        outputs[i].data.copy_from(&produced[i].values);
        assert(outputs@[i as int]@ =~= written(produced@, before)[i as int]);
    }
    assert(crate::types::output_views(outputs@) =~= written(produced@, before));
    Ok(())
}

/// True if both lists are the same axis lengths.
pub(crate) fn same_axes(left: &Vec<usize>, right: &Vec<usize>) -> (same: bool)
    ensures
        same == (left@ == right@),
{
    if left.len() != right.len() {
        return false;
    }
    let count = left.len();
    for i in 0..count
        invariant
            count == left@.len(),
            count == right@.len(),
            forall|j: int| 0 <= j < i ==> #[trigger] left@[j] == right@[j],
    {
        if left[i] != right[i] {
            return false;
        }
    }
    assert(left@ =~= right@);
    true
}

/// Axis lengths as signed dimensions.
pub(crate) fn to_dimensions(axes: &Vec<usize>) -> (dimensions: Vec<i64>)
    ensures
        dimensions@ == axes@.map_values(|axis: usize| axis as i64),
{
    let ghost wanted = axes@.map_values(|axis: usize| axis as i64);
    let mut dimensions: Vec<i64> = Vec::new();
    let count = axes.len();
    for i in 0..count
        invariant
            count == axes@.len(),
            wanted == axes@.map_values(|axis: usize| axis as i64),
            dimensions@ == wanted.take(i as int),
    {
        dimensions.push(#[verifier::truncate] (axes[i] as i64));
        assert(wanted.take(i + 1) =~= wanted.take(i as int).push(wanted[i as int]));
    }
    assert(wanted.take(count as int) =~= wanted);
    dimensions
}

/// A step of creating an inference session.
#[derive(Debug)]
pub enum SessionStep {
    /// Getting a session builder.
    Builder,
    /// Setting the optimization level.
    Optimization,
    /// Enabling the execution provider of a device.
    Provider(DeviceConfig),
    /// Loading the model from a path.
    Load(String),
}

/// The message for a step of creating a session that failed.
pub open spec fn session_message(step: SessionStep, cause: Seq<char>) -> Seq<char> {
    match step {
        SessionStep::Builder => "failed to create session builder: "@ + cause,
        SessionStep::Optimization => "failed to set optimization level: "@ + cause,
        SessionStep::Provider(device) => (match device {
            DeviceConfig::Cpu => "CPU"@,
            DeviceConfig::CoreMl => "CoreML"@,
            DeviceConfig::Cuda => "CUDA"@,
            DeviceConfig::TensorRt => "TensorRT"@,
        }) + " EP unavailable: "@ + cause,
        SessionStep::Load(path) => "failed to load model from "@ + path@ + ": "@ + cause,
    }
}

/// The error for a step of creating a session that failed.
pub fn session_error(step: &SessionStep, cause: &str) -> (error: BackendError)
    ensures
        error is SessionCreation,
        error->SessionCreation_0@ == session_message(*step, cause@),
{
    let mut message = String::new();
    match step {
        SessionStep::Builder => {
            message.append("failed to create session builder: ");
        },
        SessionStep::Optimization => {
            message.append("failed to set optimization level: ");
        },
        SessionStep::Provider(device) => {
            let provider = match device {
                DeviceConfig::Cpu => "CPU",
                DeviceConfig::CoreMl => "CoreML",
                DeviceConfig::Cuda => "CUDA",
                DeviceConfig::TensorRt => "TensorRT",
            };
            message.append(provider);
            message.append(" EP unavailable: ");
        },
        SessionStep::Load(path) => {
            message.append("failed to load model from ");
            message.append(path.as_str());
            message.append(": ");
        },
    }
    message.append(cause);
    assert(message@ =~= session_message(*step, cause@));
    BackendError::SessionCreation(message)
}

/// Law: inputs are seen as their names and values, in order.
pub proof fn law_inputs_are_seen_as_they_are(inputs: Seq<NamedTensorRef<'_>>, i: int)
    requires
        0 <= i < inputs.len(),
    ensures
        input_views(inputs).len() == inputs.len(),
        input_views(inputs)[i].0 == inputs[i].name@,
        input_views(inputs)[i].1 == inputs[i].data@,
{
}

/// Law: produced tensors can be written exactly if there is one for every
/// buffer, each with the axes of its buffer and as many values as it has
/// elements; tensors beyond the buffers do not matter.
pub proof fn law_what_outputs_fit(produced: Seq<ProducedTensor>, outputs: Seq<OutputView>)
    ensures
        outputs_fit(produced, outputs) <==> produced.len() >= outputs.len() && (forall|i: int|
            0 <= i < outputs.len() ==> (#[trigger] produced[i]).shape@ == outputs[i].data.axes
                && produced[i].values@.len() == outputs[i].data.elements.len()),
{
    if outputs_fit(produced, outputs) {
        assert forall|i: int| 0 <= i < outputs.len() implies (#[trigger] produced[i]).shape@
            == outputs[i].data.axes && produced[i].values@.len()
            == outputs[i].data.elements.len() by {
            assert(produced[i].fits(outputs[i]));
        }
    }
}

/// Law: writing puts every value of the tensor at a position into the buffer at
/// that position, value by value, and keeps the buffer's name and axes.
pub proof fn law_written_is_what_was_produced(
    produced: Seq<ProducedTensor>,
    outputs: Seq<OutputView>,
    i: int,
    k: int,
)
    requires
        outputs_fit(produced, outputs),
        0 <= i < outputs.len(),
    ensures
        written(produced, outputs).len() == outputs.len(),
        written(produced, outputs)[i].name == outputs[i].name,
        written(produced, outputs)[i].data.axes == outputs[i].data.axes,
        written(produced, outputs)[i].data.elements.len() == outputs[i].data.elements.len(),
        0 <= k < outputs[i].data.elements.len() ==> written(produced, outputs)[i].data.elements[k]
            == produced[i].values@[k],
{
    assert(produced[i].fits(outputs[i]));
}

/// Law: what cannot be written is reported with the numbers of buffers and of
/// tensors if there are too few, and otherwise with the axes of the first buffer
/// that its tensor does not fit and with those of the tensor.
pub proof fn law_what_misfit_is_reported(
    produced: Seq<ProducedTensor>,
    outputs: Seq<OutputView>,
    error: BackendError,
    i: int,
)
    requires
        misfit(produced, outputs, error),
        0 <= i < outputs.len(),
        i < produced.len(),
        produced[i].shape@ != outputs[i].data.axes || produced[i].values@.len()
            != outputs[i].data.elements.len(),
        forall|j: int|
            0 <= j < i ==> (#[trigger] produced[j]).shape@ == outputs[j].data.axes
                && produced[j].values@.len() == outputs[j].data.elements.len(),
    ensures
        produced.len() < outputs.len() ==> (error matches BackendError::OutputCountMismatch {
            expected,
            got,
        } && expected == outputs.len() && got == produced.len()),
        produced.len() >= outputs.len() ==> (error matches BackendError::ShapeMismatch {
            expected,
            got,
        } && expected@ == outputs[i].data.axes.map_values(|axis: usize| axis as i64) && got@
            == produced[i].shape@.map_values(|axis: usize| axis as i64)),
{
    if produced.len() >= outputs.len() {
        let expected = error->ShapeMismatch_expected;
        let got = error->ShapeMismatch_got;
        let first = choose|i: int|
            {
                &&& 0 <= i < outputs.len()
                &&& !(#[trigger] produced[i]).fits(outputs[i])
                &&& forall|j: int| 0 <= j < i ==> (#[trigger] produced[j]).fits(outputs[j])
                &&& expected@ == outputs[i].data.axes.map_values(|axis: usize| axis as i64)
                &&& got@ == produced[i].shape@.map_values(|axis: usize| axis as i64)
            };
        assert(!produced[i].fits(outputs[i]));
        if first < i {
            assert(produced[first].fits(outputs[first]));
        }
        if i < first {
            assert(produced[i].fits(outputs[i]));
        }
    }
}

/// Law: a failed step of creating a session is named, with its device or path,
/// and the cause comes last.
pub proof fn law_session_messages(path: String, cause: Seq<char>)
    ensures
        session_message(SessionStep::Builder, cause) == "failed to create session builder: "@
            + cause,
        session_message(SessionStep::Optimization, cause)
            == "failed to set optimization level: "@ + cause,
        session_message(SessionStep::Provider(DeviceConfig::Cpu), cause) == "CPU"@
            + " EP unavailable: "@ + cause,
        session_message(SessionStep::Provider(DeviceConfig::CoreMl), cause) == "CoreML"@
            + " EP unavailable: "@ + cause,
        session_message(SessionStep::Provider(DeviceConfig::Cuda), cause) == "CUDA"@
            + " EP unavailable: "@ + cause,
        session_message(SessionStep::Provider(DeviceConfig::TensorRt), cause) == "TensorRT"@
            + " EP unavailable: "@ + cause,
        session_message(SessionStep::Load(path), cause) == "failed to load model from "@ + path@
            + ": "@ + cause,
{
}

} // verus!
