//! Validates the input tensor: its shape, and that no value is NaN or infinite.

use vstd::prelude::*;

use crate::backend::same_axes;
use crate::numeric::F32;
use crate::pipeline::{InferenceScratchpad, PipelineError};
use crate::text::push_size_list;

verus! {

/// Checks input tensor shape, NaN, and infinite values.
///
/// Fails if the actual shape is not `expected_shape`, or if any element is NaN
/// or infinite. An impute stage before this one replaces NaN values rather than
/// having them rejected.
#[derive(Debug)]
pub struct ValidateStage {
    /// Expected shape.
    pub expected_shape: Vec<usize>,
}

/// Index of the first element that is NaN or infinite, or the number of
/// elements if there is none.
pub open spec fn first_nonfinite(elements: Seq<F32>) -> int
    decreases elements.len(),
{
    if elements.len() == 0 || !elements[0].spec_is_finite() {
        0
    } else {
        1 + first_nonfinite(elements.skip(1))
    }
}

/// True if every element is a real number.
pub open spec fn all_finite(elements: Seq<F32>) -> bool {
    forall|i: int| 0 <= i < elements.len() ==> (#[trigger] elements[i]).spec_is_finite()
}

/// The message for a value that is not a real number.
pub open spec fn nonfinite_message(value: F32) -> Seq<char> {
    if value.spec_is_nan() {
        "validate: input contains NaN"@
    } else {
        "validate: input contains infinite value"@
    }
}

impl ValidateStage {
    /// True if an input of this shape and these elements passes.
    pub open spec fn accepts(self, axes: Seq<usize>, elements: Seq<F32>) -> bool {
        axes == self.expected_shape@ && all_finite(elements)
    }

    /// The message with which an input that does not pass is refused: the shape
    /// is looked at first, then the elements in order.
    pub open spec fn complaint(self, axes: Seq<usize>, elements: Seq<F32>) -> Seq<char> {
        if axes != self.expected_shape@ {
            "validate: expected shape "@ + crate::text::list_text(
                crate::text::size_ints(self.expected_shape@),
            ) + ", got "@ + crate::text::list_text(crate::text::size_ints(axes))
        } else {
            nonfinite_message(elements[first_nonfinite(elements)])
        }
    }

    /// Checks the input; leaves the scratchpad as it is.
    pub fn run(&mut self, ctx: &mut InferenceScratchpad) -> (checked: Result<(), PipelineError>)
        ensures
            *final(self) == *old(self),
            *final(ctx) == *old(ctx),
            checked is Ok <==> old(self).accepts(
                old(ctx)@.input.axes,
                old(ctx)@.input.elements,
            ),
            checked is Err ==> checked->Err_0.reports(
                "ValidateStage"@,
                old(self).complaint(old(ctx)@.input.axes, old(ctx)@.input.elements),
            ),
    {
        let shape = ctx.input.shape();
        if !same_axes(&shape, &self.expected_shape) {
            let mut message = String::new();
            message.append("validate: expected shape ");
            push_size_list(&mut message, &self.expected_shape);
            message.append(", got ");
            push_size_list(&mut message, &shape);
            assert(message@ =~= self.complaint(ctx@.input.axes, ctx@.input.elements));
            return Err(PipelineError::StageFailed { stage: "ValidateStage", message });
        }
        let values = ctx.input.values();
        let ghost elements = ctx@.input.elements;
        assert(elements.skip(0) =~= elements);
        let count = values.len();
        for i in 0..count
            invariant
                count == elements.len(),
                values@ == elements,
                elements == ctx@.input.elements,
                *ctx == *old(ctx),
                *self == *old(self),
                ctx@.input.axes == self.expected_shape@,
                forall|j: int| 0 <= j < i ==> (#[trigger] elements[j]).spec_is_finite(),
                first_nonfinite(elements) == i + first_nonfinite(elements.skip(i as int)),
        {
            assert(elements.skip(i as int)[0] == elements[i as int]);
            assert(elements.skip(i as int).skip(1) =~= elements.skip(i + 1));
            if !values[i].is_finite() {
                return Err(non_finite_err(values[i]));
            }
        }
        Ok(())
    }
}

/// The failure for a value that is not a real number.
fn non_finite_err(value: F32) -> (error: PipelineError)
    ensures
        error.reports("ValidateStage"@, nonfinite_message(value)),
{
    let message = if value.is_nan() {
        "validate: input contains NaN"
    } else {
        "validate: input contains infinite value"
    };
    PipelineError::StageFailed { stage: "ValidateStage", message: message.to_owned() }
}

/// Law: after imputation with a real number, validation does not complain of a
/// NaN.
pub proof fn law_imputed_input_has_no_nan(
    impute: crate::pipeline::stages::impute::ImputeStage,
    validate: ValidateStage,
    elements: Seq<F32>,
)
    requires
        impute.default_value.spec_is_finite(),
        forall|i: int|
            0 <= i < elements.len() ==> !(#[trigger] elements[i]).spec_is_infinite(),
    ensures
        validate.accepts(validate.expected_shape@, impute.output(elements)),
{
}

/// Law: clipping what validation has accepted gives something that validation
/// accepts.
pub proof fn law_clipped_input_stays_valid(
    clip: crate::pipeline::stages::clip::ClipStage,
    validate: ValidateStage,
    axes: Seq<usize>,
    elements: Seq<F32>,
)
    requires
        validate.accepts(axes, elements),
        clip.min.spec_is_finite(),
        clip.max.spec_is_finite(),
    ensures
        validate.accepts(axes, clip.output(elements)),
{
}

/// Law: an input passes exactly if it has the expected shape and no element is
/// NaN or infinite.
pub proof fn law_what_validation_accepts(
    stage: ValidateStage,
    axes: Seq<usize>,
    elements: Seq<F32>,
)
    ensures
        stage.accepts(axes, elements) <==> axes == stage.expected_shape@ && (forall|i: int|
            0 <= i < elements.len() ==> (#[trigger] elements[i]).bits as int % 0x8000_0000
                < 0x7f80_0000),
{
    assert forall|i: int| 0 <= i < elements.len() implies (#[trigger] elements[i]).spec_is_finite()
        == (elements[i].bits as int % 0x8000_0000 < 0x7f80_0000) by {
        crate::numeric::law_pattern_meaning(elements[i]);
    }
    if stage.accepts(axes, elements) {
        assert forall|i: int| 0 <= i < elements.len() implies (#[trigger] elements[i]).bits as int
            % 0x8000_0000 < 0x7f80_0000 by {
            assert(elements[i].spec_is_finite());
        }
    }
}

/// Law: an input of another shape than the expected one is refused for it, with
/// both shapes, whatever its elements are.
pub proof fn law_wrong_shape_is_complained_of_first(
    stage: ValidateStage,
    axes: Seq<usize>,
    elements: Seq<F32>,
)
    requires
        axes != stage.expected_shape@,
    ensures
        !stage.accepts(axes, elements),
        stage.complaint(axes, elements) == "validate: expected shape "@ + crate::text::list_text(
            crate::text::size_ints(stage.expected_shape@),
        ) + ", got "@ + crate::text::list_text(crate::text::size_ints(axes)),
{
}

/// Law: an input of the expected shape is refused for its first element that is
/// not a real number: as a NaN or as an infinite value.
pub proof fn law_what_validation_complains_of(
    stage: ValidateStage,
    axes: Seq<usize>,
    elements: Seq<F32>,
    i: int,
)
    requires
        0 <= i < elements.len(),
        !elements[i].spec_is_finite(),
        forall|j: int| 0 <= j < i ==> (#[trigger] elements[j]).spec_is_finite(),
    ensures
        axes == stage.expected_shape@ && elements[i].spec_is_nan() ==> stage.complaint(
            axes,
            elements,
        ) == "validate: input contains NaN"@,
        axes == stage.expected_shape@ && !elements[i].spec_is_nan() ==> stage.complaint(
            axes,
            elements,
        ) == "validate: input contains infinite value"@,
{
    lemma_first_nonfinite(elements, i);
}

/// The first element that is not a real number is found.
proof fn lemma_first_nonfinite(elements: Seq<F32>, i: int)
    requires
        0 <= i < elements.len(),
        !elements[i].spec_is_finite(),
        forall|j: int| 0 <= j < i ==> (#[trigger] elements[j]).spec_is_finite(),
    ensures
        first_nonfinite(elements) == i,
    decreases elements.len(),
{
    if i > 0 {
        let rest = elements.skip(1);
        assert(elements[0].spec_is_finite());
        assert(rest[i - 1] == elements[i]);
        assert forall|j: int| 0 <= j < i - 1 implies (#[trigger] rest[j]).spec_is_finite() by {
            assert(rest[j] == elements[j + 1]);
        }
        lemma_first_nonfinite(rest, i - 1);
    }
}

} // verus!
