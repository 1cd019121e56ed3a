//! The scratchpad that a request is processed in, and the pipeline stages.

use arrayvec::ArrayString;
use vstd::prelude::*;

use crate::numeric::F32;
use crate::types::{id_clear, id_is_empty, OutputBuffer, OutputView, Tensor, TensorView};

pub mod build;
pub mod pool;
pub mod run;
pub mod stages;

pub use crate::types::MAX_ID_LEN;

verus! {

/// What a failed pipeline reports.
#[non_exhaustive]
#[derive(Debug)]
pub enum PipelineError {
    /// A stage refused the scratchpad.
    StageFailed {
        /// Name of the stage.
        stage: &'static str,
        /// Why it refused.
        message: String,
    },
}

impl PipelineError {
    /// True if this is the failure of `stage` with `message`.
    pub open spec fn reports(self, stage: Seq<char>, message: Seq<char>) -> bool {
        match self {
            PipelineError::StageFailed { stage: by, message: why } => by@ == stage && why@
                == message,
        }
    }
}

/// The working memory of one request.
#[derive(Debug)]
pub struct InferenceScratchpad {
    /// Entity identifier.
    pub entity_id: ArrayString<MAX_ID_LEN>,
    /// Request identifier.
    pub request_id: ArrayString<MAX_ID_LEN>,
    /// When the request was received, in milliseconds since the epoch.
    pub timestamp_ms: i64,
    /// Input tensor, allocated at startup to the declared input shape.
    pub input: Tensor,
    /// Output buffers, allocated at startup, one per declared output.
    pub outputs: Vec<OutputBuffer>,
}

/// What a scratchpad holds.
#[verifier::ext_equal]
pub struct ScratchpadView {
    /// Entity identifier.
    pub entity_id: Seq<char>,
    /// Request identifier.
    pub request_id: Seq<char>,
    /// When the request was received.
    pub timestamp_ms: i64,
    /// Input tensor.
    pub input: TensorView,
    /// Output buffers.
    pub outputs: Seq<OutputView>,
}

impl View for InferenceScratchpad {
    type V = ScratchpadView;

    open spec fn view(&self) -> ScratchpadView {
        ScratchpadView {
            entity_id: crate::types::id_text(self.entity_id),
            request_id: crate::types::id_text(self.request_id),
            timestamp_ms: self.timestamp_ms,
            input: self.input@,
            outputs: crate::types::output_views(self.outputs@),
        }
    }
}

impl ScratchpadView {
    /// A scratchpad with the same tensors, before any request.
    pub open spec fn blank(self) -> ScratchpadView {
        ScratchpadView {
            entity_id: Seq::empty(),
            request_id: Seq::empty(),
            timestamp_ms: 0,
            input: self.input.zeroed(),
            outputs: self.outputs.map_values(|output: OutputView| output.zeroed()),
        }
    }

    /// The same scratchpad with other input elements.
    pub open spec fn with_input(self, elements: Seq<F32>) -> ScratchpadView {
        ScratchpadView { input: TensorView { axes: self.input.axes, elements }, ..self }
    }
}

impl InferenceScratchpad {
    /// Clears everything a request has left behind; names, shapes and
    /// allocations stay.
    pub fn reset(&mut self)
        ensures
            final(self)@ == old(self)@.blank(),
    {
        id_clear(&mut self.entity_id);
        id_clear(&mut self.request_id);
        self.timestamp_ms = 0;
        self.input.fill(F32::from_bits(0));
        let ghost before = self.outputs@;
        let count = self.outputs.len();
        for i in 0..count
            invariant
                count == self.outputs@.len(),
                before.len() == count,
                before == old(self).outputs@,
                crate::types::id_text(self.entity_id) == Seq::<char>::empty(),
                crate::types::id_text(self.request_id) == Seq::<char>::empty(),
                self.timestamp_ms == 0,
                self.input@ == old(self).input@.zeroed(),
                forall|j: int| i <= j < count ==> #[trigger] self.outputs@[j] == before[j],
                forall|j: int|
                    0 <= j < i ==> (#[trigger] self.outputs@[j])@ == before[j]@.zeroed(),
        {
            self.outputs[i].data.fill(F32::from_bits(0));
        }
        assert(self@ =~= old(self)@.blank());
    }

    /// True if a pipeline may run on this scratchpad: it names an entity and
    /// has an input.
    pub fn validate(&self) -> (ready: bool)
        ensures
            ready == (self@.entity_id.len() > 0 && self@.input.elements.len() > 0),
    {
        !id_is_empty(&self.entity_id) && !self.input.is_empty()
    }
}

/// Law: resetting twice is resetting once.
pub proof fn law_blank_is_stable(pad: ScratchpadView)
    ensures
        pad.blank().blank() == pad.blank(),
{
    assert(pad.blank().blank() =~~= pad.blank());
}

/// Law: no trace of a request survives a reset. Scratchpads of the same names
/// and shapes are the same afterwards, whatever they held.
pub proof fn law_reset_leaves_no_trace(left: ScratchpadView, right: ScratchpadView)
    requires
        left.input.axes == right.input.axes,
        left.input.elements.len() == right.input.elements.len(),
        left.outputs.len() == right.outputs.len(),
        forall|i: int|
            0 <= i < left.outputs.len() ==> (#[trigger] left.outputs[i]).name
                == right.outputs[i].name && left.outputs[i].data.axes
                == right.outputs[i].data.axes && left.outputs[i].data.elements.len()
                == right.outputs[i].data.elements.len(),
    ensures
        left.blank() == right.blank(),
{
    assert(left.blank() =~~= right.blank());
}

/// Law: a failure is that of a stage for a reason exactly if it carries both
/// texts.
pub proof fn law_failure_carries_its_texts(stage: &'static str, message: String)
    ensures
        forall|by: Seq<char>, why: Seq<char>| #[trigger]
            (PipelineError::StageFailed { stage, message }).reports(by, why) <==> by == stage@
                && why == message@,
{
}

/// Law: what a scratchpad is said to hold is its identifiers, its time, its
/// input and every one of its output buffers.
pub proof fn law_scratchpad_view_shows_everything(pad: InferenceScratchpad, i: int)
    ensures
        pad@.entity_id == crate::types::id_text(pad.entity_id),
        pad@.request_id == crate::types::id_text(pad.request_id),
        pad@.timestamp_ms == pad.timestamp_ms,
        pad@.input == pad.input@,
        pad@.outputs.len() == pad.outputs@.len(),
        0 <= i < pad.outputs@.len() ==> pad@.outputs[i] == pad.outputs@[i]@,
{
}

/// Law: a reset empties both identifiers, sets the time to zero and every
/// element of every tensor to zero; it keeps all names, axes and numbers of
/// elements.
pub proof fn law_reset_clears_everything(pad: ScratchpadView, i: int, k: int)
    ensures
        pad.blank().entity_id.len() == 0,
        pad.blank().request_id.len() == 0,
        pad.blank().timestamp_ms == 0,
        pad.blank().input.axes == pad.input.axes,
        pad.blank().input.elements.len() == pad.input.elements.len(),
        0 <= k < pad.input.elements.len() ==> pad.blank().input.elements[k].bits == 0,
        pad.blank().outputs.len() == pad.outputs.len(),
        0 <= i < pad.outputs.len() ==> pad.blank().outputs[i].name == pad.outputs[i].name
            && pad.blank().outputs[i].data.axes == pad.outputs[i].data.axes
            && pad.blank().outputs[i].data.elements.len() == pad.outputs[i].data.elements.len()
            && (0 <= k < pad.outputs[i].data.elements.len()
            ==> pad.blank().outputs[i].data.elements[k].bits == 0),
{
}

/// Law: giving a scratchpad other input elements changes nothing else.
pub proof fn law_with_input_changes_elements_only(pad: ScratchpadView, elements: Seq<F32>)
    ensures
        pad.with_input(elements).input.elements == elements,
        pad.with_input(elements).input.axes == pad.input.axes,
        pad.with_input(elements).entity_id == pad.entity_id,
        pad.with_input(elements).request_id == pad.request_id,
        pad.with_input(elements).timestamp_ms == pad.timestamp_ms,
        pad.with_input(elements).outputs == pad.outputs,
        pad.with_input(elements).with_input(pad.input.elements) == pad,
{
    assert(pad.with_input(elements).with_input(pad.input.elements) =~= pad);
}

} // verus!
