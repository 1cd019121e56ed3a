//! Tensors and bounded identifiers shared across modules.

use arrayvec::ArrayString;
use vstd::prelude::*;

use crate::numeric::F32;

verus! {

/// Maximum byte length for output tensor names.
pub const MAX_TENSOR_NAME_LEN: usize = 64;

/// Maximum byte length for entity and request identifiers.
///
/// 128 bytes cover UUIDs (36 bytes), compound identifiers and symbol names with
/// room to spare. A longer identifier is refused before it reaches a pipeline.
pub const MAX_ID_LEN: usize = 128;

/// Number of elements in a tensor with the given axis lengths.
pub open spec fn volume(shape: Seq<usize>) -> int
    decreases shape.len(),
{
    if shape.len() == 0 {
        1
    } else {
        volume(shape.drop_last()) * shape.last()
    }
}

/// Product of the axis lengths other than zero.
pub open spec fn nonzero_volume(shape: Seq<usize>) -> int
    decreases shape.len(),
{
    if shape.len() == 0 {
        1
    } else if shape.last() == 0 {
        nonzero_volume(shape.drop_last())
    } else {
        nonzero_volume(shape.drop_last()) * shape.last()
    }
}

/// True if a tensor of 32-bit elements with this shape can exist: neither the
/// product of its non-zero axes nor its size in bytes exceeds `isize::MAX`.
pub open spec fn allocatable(shape: Seq<usize>) -> bool {
    nonzero_volume(shape) <= isize::MAX && 4 * volume(shape) <= isize::MAX
}

/// A dense row-major n-dimensional array of single-precision values.
///
/// The values are kept as bit patterns. Every tensor is made by
/// [`Tensor::zeros`], or copied from one that was, and keeps its shape for life,
/// so its elements lie in one contiguous run, in row-major order.
#[verifier::external_body]
#[derive(Debug)]
pub struct Tensor {
    array: ndarray::ArrayD<u32>,
}

/// The axis lengths of a tensor.
pub uninterp spec fn tensor_shape(tensor: Tensor) -> Seq<usize>;

/// The bit patterns of a tensor's elements, in row-major order.
pub uninterp spec fn tensor_bits(tensor: Tensor) -> Seq<u32>;

/// `ndarray::ArrayBase::zeros`: an array of the given shape, every element zero.
///
/// It panics if the product of the non-zero axes exceeds `isize::MAX`, and the
/// vector behind it panics if its size in bytes does.
#[verifier::external_body]
fn array_zeros(shape: &Vec<usize>) -> (tensor: Tensor)
    requires
        allocatable(shape@),
    ensures
        tensor_shape(tensor) == shape@,
        tensor_bits(tensor) == Seq::new(volume(shape@) as nat, |i: int| 0u32),
{
    Tensor { array: ndarray::ArrayD::zeros(ndarray::IxDyn(shape.as_slice())) }
}

/// `ndarray::ArrayBase::shape`: the axis lengths.
#[verifier::external_body]
fn array_shape(tensor: &Tensor) -> (shape: Vec<usize>)
    ensures
        shape@ == tensor_shape(*tensor),
{
    tensor.array.shape().to_vec()
}

/// `ndarray::ArrayBase::len`: the number of elements, which is the product of
/// the axis lengths.
#[verifier::external_body]
fn array_len(tensor: &Tensor) -> (len: usize)
    ensures
        len == tensor_bits(*tensor).len(),
        len == volume(tensor_shape(*tensor)),
{
    tensor.array.len()
}

/// `ndarray::ArrayBase::fill`: every element becomes `bits`, the shape stays.
#[verifier::external_body]
fn array_fill(tensor: &mut Tensor, bits: u32)
    ensures
        tensor_shape(*final(tensor)) == tensor_shape(*old(tensor)),
        tensor_bits(*final(tensor)) == Seq::new(tensor_bits(*old(tensor)).len(), |i: int| bits),
{
    tensor.array.fill(bits)
}

/// `ndarray::ArrayBase::mapv_inplace`: every element is replaced by what `f`
/// returns for it, the shape stays.
#[verifier::external_body]
pub(crate) fn array_map(tensor: &mut Tensor, f: impl Fn(u32) -> u32)
    requires
        forall|bits: u32| call_requires(f, (bits,)),
    ensures
        tensor_shape(*final(tensor)) == tensor_shape(*old(tensor)),
        tensor_bits(*final(tensor)).len() == tensor_bits(*old(tensor)).len(),
        forall|i: int|
            0 <= i < tensor_bits(*old(tensor)).len() ==> call_ensures(
                f,
                (tensor_bits(*old(tensor))[i],),
                #[trigger] tensor_bits(*final(tensor))[i],
            ),
{
    tensor.array.mapv_inplace(f)
}

/// `ndarray::ArrayBase::iter`: visits the elements in row-major order.
#[verifier::external_body]
fn array_elements(tensor: &Tensor) -> (bits: Vec<u32>)
    ensures
        bits@ == tensor_bits(*tensor),
{
    tensor.array.iter().copied().collect()
}

/// `ndarray::ArrayBase::as_slice_mut`: the elements as one run in row-major
/// order, which every tensor has; `bits` is copied into it, the shape stays.
#[verifier::external_body]
fn array_copy_from(tensor: &mut Tensor, bits: &Vec<u32>)
    requires
        bits@.len() == tensor_bits(*old(tensor)).len(),
    ensures
        tensor_shape(*final(tensor)) == tensor_shape(*old(tensor)),
        tensor_bits(*final(tensor)) == bits@,
{
    tensor.array.as_slice_mut().expect("contiguous array").copy_from_slice(bits.as_slice())
}

/// `ndarray::ArrayBase::clone`: an array of the same shape and elements.
#[verifier::external_body]
fn array_clone(tensor: &Tensor) -> (copy: Tensor)
    ensures
        tensor_shape(copy) == tensor_shape(*tensor),
        tensor_bits(copy) == tensor_bits(*tensor),
{
    Tensor { array: tensor.array.clone() }
}

/// The values that a run of bit patterns encodes.
pub open spec fn decoded(bits: Seq<u32>) -> Seq<F32> {
    bits.map_values(|pattern: u32| F32 { bits: pattern })
}

impl Tensor {
    /// The axis lengths.
    pub open spec fn axes(self) -> Seq<usize> {
        tensor_shape(self)
    }

    /// The elements, in row-major order.
    pub open spec fn elements(self) -> Seq<F32> {
        decoded(tensor_bits(self))
    }

    /// Makes a tensor of the given shape, every element zero.
    pub fn zeros(shape: &Vec<usize>) -> (tensor: Tensor)
        requires
            allocatable(shape@),
        ensures
            tensor.axes() == shape@,
            tensor.elements() == Seq::new(volume(shape@) as nat, |i: int| F32 { bits: 0 }),
    {
        let tensor = array_zeros(shape);
        assert(tensor.elements() =~= Seq::new(volume(shape@) as nat, |i: int| F32 { bits: 0 }));
        tensor
    }

    /// Makes a tensor of the given shape that holds `values` in row-major order.
    pub fn from_values(shape: &Vec<usize>, values: &Vec<F32>) -> (tensor: Tensor)
        requires
            allocatable(shape@),
            values@.len() == volume(shape@),
        ensures
            tensor.axes() == shape@,
            tensor.elements() == values@,
    {
        let mut tensor = Tensor::zeros(shape);
        tensor.copy_from(values);
        tensor
    }

    /// The axis lengths.
    pub fn shape(&self) -> (shape: Vec<usize>)
        ensures
            shape@ == self.axes(),
    {
        array_shape(self)
    }

    /// The number of elements.
    pub fn len(&self) -> (len: usize)
        ensures
            len == self.elements().len(),
            len == volume(self.axes()),
    {
        array_len(self)
    }

    /// True if there is no element.
    pub fn is_empty(&self) -> (empty: bool)
        ensures
            empty == (self.elements().len() == 0),
    {
        array_len(self) == 0
    }

    /// The elements, in row-major order.
    pub fn values(&self) -> (values: Vec<F32>)
        ensures
            values@ == self.elements(),
    {
        let bits = array_elements(self);
        let mut values: Vec<F32> = Vec::new();
        for i in 0..bits.len()
            invariant
                bits@ == tensor_bits(*self),
                values@ == self.elements().take(i as int),
        {
            values.push(F32::from_bits(bits[i]));
            assert(self.elements().take(i + 1) =~= self.elements().take(i as int).push(
                self.elements()[i as int],
            ));
        }
        assert(self.elements().take(bits@.len() as int) =~= self.elements());
        values
    }

    /// Sets every element to `value`.
    pub fn fill(&mut self, value: F32)
        ensures
            final(self).axes() == old(self).axes(),
            final(self).elements() == Seq::new(old(self).elements().len(), |i: int| value),
    {
        array_fill(self, value.to_bits());
        assert(self.elements() =~= Seq::new(old(self).elements().len(), |i: int| value));
    }

    /// Overwrites the elements with `values`, in row-major order.
    pub fn copy_from(&mut self, values: &Vec<F32>)
        requires
            values@.len() == old(self).elements().len(),
        ensures
            final(self).axes() == old(self).axes(),
            final(self).elements() == values@,
    {
        let mut bits: Vec<u32> = Vec::new();
        for i in 0..values.len()
            invariant
                bits@.len() == i,
                forall|j: int| 0 <= j < i ==> bits@[j] == (#[trigger] values@[j]).bits,
        {
            bits.push(values[i].to_bits());
        }
        array_copy_from(self, &bits);
        assert(self.elements() =~= values@);
    }
}

impl Clone for Tensor {
    fn clone(&self) -> (copy: Self)
        ensures
            copy.axes() == self.axes(),
            copy.elements() == self.elements(),
    {
        array_clone(self)
    }
}

/// A string of at most `CAP` bytes that lives on the stack.
#[verifier::external_type_specification]
#[verifier::external_body]
pub struct BoundedText<const CAP: usize>(ArrayString<CAP>);

/// Number of bytes that a text takes in UTF-8.
pub open spec fn byte_len(text: Seq<char>) -> nat {
    vstd::utf8::encode_utf8(text).len()
}

/// The characters of an identifier.
pub uninterp spec fn id_text(id: ArrayString<MAX_ID_LEN>) -> Seq<char>;

/// The characters of a tensor name.
pub uninterp spec fn name_text(name: ArrayString<MAX_TENSOR_NAME_LEN>) -> Seq<char>;

/// `arrayvec::ArrayString::new`: the empty string.
#[verifier::external_body]
pub(crate) fn id_new() -> (id: ArrayString<MAX_ID_LEN>)
    ensures
        id_text(id) == Seq::<char>::empty(),
{
    ArrayString::new()
}

/// `arrayvec::ArrayString::clear`: empties the string.
#[verifier::external_body]
pub(crate) fn id_clear(id: &mut ArrayString<MAX_ID_LEN>)
    ensures
        id_text(*final(id)) == Seq::<char>::empty(),
{
    id.clear()
}

/// `arrayvec::ArrayString::is_empty`: true if the string holds nothing.
#[verifier::external_body]
pub(crate) fn id_is_empty(id: &ArrayString<MAX_ID_LEN>) -> (empty: bool)
    ensures
        empty == (id_text(*id).len() == 0),
{
    id.is_empty()
}

/// `arrayvec::ArrayString::try_push_str`: appends `text` if the bytes of both
/// fit the capacity; otherwise fails and leaves the string as it was.
#[verifier::external_body]
pub(crate) fn id_try_push_str(id: &mut ArrayString<MAX_ID_LEN>, text: &str) -> (pushed: bool)
    ensures
        pushed == (byte_len(id_text(*old(id))) + byte_len(text@) <= MAX_ID_LEN),
        pushed ==> id_text(*final(id)) == id_text(*old(id)) + text@,
        !pushed ==> id_text(*final(id)) == id_text(*old(id)),
{
    id.try_push_str(text).is_ok()
}

/// `arrayvec::ArrayString::from`: the bounded copy of `text`, or nothing if
/// `text` has more bytes than the capacity.
#[verifier::external_body]
pub(crate) fn name_from(text: &str) -> (name: Option<ArrayString<MAX_TENSOR_NAME_LEN>>)
    ensures
        name is Some <==> byte_len(text@) <= MAX_TENSOR_NAME_LEN,
        name is Some ==> name_text(name->Some_0) == text@,
{
    ArrayString::from(text).ok()
}

/// `arrayvec::ArrayString::as_str`: the string itself.
#[verifier::external_body]
pub(crate) fn name_as_str(name: &ArrayString<MAX_TENSOR_NAME_LEN>) -> (text: &str)
    ensures
        text@ == name_text(*name),
{
    name.as_str()
}

/// A named tensor with owned data, for transfer off the request path.
#[derive(Debug)]
pub struct NamedTensor {
    /// Tensor name as registered in the model schema.
    pub name: String,
    /// Tensor values.
    pub data: Tensor,
}

/// A borrowed named tensor, handed to a backend as input.
#[derive(Debug)]
pub struct NamedTensorRef<'a> {
    /// Tensor name.
    pub name: &'a str,
    /// Tensor values.
    pub data: &'a Tensor,
}

/// A pre-allocated output tensor, owned by the scratchpad.
///
/// The name is set once at startup and the data is allocated to the declared
/// output shape; the backend overwrites the elements on every request.
#[derive(Debug)]
pub struct OutputBuffer {
    /// Name of this output tensor.
    pub name: ArrayString<MAX_TENSOR_NAME_LEN>,
    /// Values, written in place by the backend.
    pub data: Tensor,
}

impl Clone for OutputBuffer {
    fn clone(&self) -> (copy: Self)
        ensures
            copy.name == self.name,
            copy.data.axes() == self.data.axes(),
            copy.data.elements() == self.data.elements(),
    {
        OutputBuffer { name: self.name, data: self.data.clone() }
    }
}

/// What a tensor holds: axis lengths and elements.
#[verifier::ext_equal]
pub struct TensorView {
    /// Axis lengths.
    pub axes: Seq<usize>,
    /// Elements, in row-major order.
    pub elements: Seq<F32>,
}

/// What an output buffer holds.
#[verifier::ext_equal]
pub struct OutputView {
    /// Tensor name.
    pub name: Seq<char>,
    /// Tensor values.
    pub data: TensorView,
}

impl View for Tensor {
    type V = TensorView;

    open spec fn view(&self) -> TensorView {
        TensorView { axes: self.axes(), elements: self.elements() }
    }
}

impl View for OutputBuffer {
    type V = OutputView;

    open spec fn view(&self) -> OutputView {
        OutputView { name: name_text(self.name), data: self.data@ }
    }
}

impl OutputView {
    /// True if both are buffers of the same name, shape and number of elements.
    pub open spec fn declared_as(self, other: OutputView) -> bool {
        &&& self.name == other.name
        &&& self.data.axes == other.data.axes
        &&& self.data.elements.len() == other.data.elements.len()
    }
}

/// True if both lists are buffers of the same names, shapes and numbers of
/// elements.
pub open spec fn same_declarations(left: Seq<OutputView>, right: Seq<OutputView>) -> bool {
    &&& left.len() == right.len()
    &&& forall|i: int| 0 <= i < left.len() ==> (#[trigger] left[i]).declared_as(right[i])
}

/// What a list of output buffers holds.
pub open spec fn output_views(outputs: Seq<OutputBuffer>) -> Seq<OutputView> {
    outputs.map_values(|output: OutputBuffer| output@)
}

impl TensorView {
    /// A tensor of the same shape, every element zero.
    pub open spec fn zeroed(self) -> TensorView {
        TensorView {
            axes: self.axes,
            elements: Seq::new(self.elements.len(), |i: int| F32 { bits: 0 }),
        }
    }
}

impl OutputView {
    /// A buffer of the same name and shape, every element zero.
    pub open spec fn zeroed(self) -> OutputView {
        OutputView { name: self.name, data: self.data.zeroed() }
    }
}

/// The product of the axes is never negative, and is zero or the product of the
/// axes other than zero.
pub proof fn lemma_volume(shape: Seq<usize>)
    ensures
        nonzero_volume(shape) >= 1,
        volume(shape) == 0 || volume(shape) == nonzero_volume(shape),
    decreases shape.len(),
{
    if shape.len() > 0 {
        lemma_volume(shape.drop_last());
        let rest = nonzero_volume(shape.drop_last());
        let axis = shape.last() as int;
        assert(axis >= 1 ==> rest * axis >= 1) by (nonlinear_arith)
            requires
                rest >= 1,
        ;
        assert(0 * axis == 0 && rest * 0 == 0 && volume(shape.drop_last()) * 0 == 0);
    }
}

/// True if a tensor of the given shape can be allocated.
pub fn can_allocate(shape: &Vec<usize>) -> (fits: bool)
    ensures
        fits == allocatable(shape@),
{
    let limit: u128 = isize::MAX as u128;
    let mut product: u128 = 1;
    let mut has_zero = false;
    let mut i: usize = 0;
    while i < shape.len()
        invariant
            i <= shape@.len(),
            limit == isize::MAX,
            limit <= 0x7fff_ffff_ffff_ffff,
            1 <= product <= limit,
            product == nonzero_volume(shape@.take(i as int)),
            volume(shape@.take(i as int)) == (if has_zero {
                0
            } else {
                product as int
            }),
        decreases shape@.len() - i,
    {
        let axis: u128 = shape[i] as u128;
        let ghost next = shape@.take(i + 1);
        proof {
            assert(next.drop_last() =~= shape@.take(i as int));
            assert(next.last() == shape@[i as int]);
        }
        if axis == 0 {
            assert(volume(shape@.take(i as int)) * 0 == 0);
            has_zero = true;
        } else {
            assert(product * axis <= 0x7fff_ffff_ffff_ffff * 0xffff_ffff_ffff_ffff) by (nonlinear_arith)
                requires
                    product <= 0x7fff_ffff_ffff_ffff,
                    axis <= 0xffff_ffff_ffff_ffff,
            ;
            assert(product * axis >= 1) by (nonlinear_arith)
                requires
                    product >= 1,
                    axis >= 1,
            ;
            assert(0 * axis == 0);
            product = product * axis;
            if product > limit {
                proof {
                    lemma_nonzero_volume_grows(shape@, i + 1);
                }
                return false;
            }
        }
        i = i + 1;
    }
    proof {
        assert(shape@.take(shape@.len() as int) =~= shape@);
    }
    has_zero || 4 * product <= limit
}

/// A prefix of a shape has no larger product of non-zero axes.
proof fn lemma_nonzero_volume_grows(shape: Seq<usize>, n: int)
    requires
        0 <= n <= shape.len(),
    ensures
        nonzero_volume(shape.take(n)) <= nonzero_volume(shape),
    decreases shape.len(),
{
    if n == shape.len() {
        assert(shape.take(n) =~= shape);
    } else {
        let front = shape.drop_last();
        lemma_nonzero_volume_grows(front, n);
        lemma_volume(front);
        assert(front.take(n) =~= shape.take(n));
        let rest = nonzero_volume(front);
        let axis = shape.last() as int;
        assert(axis >= 1 ==> rest <= rest * axis) by (nonlinear_arith)
            requires
                rest >= 1,
        ;
    }
}

/// Law: a shape without axes has one element, and one more axis multiplies the
/// number of elements by its length.
pub proof fn law_volume_is_the_product(shape: Seq<usize>, axis: usize)
    ensures
        volume(Seq::<usize>::empty()) == 1,
        volume(shape.push(axis)) == volume(shape) * axis,
        nonzero_volume(Seq::<usize>::empty()) == 1,
        nonzero_volume(shape.push(axis)) == (if axis == 0 {
            nonzero_volume(shape)
        } else {
            nonzero_volume(shape) * axis
        }),
{
    assert(shape.push(axis).drop_last() =~= shape);
}

/// Law: a tensor can exist exactly if neither its four bytes per element nor the
/// product of its axes other than zero exceed the largest signed size.
pub proof fn law_what_can_be_allocated(shape: Seq<usize>)
    ensures
        allocatable(shape) <==> nonzero_volume(shape) <= isize::MAX && 4 * volume(shape)
            <= isize::MAX,
        (forall|i: int| 0 <= i < shape.len() ==> #[trigger] shape[i] != 0) ==> volume(shape)
            == nonzero_volume(shape),
        (exists|i: int| 0 <= i < shape.len() && #[trigger] shape[i] == 0) ==> volume(shape) == 0,
    decreases shape.len(),
{
    if shape.len() > 0 {
        let front = shape.drop_last();
        law_what_can_be_allocated(front);
        if exists|i: int| 0 <= i < shape.len() && #[trigger] shape[i] == 0 {
            let i = choose|i: int| 0 <= i < shape.len() && #[trigger] shape[i] == 0;
            if i < front.len() {
                assert(front[i] == 0);
                assert(0 * shape.last() == 0);
            } else {
                assert(volume(front) * 0 == 0);
            }
        } else {
            assert forall|i: int| 0 <= i < front.len() implies #[trigger] front[i] != 0 by {
                assert(front[i] == shape[i]);
            }
        }
    }
}

/// Law: what a tensor is said to hold is its axes and the bit pattern of each of
/// its elements, in order; what an output buffer is said to hold is that and its
/// name.
pub proof fn law_views_show_everything(tensor: Tensor, buffers: Seq<OutputBuffer>, i: int, k: int)
    ensures
        tensor@.axes == tensor_shape(tensor),
        tensor@.elements.len() == tensor_bits(tensor).len(),
        0 <= k < tensor_bits(tensor).len() ==> tensor@.elements[k].bits == tensor_bits(tensor)[k],
        output_views(buffers).len() == buffers.len(),
        0 <= i < buffers.len() ==> output_views(buffers)[i].name == name_text(buffers[i].name)
            && output_views(buffers)[i].data == buffers[i].data@,
{
}

/// Law: zeroing leaves name, shape and number of elements, and no element other
/// than zero.
pub proof fn law_zeroed_is_all_zero(output: OutputView, k: int)
    ensures
        output.zeroed().name == output.name,
        output.zeroed().data == output.data.zeroed(),
        output.data.zeroed().axes == output.data.axes,
        output.data.zeroed().elements.len() == output.data.elements.len(),
        0 <= k < output.data.elements.len() ==> output.data.zeroed().elements[k].bits == 0,
{
}

/// Law: buffers are declared alike exactly if there are as many, and each has
/// the name, the axes and the number of elements of its counterpart.
pub proof fn law_declared_alike(left: Seq<OutputView>, right: Seq<OutputView>)
    ensures
        same_declarations(left, right) <==> left.len() == right.len() && (forall|i: int|
            0 <= i < left.len() ==> (#[trigger] left[i]).name == right[i].name
                && left[i].data.axes == right[i].data.axes && left[i].data.elements.len()
                == right[i].data.elements.len()),
{
    if left.len() == right.len() && (forall|i: int|
        0 <= i < left.len() ==> (#[trigger] left[i]).name == right[i].name && left[i].data.axes
            == right[i].data.axes && left[i].data.elements.len()
            == right[i].data.elements.len()) {
        assert forall|i: int| 0 <= i < left.len() implies (#[trigger] left[i]).declared_as(
            right[i],
        ) by {}
    }
    if same_declarations(left, right) {
        assert forall|i: int| 0 <= i < left.len() implies (#[trigger] left[i]).name
            == right[i].name && left[i].data.axes == right[i].data.axes
            && left[i].data.elements.len() == right[i].data.elements.len() by {
            assert(left[i].declared_as(right[i]));
        }
    }
}

/// Law: a text takes the bytes of its first character, one to four as its number
/// is large, and the bytes of the rest.
pub proof fn law_bytes_of_text(first: char, rest: Seq<char>)
    ensures
        byte_len(Seq::<char>::empty()) == 0,
        byte_len(seq![first] + rest) == byte_len(rest) + (if (first as u32) < 0x80 {
            1nat
        } else if (first as u32) < 0x800 {
            2nat
        } else if (first as u32) < 0x1_0000 {
            3nat
        } else {
            4nat
        }),
{
    let text = seq![first] + rest;
    assert(text.drop_first() =~= rest);
    assert(text[0] == first);
    vstd::utf8::char_is_scalar(first);
}

} // verus!
