//! Quantization utilities for the Titan model: PolarQuant (magnitude and
//! direction) and QJL (one-bit quantization).
//!
//! What is stated here is when the operations succeed and the shape, element
//! type and device of their results; the element values are floating point
//! and are not described.
use vstd::prelude::*;
use crate::tensor::{
    broadcast_dims, broadcast_mul_of, computable_dtype, has_empty_axis, integer_pair_on_cpu,
    shape_fits, sign_of,
    tensor_dims, tensor_dtype, tensor_on_cpu,
};

verus! {

/// PolarQuant separates magnitude (radius) and normalized direction.
pub struct PolarQuant;

impl PolarQuant {
    /// Decompresses the magnitude and direction back into the original
    /// representation: their product under broadcasting.
    ///
    /// Incompatible shapes are refused, and a product without elements is
    /// always formed. For operands in main memory the product is formed
    /// exactly when the shapes are compatible and either the product has no
    /// element or both operands have the same computable element type. A
    /// result has the radius's element type and device. (Shapes whose element
    /// counts overflow `usize` are left out, and so are non-empty products of
    /// two operands in main memory with one integer element type, whose
    /// unchecked integer products can overflow.)
    pub fn decompress(radius: &candle_core::Tensor, direction: &candle_core::Tensor) -> (r: Result<
        candle_core::Tensor,
        candle_core::Error,
    >)
        requires
            broadcast_dims(tensor_dims(*radius), tensor_dims(*direction)) is Some ==> shape_fits(
                broadcast_dims(tensor_dims(*radius), tensor_dims(*direction)).unwrap(),
            ),
            broadcast_dims(tensor_dims(*radius), tensor_dims(*direction)) is Some
                && integer_pair_on_cpu(*radius, *direction) ==> has_empty_axis(
                broadcast_dims(tensor_dims(*radius), tensor_dims(*direction)).unwrap(),
            ),
        ensures
            broadcast_dims(tensor_dims(*radius), tensor_dims(*direction)) is None ==> r is Err,
            (broadcast_dims(tensor_dims(*radius), tensor_dims(*direction)) is Some
                && has_empty_axis(broadcast_dims(tensor_dims(*radius), tensor_dims(*direction)).unwrap()))
                ==> r is Ok,
            tensor_on_cpu(*radius) && tensor_on_cpu(*direction) ==> (r is Ok <==> (broadcast_dims(
                tensor_dims(*radius),
                tensor_dims(*direction),
            ) is Some && (has_empty_axis(
                broadcast_dims(tensor_dims(*radius), tensor_dims(*direction)).unwrap(),
            ) || (tensor_dtype(*radius) == tensor_dtype(*direction) && computable_dtype(
                tensor_dtype(*radius),
            ))))),
            r matches Ok(y) ==> broadcast_dims(tensor_dims(*radius), tensor_dims(*direction))
                == Some(tensor_dims(y)) && tensor_dtype(y) == tensor_dtype(*radius) && tensor_on_cpu(y)
                == tensor_on_cpu(*radius),
    {
        broadcast_mul_of(radius, direction)
    }
}

/// Law: a radius that keeps the last axis with size one broadcasts against a
/// direction of the original shape to exactly that shape, so decompressing
/// a compressed tensor gives back a tensor of the original dimensions.
pub proof fn lemma_decompress_restores_shape(dims: Seq<usize>)
    requires
        dims.len() >= 1,
    ensures
        broadcast_dims(dims.update(dims.len() - 1, 1), dims) == Some(dims),
{
    let radius = dims.update(dims.len() - 1, 1);
    let n = dims.len() as int;
    assert forall|idx: int| 0 <= idx < n implies #[trigger] crate::tensor::compatible_at(radius, dims, idx) by {
        assert(radius[idx] == dims[idx] || idx == n - 1);
    }
    let b = broadcast_dims(radius, dims).unwrap();
    assert(b =~= dims) by {
        assert forall|idx: int| 0 <= idx < n implies b[idx] == dims[idx] by {
            assert(radius[idx] == dims[idx] || (idx == n - 1 && radius[idx] == 1));
        }
    }
}

/// Quantized Johnson-Lindenstrauss (QJL): one-bit quantization.
pub struct QJL;

impl QJL {
    /// Performs 1-bit quantization by taking the sign of each element. A
    /// tensor without elements is always quantized; a tensor in main memory is
    /// quantized exactly when it has no element or a computable element type.
    /// The result has the input's dimensions, element type and device.
    /// (Shapes whose element counts overflow `usize` are left out.)
    pub fn compress(x: &candle_core::Tensor) -> (r: Result<candle_core::Tensor, candle_core::Error>)
        requires
            shape_fits(tensor_dims(*x)),
        ensures
            has_empty_axis(tensor_dims(*x)) ==> r is Ok,
            tensor_on_cpu(*x) ==> (r is Ok <==> (has_empty_axis(tensor_dims(*x)) || computable_dtype(
                tensor_dtype(*x),
            ))),
            r matches Ok(y) ==> tensor_dims(y) == tensor_dims(*x) && tensor_dtype(y) == tensor_dtype(*x)
                && tensor_on_cpu(y) == tensor_on_cpu(*x),
    {
        sign_of(x)
    }
}

} // verus!
