//! The tensor type of `candle_core`, as this library sees it: an opaque
//! value with a shape, an element type and a device. Element values are
//! floating point and are never read here.
use vstd::prelude::*;

verus! {

/// A `candle_core` tensor: an immutable, reference-counted n-dimensional array.
#[verifier::external_type_specification]
#[verifier::external_body]
pub struct ExTensor(candle_core::Tensor);

/// The error type of `candle_core` operations.
#[verifier::external_type_specification]
#[verifier::external_body]
pub struct ExCandleError(candle_core::Error);

/// The dimensions of a tensor (its shape), outermost axis first
/// (`Tensor::dims`). A tensor's shape is fixed when the tensor is made.
pub uninterp spec fn tensor_dims(t: candle_core::Tensor) -> Seq<usize>;

/// The name of a tensor's element type (`Tensor::dtype().as_str()`, such as
/// `"f32"`). A tensor's element type is fixed when the tensor is made.
pub uninterp spec fn tensor_dtype(t: candle_core::Tensor) -> Seq<char>;

/// Whether a tensor lives in main memory (`Tensor::device().is_cpu()`). A
/// tensor's device is fixed when the tensor is made. candle is built here
/// without its `cuda` and `metal` features: its stand-in GPU backends fail
/// every allocation, so every tensor that can be made is in main memory,
/// and the statements below about main memory cover all of them.
pub uninterp spec fn tensor_on_cpu(t: candle_core::Tensor) -> bool;

/// The element types that the CPU kernels of candle compute with: all but
/// the storage-only formats (`f6e2m3`, `f6e3m2`, `f4`, `f8e8m0`).
pub open spec fn computable_dtype(d: Seq<char>) -> bool {
    d == "u8"@ || d == "u32"@ || d == "i16"@ || d == "i32"@ || d == "i64"@ || d == "bf16"@ || d
        == "f16"@ || d == "f32"@ || d == "f64"@ || d == "f8e4m3"@
}

/// The integer element types, for which candle's CPU kernels define no
/// negation.
pub open spec fn integer_dtype(d: Seq<char>) -> bool {
    d == "u8"@ || d == "u32"@ || d == "i16"@ || d == "i32"@ || d == "i64"@
}

/// Both tensors are in main memory and share one integer element type: the
/// case in which candle forms their elementwise products and sums with
/// unchecked integer arithmetic.
pub open spec fn integer_pair_on_cpu(a: candle_core::Tensor, b: candle_core::Tensor) -> bool {
    &&& tensor_on_cpu(a)
    &&& tensor_on_cpu(b)
    &&& tensor_dtype(a) == tensor_dtype(b)
    &&& integer_dtype(tensor_dtype(a))
}

/// Size of axis `k` of `dims` counted from the innermost axis (`k == 1` is
/// the last axis), or 1 when `dims` has fewer than `k` axes.
pub open spec fn axis_from_end(dims: Seq<usize>, k: int) -> usize {
    if dims.len() < k {
        1
    } else {
        dims[dims.len() - k]
    }
}

/// Whether two axis sizes can be broadcast together: equal, or one of them 1.
pub open spec fn axes_compatible(a: usize, b: usize) -> bool {
    a == b || a == 1 || b == 1
}

/// The broadcast of two axis sizes: the one that is not 1.
pub open spec fn broadcast_axis(a: usize, b: usize) -> usize {
    if a == b {
        a
    } else if a == 1 {
        b
    } else {
        a
    }
}

/// Number of axes of the broadcast of shapes `l` and `r`: the larger rank.
pub open spec fn broadcast_rank(l: Seq<usize>, r: Seq<usize>) -> int {
    if l.len() >= r.len() {
        l.len() as int
    } else {
        r.len() as int
    }
}

/// Whether axis `idx` (counted from the outermost axis of the broadcast) of
/// `l` and `r` can be broadcast together.
pub open spec fn compatible_at(l: Seq<usize>, r: Seq<usize>, idx: int) -> bool {
    let n = broadcast_rank(l, r);
    axes_compatible(axis_from_end(l, n - idx), axis_from_end(r, n - idx))
}

/// Size of axis `idx` of the broadcast of `l` and `r`.
pub open spec fn broadcast_at(l: Seq<usize>, r: Seq<usize>, idx: int) -> usize {
    let n = broadcast_rank(l, r);
    broadcast_axis(axis_from_end(l, n - idx), axis_from_end(r, n - idx))
}

/// The shape of a pointwise operation on tensors of dimensions `l` and `r`
/// under broadcasting: both are aligned at their last axis, missing leading
/// axes count as 1, and paired axes must agree or be 1. `None` when some
/// paired axes disagree.
pub open spec fn broadcast_dims(l: Seq<usize>, r: Seq<usize>) -> Option<Seq<usize>> {
    if forall|idx: int| 0 <= idx < broadcast_rank(l, r) ==> #[trigger] compatible_at(l, r, idx) {
        Some(Seq::new(broadcast_rank(l, r) as nat, |idx: int| broadcast_at(l, r, idx)))
    } else {
        None
    }
}

/// Whether a shape holds no element: some axis has size 0 (a shape without
/// axes holds one element).
pub open spec fn has_empty_axis(dims: Seq<usize>) -> bool {
    exists|k: int| 0 <= k < dims.len() && dims[k] == 0
}

/// An axis size as a factor of the products below: empty axes count as 1.
pub open spec fn axis_factor(a: usize) -> nat {
    if a == 0 {
        1
    } else {
        a as nat
    }
}

/// The product of the non-empty axis sizes of a shape.
pub open spec fn nonzero_product(dims: Seq<usize>) -> nat
    decreases dims.len(),
{
    if dims.len() == 0 {
        1
    } else {
        nonzero_product(dims.drop_last()) * axis_factor(dims.last())
    }
}

/// The product of the non-empty axis sizes of a shape fits in `usize`. Then
/// every running product of axis sizes that candle forms for the shape (its
/// element count, its contiguous strides) fits as well.
pub open spec fn shape_fits(dims: Seq<usize>) -> bool {
    nonzero_product(dims) <= usize::MAX
}

/// Two shapes can be concatenated along axis `dim`: both have that axis and
/// agree on every other axis.
pub open spec fn cat_compatible(a: Seq<usize>, b: Seq<usize>, dim: int) -> bool {
    &&& 0 <= dim < a.len()
    &&& a.len() == b.len()
    &&& forall|k: int| 0 <= k < a.len() && k != dim ==> a[k] == b[k]
}

/// The dimensions of `t`, outermost first (`Tensor::dims`).
#[verifier::external_body]
pub(crate) fn dims_of(t: &candle_core::Tensor) -> (d: Vec<usize>)
    ensures
        d@ == tensor_dims(*t),
{
    t.dims().to_vec()
}

/// `Tensor::dtype().as_str()`: the name of the tensor's element type.
#[verifier::external_body]
pub(crate) fn dtype_name_of(t: &candle_core::Tensor) -> (s: String)
    ensures
        s@ == tensor_dtype(*t),
{
    t.dtype().as_str().to_string()
}

/// `Tensor::device().is_cpu()`: whether the tensor lives in main memory.
#[verifier::external_body]
pub(crate) fn is_cpu_of(t: &candle_core::Tensor) -> (b: bool)
    ensures
        b == tensor_on_cpu(*t),
{
    t.device().is_cpu()
}

/// `Tensor::sign`: the elementwise sign, over the input's shape, element type
/// and device. A tensor with no element is returned as is; otherwise the
/// storage computes. On the CPU that succeeds exactly for the computable
/// element types. Element counts are products of the axis sizes, so shapes
/// whose products overflow are left out. Whether a call on another device
/// succeeds and the element values are not stated.
#[verifier::external_body]
pub(crate) fn sign_of(x: &candle_core::Tensor) -> (r: Result<candle_core::Tensor, candle_core::Error>)
    requires
        shape_fits(tensor_dims(*x)),
    ensures
        has_empty_axis(tensor_dims(*x)) ==> r is Ok,
        tensor_on_cpu(*x) ==> (r is Ok <==> (has_empty_axis(tensor_dims(*x)) || computable_dtype(
            tensor_dtype(*x),
        ))),
        r matches Ok(y) ==> tensor_dims(y) == tensor_dims(*x) && tensor_dtype(y) == tensor_dtype(*x)
            && tensor_on_cpu(y) == tensor_on_cpu(*x),
{
    x.sign()
}

/// `Tensor::broadcast_mul`: elementwise product under broadcasting. The
/// source first computes the broadcast shape and fails when the shapes are
/// incompatible; an empty broadcast shape is returned before any storage is
/// touched; otherwise the operands must share device and element type, and
/// on the CPU the product is computed for every computable element type.
/// Integer products are formed with plain `*`, which panics on overflow in
/// builds with overflow checks, so a non-empty product of two CPU operands
/// of one integer element type is left out. A result has the broadcast
/// shape and the first operand's element type and device. Shapes whose
/// products overflow are left out. The element values are not stated.
#[verifier::external_body]
pub(crate) fn broadcast_mul_of(a: &candle_core::Tensor, b: &candle_core::Tensor) -> (r: Result<
    candle_core::Tensor,
    candle_core::Error,
>)
    requires
        broadcast_dims(tensor_dims(*a), tensor_dims(*b)) is Some ==> shape_fits(
            broadcast_dims(tensor_dims(*a), tensor_dims(*b)).unwrap(),
        ),
        broadcast_dims(tensor_dims(*a), tensor_dims(*b)) is Some && integer_pair_on_cpu(*a, *b)
            ==> has_empty_axis(broadcast_dims(tensor_dims(*a), tensor_dims(*b)).unwrap()),
    ensures
        broadcast_dims(tensor_dims(*a), tensor_dims(*b)) is None ==> r is Err,
        (broadcast_dims(tensor_dims(*a), tensor_dims(*b)) is Some && has_empty_axis(
            broadcast_dims(tensor_dims(*a), tensor_dims(*b)).unwrap(),
        )) ==> r is Ok,
        tensor_on_cpu(*a) && tensor_on_cpu(*b) ==> (r is Ok <==> (broadcast_dims(
            tensor_dims(*a),
            tensor_dims(*b),
        ) is Some && (has_empty_axis(broadcast_dims(tensor_dims(*a), tensor_dims(*b)).unwrap()) || (
        tensor_dtype(*a) == tensor_dtype(*b) && computable_dtype(tensor_dtype(*a)))))),
        r matches Ok(y) ==> broadcast_dims(tensor_dims(*a), tensor_dims(*b)) == Some(tensor_dims(y))
            && tensor_dtype(y) == tensor_dtype(*a) && tensor_on_cpu(y) == tensor_on_cpu(*a),
{
    a.broadcast_mul(b)
}

/// `Tensor::dim`: the size of axis `d`; fails when the tensor has no such axis.
#[verifier::external_body]
pub(crate) fn dim_of(t: &candle_core::Tensor, d: usize) -> (r: Result<usize, candle_core::Error>)
    ensures
        r is Ok <==> d < tensor_dims(*t).len(),
        r matches Ok(n) ==> n == tensor_dims(*t)[d as int],
{
    t.dim(d)
}

/// `Tensor::narrow`: the `len` entries of axis `dim` from `start`. The source
/// fails exactly when the axis does not exist or the span runs past the end
/// of the axis. It tests the saturated end `start.saturating_add(len)`
/// first; on an axis of length `usize::MAX` a span whose end overflows passes
/// that test and the layout's unchecked `start + len` then overflows, so
/// spans whose end overflows `usize` are left out. The result has the
/// input's dimensions with that axis set to `len`, and the input's element
/// type and device.
#[verifier::external_body]
pub(crate) fn narrow_of(t: &candle_core::Tensor, dim: usize, start: usize, len: usize) -> (r: Result<
    candle_core::Tensor,
    candle_core::Error,
>)
    requires
        start + len <= usize::MAX,
    ensures
        r is Ok <==> (dim < tensor_dims(*t).len() && start + len <= tensor_dims(*t)[dim as int]),
        r matches Ok(y) ==> tensor_dims(y) == tensor_dims(*t).update(dim as int, len)
            && tensor_dtype(y) == tensor_dtype(*t) && tensor_on_cpu(y) == tensor_on_cpu(*t),
{
    t.narrow(dim, start, len)
}

/// `Tensor::unsqueeze(0)`: a new leading axis of size one, with the input's
/// element type and device. The source never fails for axis 0.
#[verifier::external_body]
pub(crate) fn unsqueeze_front_of(t: &candle_core::Tensor) -> (r: Result<candle_core::Tensor, candle_core::Error>)
    ensures
        r is Ok,
        r matches Ok(y) ==> tensor_dims(y) == seq![1usize] + tensor_dims(*t) && tensor_dtype(y)
            == tensor_dtype(*t) && tensor_on_cpu(y) == tensor_on_cpu(*t),
{
    t.unsqueeze(0)
}

/// `Tensor::neg`: the elementwise negation, over the input's shape, element
/// type and device. A tensor with no element is returned as is; otherwise the
/// storage computes. The CPU kernels define no negation for integers and
/// panic there, so those inputs are left out; for the other computable
/// element types the CPU call succeeds. Shapes whose products overflow are
/// left out. Whether a call on another device succeeds and the element values
/// are not stated.
#[verifier::external_body]
pub(crate) fn neg_of(t: &candle_core::Tensor) -> (r: Result<candle_core::Tensor, candle_core::Error>)
    requires
        shape_fits(tensor_dims(*t)),
        tensor_on_cpu(*t) && integer_dtype(tensor_dtype(*t)) ==> has_empty_axis(tensor_dims(*t)),
    ensures
        has_empty_axis(tensor_dims(*t)) ==> r is Ok,
        tensor_on_cpu(*t) ==> (r is Ok <==> (has_empty_axis(tensor_dims(*t)) || computable_dtype(
            tensor_dtype(*t),
        ))),
        r matches Ok(y) ==> tensor_dims(y) == tensor_dims(*t) && tensor_dtype(y) == tensor_dtype(*t)
            && tensor_on_cpu(y) == tensor_on_cpu(*t),
{
    t.neg()
}

/// `Tensor::cat(&[a, b], dim)`: concatenation along axis `dim`. A result
/// exists only when both tensors have the axis and agree on every other axis;
/// it has `a`'s dimensions with axis `dim` the sum of both, and `a`'s element
/// type and device. On the CPU, with one computable element type, compatible
/// shapes always concatenate. Sums and products of axis sizes that overflow
/// are left out. Whether a call on another device succeeds and the element
/// values are not stated.
#[verifier::external_body]
pub(crate) fn cat_pair_of(a: &candle_core::Tensor, b: &candle_core::Tensor, dim: usize) -> (r: Result<
    candle_core::Tensor,
    candle_core::Error,
>)
    requires
        shape_fits(tensor_dims(*a)),
        shape_fits(tensor_dims(*b)),
        dim < tensor_dims(*a).len() && dim < tensor_dims(*b).len() ==> tensor_dims(*a)[dim as int]
            + tensor_dims(*b)[dim as int] <= usize::MAX && shape_fits(
            tensor_dims(*a).update(
                dim as int,
                (tensor_dims(*a)[dim as int] + tensor_dims(*b)[dim as int]) as usize,
            ),
        ),
    ensures
        (tensor_on_cpu(*a) && tensor_on_cpu(*b) && tensor_dtype(*a) == tensor_dtype(*b)
            && computable_dtype(tensor_dtype(*a)) && cat_compatible(
            tensor_dims(*a),
            tensor_dims(*b),
            dim as int,
        )) ==> r is Ok,
        r matches Ok(y) ==> {
            &&& cat_compatible(tensor_dims(*a), tensor_dims(*b), dim as int)
            &&& tensor_dims(y) == tensor_dims(*a).update(
                dim as int,
                (tensor_dims(*a)[dim as int] + tensor_dims(*b)[dim as int]) as usize,
            )
            &&& tensor_dtype(y) == tensor_dtype(*a)
            &&& tensor_on_cpu(y) == tensor_on_cpu(*a)
        },
{
    candle_core::Tensor::cat(&[a, b], dim)
}

/// `Tensor + Tensor` (`Tensor::add`): elementwise sum of two tensors of the
/// same shape. The source fails when the shapes differ, returns an empty
/// tensor before any storage is touched, and otherwise needs one device and
/// one element type; on the CPU it computes for every computable element
/// type. Integer sums are formed with plain `+`, which panics on overflow in
/// builds with overflow checks, so a non-empty sum of two CPU operands of one
/// integer element type is left out. A result has the shape, element type
/// and device of `a`. Shapes whose products overflow are left out. The
/// element values are not stated.
#[verifier::external_body]
pub(crate) fn add_of(a: &candle_core::Tensor, b: &candle_core::Tensor) -> (r: Result<
    candle_core::Tensor,
    candle_core::Error,
>)
    requires
        shape_fits(tensor_dims(*a)),
        tensor_dims(*a) == tensor_dims(*b) && integer_pair_on_cpu(*a, *b) ==> has_empty_axis(
            tensor_dims(*a),
        ),
    ensures
        tensor_dims(*a) != tensor_dims(*b) ==> r is Err,
        tensor_dims(*a) == tensor_dims(*b) && has_empty_axis(tensor_dims(*a)) ==> r is Ok,
        tensor_on_cpu(*a) && tensor_on_cpu(*b) ==> (r is Ok <==> (tensor_dims(*a) == tensor_dims(*b)
            && (has_empty_axis(tensor_dims(*a)) || (tensor_dtype(*a) == tensor_dtype(*b)
            && computable_dtype(tensor_dtype(*a)))))),
        r matches Ok(y) ==> tensor_dims(y) == tensor_dims(*a) && tensor_dtype(y) == tensor_dtype(*a)
            && tensor_on_cpu(y) == tensor_on_cpu(*a),
{
    a + b
}

/// The dimensions of a tensor, outermost first.
pub fn tensor_shape(t: &candle_core::Tensor) -> (d: Vec<usize>)
    ensures
        d@ == tensor_dims(*t),
{
    dims_of(t)
}

/// The name of a tensor's element type (such as `"f32"`).
pub fn tensor_dtype_name(t: &candle_core::Tensor) -> (s: String)
    ensures
        s@ == tensor_dtype(*t),
{
    dtype_name_of(t)
}

/// Whether a tensor lives in main memory.
pub fn tensor_is_cpu(t: &candle_core::Tensor) -> (b: bool)
    ensures
        b == tensor_on_cpu(*t),
{
    is_cpu_of(t)
}

proof fn lemma_prefix_product_le(dims: Seq<usize>, i: int)
    requires
        0 <= i <= dims.len(),
    ensures
        nonzero_product(dims.take(i)) <= nonzero_product(dims),
        nonzero_product(dims.take(i)) >= 1,
    decreases dims.len() - i,
{
    lemma_product_positive(dims.take(i));
    if i < dims.len() {
        lemma_prefix_product_le(dims, i + 1);
        let p = dims.take(i + 1);
        assert(p.drop_last() =~= dims.take(i));
        let a = nonzero_product(dims.take(i));
        let f = axis_factor(p.last());
        assert(a <= a * f) by (nonlinear_arith)
            requires
                f >= 1,
                a >= 1,
        ;
    } else {
        assert(dims.take(i) =~= dims);
    }
}

proof fn lemma_product_positive(dims: Seq<usize>)
    ensures
        nonzero_product(dims) >= 1,
    decreases dims.len(),
{
    if dims.len() > 0 {
        lemma_product_positive(dims.drop_last());
        let a = nonzero_product(dims.drop_last());
        let f = axis_factor(dims.last());
        assert(a * f >= 1) by (nonlinear_arith)
            requires
                f >= 1,
                a >= 1,
        ;
    }
}

/// Whether a shape has an axis of size 0 (and so holds no element).
pub fn shape_is_empty(dims: &Vec<usize>) -> (r: bool)
    ensures
        r == has_empty_axis(dims@),
{
    let mut i: usize = 0;
    while i < dims.len()
        invariant
            i <= dims.len(),
            forall|k: int| 0 <= k < i ==> dims@[k] != 0,
        decreases dims.len() - i,
    {
        if dims[i] == 0 {
            return true;
        }
        i = i + 1;
    }
    false
}

/// Whether an element type name names an integer type.
pub fn is_integer_dtype_name(name: &String) -> (r: bool)
    ensures
        r == integer_dtype(name@),
{
    *name == "u8".to_owned() || *name == "u32".to_owned() || *name == "i16".to_owned() || *name
        == "i32".to_owned() || *name == "i64".to_owned()
}

/// Whether every running product of the axis sizes of `dims` fits in `usize`.
pub fn shape_fits_usize(dims: &Vec<usize>) -> (r: bool)
    ensures
        r == shape_fits(dims@),
{
    let mut p: usize = 1;
    let mut i: usize = 0;
    while i < dims.len()
        invariant
            i <= dims.len(),
            p as nat == nonzero_product(dims@.take(i as int)),
        decreases dims.len() - i,
    {
        proof {
            assert(dims@.take(i + 1).drop_last() =~= dims@.take(i as int));
        }
        let f: usize = if dims[i] == 0 {
            1
        } else {
            dims[i]
        };
        match p.checked_mul(f) {
            Some(q) => {
                p = q;
            },
            None => {
                proof {
                    lemma_prefix_product_le(dims@, i + 1);
                }
                return false;
            },
        }
        i = i + 1;
    }
    proof {
        assert(dims@.take(dims.len() as int) =~= dims@);
    }
    true
}

/// The broadcast of two shapes (see `broadcast_dims`), or `None` when some
/// paired axes disagree.
pub fn broadcast_shape(l: &Vec<usize>, r: &Vec<usize>) -> (o: Option<Vec<usize>>)
    ensures
        match o {
            Some(v) => broadcast_dims(l@, r@) == Some(v@),
            None => broadcast_dims(l@, r@) is None,
        },
{
    let n: usize = if l.len() >= r.len() {
        l.len()
    } else {
        r.len()
    };
    let mut out: Vec<usize> = Vec::new();
    let mut idx: usize = 0;
    while idx < n
        invariant
            n == broadcast_rank(l@, r@),
            idx <= n,
            out.len() == idx,
            forall|k: int| 0 <= k < idx ==> #[trigger] compatible_at(l@, r@, k),
            forall|k: int| 0 <= k < idx ==> out[k] == #[trigger] broadcast_at(l@, r@, k),
        decreases n - idx,
    {
        let rev = n - idx;
        let lv: usize = if l.len() < rev {
            1
        } else {
            l[l.len() - rev]
        };
        let rv: usize = if r.len() < rev {
            1
        } else {
            r[r.len() - rev]
        };
        assert(lv == axis_from_end(l@, n - idx));
        assert(rv == axis_from_end(r@, n - idx));
        if lv == rv {
            out.push(lv);
        } else if lv == 1 {
            out.push(rv);
        } else if rv == 1 {
            out.push(lv);
        } else {
            assert(!compatible_at(l@, r@, idx as int));
            return None;
        }
        assert(compatible_at(l@, r@, idx as int));
        idx = idx + 1;
    }
    assert(out@ =~= Seq::new(n as nat, |k: int| broadcast_at(l@, r@, k)));
    Some(out)
}

} // verus!
