//! Rotary positional embeddings (RoPE) with NTK-aware scaling: which rows of
//! the precomputed sine/cosine tables a call uses, which frequencies the
//! tables hold, and the application of the embedding to a tensor.
use vstd::prelude::*;
use crate::tensor::{
    add_of, axis_factor, broadcast_at, broadcast_dims, broadcast_mul_of, cat_pair_of,
    compatible_at, computable_dtype, dim_of, dims_of, has_empty_axis, integer_dtype, narrow_of,
    neg_of, nonzero_product, shape_fits, shape_fits_usize, tensor_dims, tensor_dtype,
    tensor_on_cpu, unsqueeze_front_of, dtype_name_of, is_cpu_of, is_integer_dtype_name,
    shape_is_empty,
};

verus! {

/// The smaller of two sizes.
pub open spec fn min_usize(a: usize, b: usize) -> usize {
    if a <= b {
        a
    } else {
        b
    }
}

/// The rows `(start, len)` of a table of `max_t` positions that serve a
/// sequence of `t_size` positions starting at `start_pos`: at most the whole
/// table, and shifted back so that it ends inside the table when the
/// requested span would run past its end.
pub open spec fn table_rows(t_size: usize, start_pos: usize, max_t: usize) -> (usize, usize) {
    let len = min_usize(t_size, max_t);
    if start_pos + len > max_t {
        ((max_t - len) as usize, len)
    } else {
        (start_pos, len)
    }
}

/// Rows of the table that serve `t_size` positions from `start_pos`.
pub fn rope_window(t_size: usize, start_pos: usize, max_t: usize) -> (r: (usize, usize))
    requires
        start_pos + min_usize(t_size, max_t) <= usize::MAX,
    ensures
        r == table_rows(t_size, start_pos, max_t),
{
    let t_size_safe = if t_size > max_t {
        max_t
    } else {
        t_size
    };
    let start_pos_safe = if start_pos + t_size_safe > max_t {
        max_t - t_size_safe
    } else {
        start_pos
    };
    (start_pos_safe, t_size_safe)
}

/// Law: the rows a call uses always lie inside the table, cover the whole
/// sequence when it fits in the table, and start at the requested position
/// whenever the sequence fits after it.
pub proof fn lemma_table_rows_in_bounds(t_size: usize, start_pos: usize, max_t: usize)
    requires
        start_pos + min_usize(t_size, max_t) <= usize::MAX,
    ensures
        ({
            let (start, len) = table_rows(t_size, start_pos, max_t);
            &&& start + len <= max_t
            &&& len == min_usize(t_size, max_t)
            &&& t_size <= max_t ==> len == t_size
            &&& start_pos + len <= max_t ==> start == start_pos
        }),
{
}

/// The frequency exponents of the tables: the even numbers below `dim`,
/// in increasing order (frequency `k` is `base^(-exponents[k] / dim)`).
pub fn rope_frequency_exponents(dim: usize) -> (e: Vec<usize>)
    ensures
        e.len() == (dim + 1) / 2,
        forall|k: int| 0 <= k < e.len() ==> #[trigger] e[k] == 2 * k,
{
    let count = dim / 2 + dim % 2;
    let mut e: Vec<usize> = Vec::new();
    let mut k: usize = 0;
    while k < count
        invariant
            count == (dim + 1) / 2,
            k <= count,
            e.len() == k,
            forall|a: int| 0 <= a < e.len() ==> #[trigger] e[a] == 2 * a,
        decreases count - k,
    {
        e.push(2 * k);
        k = k + 1;
    }
    e
}

/// `k` unit axes followed by `tail`.
pub open spec fn unit_axes_then(k: nat, tail: Seq<usize>) -> Seq<usize> {
    Seq::new(k, |i: int| 1usize) + tail
}

/// Shapes of usable rotary tables: the cosine table is a matrix (positions
/// by features), the sine table has the same shape, and its element count
/// fits in `usize`.
pub open spec fn tables_ok(sin_dims: Seq<usize>, cos_dims: Seq<usize>) -> bool {
    &&& cos_dims.len() == 2
    &&& sin_dims == cos_dims
    &&& shape_fits(cos_dims)
}

/// The shape `x` (of dimensions `xd`, sequence and feature axes last) takes
/// for its halves: the feature axis halved.
pub open spec fn half_dims(xd: Seq<usize>) -> Seq<usize> {
    xd.update(xd.len() - 1, (xd[xd.len() - 1] / 2) as usize)
}

/// What an integer input `x` (of dimensions `xd`) in main memory must
/// satisfy: candle defines no integer negation on the CPU, so the half that
/// is negated must be empty; and when the cosine table shares `x`'s device
/// and element type its product with `x` is formed with unchecked integer
/// arithmetic, so `x` itself must be empty.
pub open spec fn integer_input_ok(xd: Seq<usize>, cos_like_x: bool) -> bool {
    &&& has_empty_axis(half_dims(xd))
    &&& cos_like_x ==> has_empty_axis(xd)
}

/// Rotary Positional Embedding (RoPE): precomputed sine and cosine tables,
/// one row per position.
pub struct RotaryEmbedding {
    sin: candle_core::Tensor,
    cos: candle_core::Tensor,
}

impl RotaryEmbedding {
    /// The cosine table.
    pub closed spec fn cos_table(&self) -> candle_core::Tensor {
        self.cos
    }

    /// The sine table.
    pub closed spec fn sin_table(&self) -> candle_core::Tensor {
        self.sin
    }

    /// The tables always have usable shapes.
    #[verifier::type_invariant]
    spec fn tables_consistent(self) -> bool {
        tables_ok(tensor_dims(self.sin), tensor_dims(self.cos))
    }

    /// Wraps precomputed tables (positions along the first axis, features
    /// along the second), or `None` when their shapes are not usable.
    pub fn from_tables(sin: candle_core::Tensor, cos: candle_core::Tensor) -> (r: Option<
        RotaryEmbedding,
    >)
        ensures
            r is Some <==> tables_ok(tensor_dims(sin), tensor_dims(cos)),
            r matches Some(e) ==> e.sin_table() == sin && e.cos_table() == cos,
    {
        let sd = dims_of(&sin);
        let cd = dims_of(&cos);
        if cd.len() != 2 || sd.len() != 2 {
            return None;
        }
        if sd[0] != cd[0] || sd[1] != cd[1] {
            return None;
        }
        proof {
            assert(sd@ =~= cd@);
        }
        if !shape_fits_usize(&cd) {
            return None;
        }
        Some(RotaryEmbedding { sin, cos })
    }

    /// Number of positions the tables hold.
    pub fn table_len(&self) -> (r: usize)
        ensures
            tables_ok(tensor_dims(self.sin_table()), tensor_dims(self.cos_table())),
            r == tensor_dims(self.cos_table())[0],
    {
        proof {
            use_type_invariant(self);
        }
        let cd = dims_of(&self.cos);
        cd[0]
    }

    /// Number of features (columns) the tables hold.
    pub fn table_width(&self) -> (r: usize)
        ensures
            r == tensor_dims(self.cos_table())[1],
    {
        proof {
            use_type_invariant(self);
        }
        let cd = dims_of(&self.cos);
        cd[1]
    }

    /// Whether `apply(x, start_pos)` may be called: `x` has a sequence and a
    /// feature axis, the positions used and the element count fit in
    /// `usize`, and an integer `x` in main memory meets `integer_input_ok`.
    pub fn admits(&self, x: &candle_core::Tensor, start_pos: usize) -> (r: bool)
        ensures
            r == ({
                let xd = tensor_dims(*x);
                let cd = tensor_dims(self.cos_table());
                &&& xd.len() >= 2
                &&& start_pos + min_usize(xd[xd.len() - 2], cd[0]) <= usize::MAX
                &&& shape_fits(xd)
                &&& tensor_on_cpu(*x) && integer_dtype(tensor_dtype(*x)) && xd[xd.len() - 1]
                    <= cd[1] ==> integer_input_ok(
                    xd,
                    tensor_on_cpu(self.cos_table()) && tensor_dtype(self.cos_table())
                        == tensor_dtype(*x),
                )
            }),
    {
        proof {
            use_type_invariant(self);
        }
        let xd = dims_of(x);
        let n = xd.len();
        if n < 2 {
            return false;
        }
        let cd = dims_of(&self.cos);
        let rows = if xd[n - 2] <= cd[0] {
            xd[n - 2]
        } else {
            cd[0]
        };
        if start_pos > usize::MAX - rows {
            return false;
        }
        if !shape_fits_usize(&xd) {
            return false;
        }
        let name = dtype_name_of(x);
        if is_cpu_of(x) && is_integer_dtype_name(&name) && xd[n - 1] <= cd[1] {
            let mut h: Vec<usize> = Vec::new();
            let mut k: usize = 0;
            while k < n
                invariant
                    n == xd.len(),
                    k <= n,
                    h.len() == k,
                    forall|a: int| 0 <= a < k ==> #[trigger] h[a] == half_dims(xd@)[a],
                decreases n - k,
            {
                if k == n - 1 {
                    h.push(xd[k] / 2);
                } else {
                    h.push(xd[k]);
                }
                k = k + 1;
            }
            proof {
                assert(h@ =~= half_dims(xd@));
            }
            if !shape_is_empty(&h) {
                return false;
            }
            let cos_name = dtype_name_of(&self.cos);
            let cos_like = is_cpu_of(&self.cos) && cos_name == name;
            if cos_like && !shape_is_empty(&xd) {
                return false;
            }
        }
        true
    }

    /// Applies Rotary Positional Embeddings to the input tensor `x` of
    /// shape `[..., T, D]`, for positions from `start_pos`:
    /// `x * cos(theta_pos) + rotate_half(x) * sin(theta_pos)`.
    ///
    /// The table rows used are `table_rows(T, start_pos, rows)`: when the
    /// sequence would run past the end of the tables it is shifted back.
    ///
    /// The call is refused when `D` is odd, when the tables have fewer than
    /// `D` columns, and when the sequence is longer than tables of more than
    /// one row. It succeeds when `D` is even and at most the tables' width,
    /// the sequence fits in the tables (or they have a single row), and `x`
    /// and both tables are in main memory with one computable element type.
    /// A result has the dimensions (for non-empty tables), element type and
    /// device of `x`. Integer inputs in main memory that candle would negate,
    /// or multiply with unchecked arithmetic, are left out (see
    /// `integer_input_ok`).
    pub fn apply(&self, x: &candle_core::Tensor, start_pos: usize) -> (r: Result<
        candle_core::Tensor,
        candle_core::Error,
    >)
        requires
            tensor_dims(*x).len() >= 2,
            start_pos + min_usize(
                tensor_dims(*x)[tensor_dims(*x).len() - 2],
                tensor_dims(self.cos_table())[0],
            ) <= usize::MAX,
            shape_fits(tensor_dims(*x)),
            tensor_on_cpu(*x) && integer_dtype(tensor_dtype(*x)) && tensor_dims(*x)[tensor_dims(
                *x,
            ).len() - 1] <= tensor_dims(self.cos_table())[1] ==> integer_input_ok(
                tensor_dims(*x),
                tensor_on_cpu(self.cos_table()) && tensor_dtype(self.cos_table()) == tensor_dtype(
                    *x,
                ),
            ),
        ensures
            r matches Ok(y) ==> {
                &&& tensor_dims(self.cos_table())[0] > 0 ==> tensor_dims(y) == tensor_dims(*x)
                &&& tensor_dtype(y) == tensor_dtype(*x)
                &&& tensor_on_cpu(y) == tensor_on_cpu(*x)
            },
            ({
                let xd = tensor_dims(*x);
                let cd = tensor_dims(self.cos_table());
                &&& xd[xd.len() - 1] > cd[1] ==> r is Err
                &&& xd[xd.len() - 1] % 2 == 1 ==> r is Err
                &&& 1 < cd[0] < xd[xd.len() - 2] ==> r is Err
            }),
            ({
                let xd = tensor_dims(*x);
                let cd = tensor_dims(self.cos_table());
                let d = xd[xd.len() - 1];
                &&& cd[0] > 0
                &&& d % 2 == 0
                &&& d <= cd[1]
                &&& (xd[xd.len() - 2] <= cd[0] || cd[0] == 1)
                &&& tensor_on_cpu(*x)
                &&& tensor_on_cpu(self.cos_table())
                &&& tensor_on_cpu(self.sin_table())
                &&& tensor_dtype(self.cos_table()) == tensor_dtype(*x)
                &&& tensor_dtype(self.sin_table()) == tensor_dtype(*x)
                &&& computable_dtype(tensor_dtype(*x))
            }) ==> r is Ok,
    {
        proof {
            use_type_invariant(self);
        }
        let ghost xd = tensor_dims(*x);
        let ghost cd = tensor_dims(self.cos);
        let dims = dims_of(x);
        let n = dims.len();
        let t_size = dims[n - 2];
        let d_size = dims[n - 1];
        let ghost good = {
            &&& cd[0] > 0
            &&& d_size % 2 == 0
            &&& d_size <= cd[1]
            &&& (t_size <= cd[0] || cd[0] == 1)
            &&& tensor_on_cpu(*x)
            &&& tensor_on_cpu(self.cos)
            &&& tensor_on_cpu(self.sin)
            &&& tensor_dtype(self.cos) == tensor_dtype(*x)
            &&& tensor_dtype(self.sin) == tensor_dtype(*x)
            &&& computable_dtype(tensor_dtype(*x))
        };
        let max_t = dim_of(&self.cos, 0)?;
        let (start, len) = rope_window(t_size, start_pos, max_t);
        proof {
            lemma_table_rows_in_bounds(t_size, start_pos, max_t);
        }
        let cos = narrow_of(&self.cos, 0, start, len)?;
        let cos = narrow_of(&cos, 1, 0, d_size)?;
        let sin = narrow_of(&self.sin, 0, start, len)?;
        let sin = narrow_of(&sin, 1, 0, d_size)?;
        let ghost cos_base = tensor_dims(cos);
        proof {
            assert(cos_base =~= seq![len, d_size]);
            assert(tensor_dims(sin) =~= cos_base);
        }
        let mut cos = cos;
        let mut sin = sin;
        let mut k: usize = 0;
        while k < n - 2
            invariant
                n >= 2,
                k <= n - 2,
                cos_base == seq![len, d_size],
                tensor_dims(cos) == unit_axes_then(k as nat, cos_base),
                tensor_dims(sin) == tensor_dims(cos),
                tensor_dtype(cos) == tensor_dtype(self.cos),
                tensor_on_cpu(cos) == tensor_on_cpu(self.cos),
                tensor_dtype(sin) == tensor_dtype(self.sin),
                tensor_on_cpu(sin) == tensor_on_cpu(self.sin),
            decreases n - 2 - k,
        {
            let c = unsqueeze_front_of(&cos)?;
            let s = unsqueeze_front_of(&sin)?;
            proof {
                assert(seq![1usize] + unit_axes_then(k as nat, cos_base) =~= unit_axes_then(
                    (k + 1) as nat,
                    cos_base,
                ));
            }
            cos = c;
            sin = s;
            k = k + 1;
        }
        let ghost cd2 = tensor_dims(cos);
        proof {
            assert(cd2.len() == n);
            assert(cd2[n - 2] == len);
            assert(cd2[n - 1] == d_size);
            assert(forall|i: int| 0 <= i < n - 2 ==> cd2[i] == 1);
        }
        let half = d_size / 2;
        let x1 = narrow_of(x, n - 1, 0, half)?;
        let x2 = narrow_of(x, n - 1, half, half)?;
        proof {
            assert(tensor_dims(x2) =~= half_dims(xd));
            assert(tensor_dims(x1) =~= half_dims(xd));
            lemma_fits_pointwise(xd, half_dims(xd));
        }
        let neg_x2 = neg_of(&x2)?;
        let ghost rd = xd.update(n - 1, (2 * half) as usize);
        proof {
            assert(tensor_dims(neg_x2).update(n - 1, (half + half) as usize) =~= rd);
            lemma_fits_pointwise(xd, rd);
            if good {
                assert(cat_compatible_same(tensor_dims(neg_x2), tensor_dims(x1), n - 1));
            }
        }
        let rotated_x = cat_pair_of(&neg_x2, &x1, n - 1)?;
        proof {
            assert(tensor_dims(rotated_x) =~= rd);
            lemma_rows_broadcast_fits(xd, xd, cd2);
            lemma_rows_broadcast_fits(xd, rd, cd2);
            if good {
                assert(rd =~= xd);
                lemma_rows_compatible(xd, cd2, start_pos, max_t);
            }
        }
        proof {
            if tensor_on_cpu(*x) && integer_dtype(tensor_dtype(*x)) {
                lemma_half_empty_rotated(xd, rd);
                if broadcast_dims(rd, cd2) is Some {
                    lemma_empty_broadcast(rd, cd2);
                }
                if tensor_on_cpu(self.cos) && tensor_dtype(self.cos) == tensor_dtype(*x)
                    && broadcast_dims(xd, cd2) is Some {
                    lemma_empty_broadcast(xd, cd2);
                }
            }
        }
        let a = broadcast_mul_of(x, &cos)?;
        proof {
            if 1 < cd[0] < t_size {
                assert(compatible_at(xd, cd2, n - 2));
            }
        }
        let b = broadcast_mul_of(&rotated_x, &sin)?;
        proof {
            assert(tensor_dims(a)[n - 1] == broadcast_at(xd, cd2, n - 1));
            assert(tensor_dims(b)[n - 1] == broadcast_at(rd, cd2, n - 1));
            if d_size % 2 == 1 {
                assert(tensor_dims(a)[n - 1] != tensor_dims(b)[n - 1]);
            }
            if good {
                assert(tensor_dims(a) =~= tensor_dims(b));
            }
        }
        let out = add_of(&a, &b);
        proof {
            if out is Ok && cd[0] > 0 {
                lemma_broadcast_against_rows(xd, cd2, max_t);
            }
        }
        out
    }
}

/// When the half of `xd` that is negated is empty, so is the shape `rd` of
/// the rotated input (`xd` with its last axis rounded down to even).
proof fn lemma_half_empty_rotated(xd: Seq<usize>, rd: Seq<usize>)
    requires
        xd.len() >= 1,
        rd == xd.update(xd.len() - 1, (2 * (xd[xd.len() - 1] / 2)) as usize),
        has_empty_axis(half_dims(xd)),
    ensures
        has_empty_axis(rd),
{
    let h = half_dims(xd);
    let k = choose|k: int| 0 <= k < h.len() && h[k] == 0;
    assert(rd[k] == 0);
}

/// Broadcasting a shape with an empty axis against one of the same rank
/// gives, where defined, a shape with an empty axis.
proof fn lemma_empty_broadcast(base: Seq<usize>, other: Seq<usize>)
    requires
        base.len() == other.len(),
        has_empty_axis(base),
        broadcast_dims(base, other) is Some,
    ensures
        has_empty_axis(broadcast_dims(base, other).unwrap()),
{
    let k = choose|k: int| 0 <= k < base.len() && base[k] == 0;
    assert(compatible_at(base, other, k));
    let b = broadcast_dims(base, other).unwrap();
    assert(b[k] == broadcast_at(base, other, k));
    assert(b[k] == 0);
}

/// Two equal shapes can be concatenated along any of their axes.
spec fn cat_compatible_same(a: Seq<usize>, b: Seq<usize>, dim: int) -> bool {
    a == b && 0 <= dim < a.len() ==> crate::tensor::cat_compatible(a, b, dim)
}

/// A shape whose axes are each, as factors, no larger than those of a shape
/// whose element count fits, fits too.
proof fn lemma_fits_pointwise(big: Seq<usize>, small: Seq<usize>)
    requires
        big.len() == small.len(),
        forall|k: int| 0 <= k < big.len() ==> axis_factor(small[k]) <= axis_factor(big[k]),
        shape_fits(big),
    ensures
        shape_fits(small),
{
    lemma_product_pointwise(big, small);
}

proof fn lemma_product_pointwise(big: Seq<usize>, small: Seq<usize>)
    requires
        big.len() == small.len(),
        forall|k: int| 0 <= k < big.len() ==> axis_factor(small[k]) <= axis_factor(big[k]),
    ensures
        nonzero_product(small) <= nonzero_product(big),
    decreases big.len(),
{
    if big.len() > 0 {
        let bl = big.drop_last();
        let sl = small.drop_last();
        assert forall|k: int| 0 <= k < bl.len() implies axis_factor(sl[k]) <= axis_factor(bl[k]) by {
            assert(sl[k] == small[k] && bl[k] == big[k]);
        }
        lemma_product_pointwise(bl, sl);
        let pb = nonzero_product(bl);
        let ps = nonzero_product(sl);
        let fb = axis_factor(big.last());
        let fs = axis_factor(small.last());
        assert(fs <= fb);
        assert(ps * fs <= pb * fb) by (nonlinear_arith)
            requires
                ps <= pb,
                fs <= fb,
        ;
    }
}

/// Broadcasting a shape `base` (no larger than `xd`) against the narrowed
/// tables `cd2` yields, where it is defined, a shape that fits.
proof fn lemma_rows_broadcast_fits(xd: Seq<usize>, base: Seq<usize>, cd2: Seq<usize>)
    requires
        xd.len() >= 2,
        base.len() == xd.len(),
        cd2.len() == xd.len(),
        shape_fits(xd),
        forall|k: int| 0 <= k < xd.len() ==> axis_factor(base[k]) <= axis_factor(xd[k]),
        forall|k: int| 0 <= k < xd.len() && base[k] == 1 ==> cd2[k] <= 1,
    ensures
        broadcast_dims(base, cd2) is Some ==> shape_fits(broadcast_dims(base, cd2).unwrap()),
{
    if broadcast_dims(base, cd2) is Some {
        let s = broadcast_dims(base, cd2).unwrap();
        let n = xd.len() as int;
        assert forall|k: int| 0 <= k < n implies axis_factor(s[k]) <= axis_factor(xd[k]) by {
            assert(compatible_at(base, cd2, k));
            assert(s[k] == broadcast_at(base, cd2, k));
        }
        lemma_fits_pointwise(xd, s);
    }
}

/// With the sequence inside the tables (or single-row tables), the input
/// and the narrowed tables are compatible on every axis.
proof fn lemma_rows_compatible(xd: Seq<usize>, cd2: Seq<usize>, start_pos: usize, max_t: usize)
    requires
        xd.len() >= 2,
        cd2.len() == xd.len(),
        forall|i: int| 0 <= i < xd.len() - 2 ==> cd2[i] == 1,
        cd2[xd.len() - 2] == min_usize(xd[xd.len() - 2], max_t),
        cd2[xd.len() - 1] == xd[xd.len() - 1],
        xd[xd.len() - 2] <= max_t || max_t == 1,
    ensures
        broadcast_dims(xd, cd2) is Some,
{
    let n = xd.len() as int;
    assert forall|idx: int| 0 <= idx < n implies #[trigger] compatible_at(xd, cd2, idx) by {
        if idx < n - 2 {
            assert(cd2[idx] == 1);
        }
    }
}

/// A cosine table narrowed to the rows of a sequence and given leading unit
/// axes broadcasts against the input to exactly the input's dimensions.
proof fn lemma_broadcast_against_rows(xd: Seq<usize>, cd: Seq<usize>, max_t: usize)
    requires
        xd.len() >= 2,
        max_t > 0,
        cd == unit_axes_then(
            (xd.len() - 2) as nat,
            seq![min_usize(xd[xd.len() - 2], max_t), xd[xd.len() - 1]],
        ),
        broadcast_dims(xd, cd) is Some,
    ensures
        broadcast_dims(xd, cd) == Some(xd),
{
    let n = xd.len() as int;
    assert(cd.len() == n);
    let b = broadcast_dims(xd, cd).unwrap();
    assert forall|idx: int| 0 <= idx < n implies b[idx] == xd[idx] by {
        assert(crate::tensor::compatible_at(xd, cd, idx));
        if idx < n - 2 {
            assert(cd[idx] == 1);
        } else if idx == n - 2 {
            assert(cd[idx] == min_usize(xd[n - 2], max_t));
        } else {
            assert(cd[idx] == xd[n - 1]);
        }
    }
    assert(b =~= xd);
}

} // verus!
