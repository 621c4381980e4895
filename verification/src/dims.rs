//! Widths of the layers' projections and the grouping of query heads over
//! key/value heads (grouped-query attention).
use vstd::prelude::*;

verus! {

/// Width of one head when `dim` features are split over `num_heads` heads.
pub fn head_width(dim: usize, num_heads: usize) -> (r: usize)
    requires
        num_heads > 0,
    ensures
        r == dim / num_heads,
{
    dim / num_heads
}

/// Widths used by a multi-head attention block.
#[derive(Debug, Clone, Copy, PartialEq, Eq)]
pub struct AttentionDims {
    /// Width of one head.
    pub head_dim: usize,
    /// Width of the key (and of the value) projection: all key/value heads.
    pub kv_width: usize,
    /// Width of the latent up-projection, which yields keys and values together.
    pub kv_up_width: usize,
    /// Width normalised by the query/key norms and scaled in the scores: half
    /// a head in differential attention, a whole head otherwise.
    pub qk_width: usize,
}

/// The widths of an attention block of `dim` features with `num_heads`
/// query heads and `num_kv_heads` key/value heads.
pub open spec fn attention_dims_spec(
    dim: usize,
    num_heads: usize,
    num_kv_heads: usize,
    use_differential: bool,
) -> AttentionDims {
    let head_dim = (dim / num_heads) as usize;
    AttentionDims {
        head_dim,
        kv_width: (num_kv_heads * head_dim) as usize,
        kv_up_width: (num_kv_heads * head_dim * 2) as usize,
        qk_width: if use_differential {
            (head_dim / 2) as usize
        } else {
            head_dim
        },
    }
}

/// Widths of an attention block.
pub fn attention_dims(dim: usize, num_heads: usize, num_kv_heads: usize, use_differential: bool) -> (r:
    AttentionDims)
    requires
        num_heads > 0,
        num_kv_heads * (dim / num_heads) * 2 <= usize::MAX,
    ensures
        r == attention_dims_spec(dim, num_heads, num_kv_heads, use_differential),
        r.head_dim == dim / num_heads,
        r.kv_width == num_kv_heads * r.head_dim,
        r.kv_up_width == 2 * r.kv_width,
        r.qk_width == if use_differential {
            r.head_dim / 2
        } else {
            r.head_dim
        },
{
    let head_dim = dim / num_heads;
    let kv_width = num_kv_heads * head_dim;
    let qk_width = if use_differential {
        head_dim / 2
    } else {
        head_dim
    };
    AttentionDims { head_dim, kv_width, kv_up_width: kv_width * 2, qk_width }
}

/// Hidden width of a feed-forward block of `dim` features (eight thirds of it).
pub fn ffn_hidden_dim(dim: usize) -> (r: usize)
    requires
        dim * 8 <= usize::MAX,
    ensures
        r == dim * 8 / 3,
{
    (dim * 8) / 3
}

/// Bottleneck width of the program emulator (a quarter of the model width).
pub fn emulator_bottleneck_dim(dim: usize) -> (r: usize)
    ensures
        r == dim / 4,
{
    dim / 4
}

/// The key/value head that each query head reads when `num_heads` query
/// heads share `num_kv_heads` key/value heads, or `None` when the query
/// heads cannot be split into equal groups of at least one.
pub open spec fn kv_head_map_spec(num_heads: usize, num_kv_heads: usize) -> Option<Seq<usize>> {
    let group = num_heads / num_kv_heads;
    if group == 0 || group * num_kv_heads != num_heads {
        None
    } else {
        Some(Seq::new(num_heads as nat, |h: int| (h / group as int) as usize))
    }
}

/// For every query head, the key/value head it reads: the key/value heads are
/// repeated in place, each `num_heads / num_kv_heads` times.
pub fn kv_head_map(num_heads: usize, num_kv_heads: usize) -> (r: Option<Vec<usize>>)
    requires
        num_kv_heads > 0,
    ensures
        match (r, kv_head_map_spec(num_heads, num_kv_heads)) {
            (Some(v), Some(s)) => v@ == s,
            (None, None) => true,
            _ => false,
        },
        r is Some <==> (num_heads >= num_kv_heads && num_heads % num_kv_heads == 0),
        r matches Some(v) ==> v.len() == num_heads && forall|h: int|
            0 <= h < num_heads ==> #[trigger] v[h] == h / (num_heads / num_kv_heads) as int,
{
    let group = num_heads / num_kv_heads;
    proof {
        vstd::arithmetic::div_mod::lemma_fundamental_div_mod(num_heads as int, num_kv_heads as int);
        vstd::arithmetic::div_mod::lemma_mod_bound(num_heads as int, num_kv_heads as int);
        assert(group * num_kv_heads <= num_heads) by (nonlinear_arith)
            requires
                num_heads == num_kv_heads * group + num_heads % num_kv_heads,
                0 <= num_heads % num_kv_heads,
        {}
    }
    proof {
        lemma_head_groups_exist(num_heads, num_kv_heads);
    }
    if group == 0 || group * num_kv_heads != num_heads {
        return None;
    }
    let mut map: Vec<usize> = Vec::new();
    let mut h: usize = 0;
    while h < num_heads
        invariant
            group > 0,
            group == num_heads / num_kv_heads,
            h <= num_heads,
            map.len() == h,
            forall|a: int| 0 <= a < h ==> #[trigger] map[a] == (a / group as int) as usize,
        decreases num_heads - h,
    {
        map.push(h / group);
        h = h + 1;
    }
    proof {
        assert(map@ =~= Seq::new(num_heads as nat, |a: int| (a / group as int) as usize));
    }
    Some(map)
}

/// Law: the head map exists exactly when the query heads split into equal
/// groups of at least one: there are at least as many query heads as
/// key/value heads, and the key/value heads divide them.
pub proof fn lemma_head_groups_exist(num_heads: usize, num_kv_heads: usize)
    requires
        num_kv_heads > 0,
    ensures
        kv_head_map_spec(num_heads, num_kv_heads) is Some <==> (num_heads >= num_kv_heads
            && num_heads % num_kv_heads == 0),
{
    let n = num_heads as int;
    let k = num_kv_heads as int;
    let g = n / k;
    vstd::arithmetic::div_mod::lemma_fundamental_div_mod(n, k);
    vstd::arithmetic::div_mod::lemma_mod_bound(n, k);
    assert(g == 0 <==> n < k) by (nonlinear_arith)
        requires
            n == k * g + n % k,
            0 <= n % k < k,
            n >= 0,
    {}
    assert(g * k == n <==> n % k == 0) by (nonlinear_arith)
        requires
            n == k * g + n % k,
    {}
}

/// Law: the widths of an attention block: the key (and value) projection
/// holds exactly `num_kv_heads` heads of width `dim / num_heads`, the latent
/// up-projection twice that, and the query/key width is a whole head (half
/// a head in differential attention).
pub proof fn lemma_attention_widths(
    dim: usize,
    num_heads: usize,
    num_kv_heads: usize,
    use_differential: bool,
)
    requires
        num_heads > 0,
        num_kv_heads * (dim / num_heads) * 2 <= usize::MAX,
    ensures
        ({
            let d = attention_dims_spec(dim, num_heads, num_kv_heads, use_differential);
            &&& d.head_dim * num_heads <= dim
            &&& d.head_dim == dim / num_heads
            &&& d.kv_width == num_kv_heads * (dim / num_heads)
            &&& d.kv_up_width == 2 * num_kv_heads * (dim / num_heads)
            &&& d.qk_width == if use_differential {
                dim / num_heads / 2
            } else {
                dim / num_heads
            }
        }),
{
    vstd::arithmetic::div_mod::lemma_fundamental_div_mod(dim as int, num_heads as int);
    vstd::arithmetic::div_mod::lemma_mod_bound(dim as int, num_heads as int);
    let hd = dim / num_heads;
    assert(hd * num_heads <= dim) by (nonlinear_arith)
        requires
            dim == num_heads * hd + dim % num_heads,
            0 <= dim % num_heads,
    {}
    assert(num_kv_heads * hd * 2 == 2 * num_kv_heads * hd) by (nonlinear_arith);
    assert(num_kv_heads * hd <= usize::MAX) by (nonlinear_arith)
        requires
            num_kv_heads * hd * 2 <= usize::MAX,
    {}
}

/// Law: when the query heads split into equal groups, every query head reads
/// a valid key/value head, and key/value head `k` is read by exactly the
/// query heads `k * group .. (k + 1) * group`.
pub proof fn lemma_kv_head_groups(num_heads: usize, num_kv_heads: usize, h: int, k: int)
    requires
        num_kv_heads > 0,
        kv_head_map_spec(num_heads, num_kv_heads) is Some,
        0 <= h < num_heads,
        0 <= k < num_kv_heads,
    ensures
        ({
            let map = kv_head_map_spec(num_heads, num_kv_heads).unwrap();
            let group = num_heads / num_kv_heads;
            &&& map[h] < num_kv_heads
            &&& (map[h] == k <==> k * group <= h < (k + 1) * group)
        }),
{
    let group = (num_heads / num_kv_heads) as int;
    let q = h / group;
    assert(group > 0);
    assert(h == group * q + h % group) by {
        vstd::arithmetic::div_mod::lemma_fundamental_div_mod(h, group);
    }
    assert(0 <= h % group < group) by {
        vstd::arithmetic::div_mod::lemma_mod_bound(h, group);
    }
    assert(0 <= q) by {
        vstd::arithmetic::div_mod::lemma_div_pos_is_pos(h, group);
    }
    assert(group * num_kv_heads == num_heads);
    assert(q < num_kv_heads) by (nonlinear_arith)
        requires
            h == group * q + h % group,
            0 <= h % group,
            h < num_heads,
            group * num_kv_heads == num_heads,
            group > 0,
    {}
    assert(q == k <==> k * group <= h < (k + 1) * group) by (nonlinear_arith)
        requires
            h == group * q + h % group,
            0 <= h % group < group,
            group > 0,
    {}
}

/// Law: with as many key/value heads as query heads, each query head reads
/// its own key/value head, so repeating the heads changes nothing.
pub proof fn lemma_equal_heads_map_identity(num_heads: usize, h: int)
    requires
        num_heads > 0,
        0 <= h < num_heads,
    ensures
        kv_head_map_spec(num_heads, num_heads) is Some,
        kv_head_map_spec(num_heads, num_heads).unwrap()[h] == h,
{
    assert(num_heads / num_heads == 1) by {
        vstd::arithmetic::div_mod::lemma_div_by_self(num_heads as int);
    }
}

} // verus!
