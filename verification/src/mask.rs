//! Attention visibility: the causal / sliding-window mask and the part of the
//! key/value cache that a sliding-window layer keeps.
use vstd::prelude::*;

verus! {

/// Absolute position, among `kv_len` keys, of query row `i` when the
/// `q_len` queries are the last `q_len` positions of the key sequence.
///
/// The position is computed as a signed integer and converted to `usize`
/// (so it wraps when there are more queries than keys).
pub open spec fn query_position(i: int, q_len: int, kv_len: int) -> usize {
    (i + kv_len - q_len) as usize
}

/// Whether the query at absolute position `p` may not look at key `j`: the
/// key lies in its future, or (for a sliding-window layer) more than
/// `window` positions in its past.
pub open spec fn blocked(p: usize, j: int, window: usize, is_global: bool) -> bool {
    j > p || (!is_global && p >= window && j < p - window)
}

/// Mask entry for query row `i` and key `j`.
pub open spec fn mask_entry(
    i: int,
    j: int,
    q_len: int,
    kv_len: int,
    window: usize,
    is_global: bool,
) -> bool {
    blocked(query_position(i, q_len, kv_len), j, window, is_global)
}

/// The attention mask of `q_len` queries over `kv_len` keys, row by row:
/// `mask[i][j]` is `true` where query `i` may not attend to key `j`.
pub fn causal_mask(q_len: usize, kv_len: usize, window_size: usize, is_global: bool) -> (mask: Vec<
    Vec<bool>,
>)
    requires
        q_len + kv_len <= i64::MAX,
    ensures
        mask.len() == q_len,
        forall|i: int| 0 <= i < q_len ==> #[trigger] mask[i].len() == kv_len,
        forall|i: int, j: int|
            0 <= i < q_len && 0 <= j < kv_len ==> #[trigger] mask[i][j] == mask_entry(
                i,
                j,
                q_len as int,
                kv_len as int,
                window_size,
                is_global,
            ),
{
    let mut mask: Vec<Vec<bool>> = Vec::new();
    let mut i: usize = 0;
    while i < q_len
        invariant
            i <= q_len,
            q_len + kv_len <= i64::MAX,
            mask.len() == i,
            forall|a: int| 0 <= a < i ==> #[trigger] mask[a].len() == kv_len,
            forall|a: int, j: int|
                0 <= a < i && 0 <= j < kv_len ==> #[trigger] mask[a][j] == mask_entry(
                    a,
                    j,
                    q_len as int,
                    kv_len as int,
                    window_size,
                    is_global,
                ),
        decreases q_len - i,
    {
        let i_abs: usize = (i as i64 + kv_len as i64 - q_len as i64) as usize;
        assert(i_abs == query_position(i as int, q_len as int, kv_len as int));
        let mut row: Vec<bool> = Vec::new();
        let mut j: usize = 0;
        while j < kv_len
            invariant
                j <= kv_len,
                row.len() == j,
                i_abs == query_position(i as int, q_len as int, kv_len as int),
                forall|b: int|
                    0 <= b < j ==> #[trigger] row[b] == mask_entry(
                        i as int,
                        b,
                        q_len as int,
                        kv_len as int,
                        window_size,
                        is_global,
                    ),
            decreases kv_len - j,
        {
            let is_causal = j > i_abs;
            let is_outside_window = !is_global && i_abs >= window_size && j < i_abs - window_size;
            row.push(is_causal || is_outside_window);
            j = j + 1;
        }
        mask.push(row);
        i = i + 1;
    }
    mask
}

/// The span `(start, len)` of the concatenated key/value history that an
/// attention layer keeps: a sliding-window layer that extended an earlier
/// cache keeps only its last `window_size` positions; otherwise all of it.
pub open spec fn retained_span(
    had_cache: bool,
    total_len: usize,
    window_size: usize,
    is_global: bool,
) -> (usize, usize) {
    if had_cache && !is_global && total_len > window_size {
        ((total_len - window_size) as usize, window_size)
    } else {
        (0, total_len)
    }
}

/// Which part of the key/value history of length `total_len` the layer keeps.
pub fn kv_retained_span(had_cache: bool, total_len: usize, window_size: usize, is_global: bool) -> (r:
    (usize, usize))
    ensures
        r == retained_span(had_cache, total_len, window_size, is_global),
{
    if had_cache && !is_global && total_len > window_size {
        (total_len - window_size, window_size)
    } else {
        (0, total_len)
    }
}

/// The span `(start, len)` of the concatenated key/value history that the
/// `new_len` new queries attend to. A sliding-window layer that extended an
/// earlier cache attends to the last `window_size` positions, as it caches,
/// or to all the new positions when more than `window_size` arrived at once,
/// so that each new query keeps its own key; otherwise the whole history.
pub open spec fn attended_span(
    had_cache: bool,
    total_len: usize,
    new_len: usize,
    window_size: usize,
    is_global: bool,
) -> (usize, usize) {
    let keep = if new_len > window_size {
        new_len
    } else {
        window_size
    };
    if had_cache && !is_global && total_len > keep {
        ((total_len - keep) as usize, keep)
    } else {
        (0, total_len)
    }
}

/// Which part of the key/value history of length `total_len` the `new_len`
/// new queries attend to.
pub fn kv_attended_span(
    had_cache: bool,
    total_len: usize,
    new_len: usize,
    window_size: usize,
    is_global: bool,
) -> (r: (usize, usize))
    ensures
        r == attended_span(had_cache, total_len, new_len, window_size, is_global),
{
    let keep = if new_len > window_size {
        new_len
    } else {
        window_size
    };
    if had_cache && !is_global && total_len > keep {
        (total_len - keep, keep)
    } else {
        (0, total_len)
    }
}

/// Law: the attended span is a suffix of the history that contains the
/// cached span, holds every new position, and is the cached span itself
/// whenever no more than `window_size` positions arrived.
pub proof fn lemma_attended_span_covers(
    had_cache: bool,
    total_len: usize,
    new_len: usize,
    window_size: usize,
    is_global: bool,
)
    requires
        new_len <= total_len,
    ensures
        ({
            let (a_start, a_len) = attended_span(had_cache, total_len, new_len, window_size, is_global);
            let (c_start, c_len) = retained_span(had_cache, total_len, window_size, is_global);
            &&& a_start + a_len == total_len
            &&& a_start <= c_start
            &&& new_len <= a_len
            &&& new_len <= window_size ==> a_start == c_start && a_len == c_len
        }),
{
}

/// Law: when there are at least as many keys as queries, every query may
/// look at the key at its own position, so no mask row is entirely blocked.
pub proof fn lemma_own_position_visible(
    i: int,
    q_len: usize,
    kv_len: usize,
    window: usize,
    is_global: bool,
)
    requires
        0 <= i < q_len,
        q_len <= kv_len,
    ensures
        0 <= query_position(i, q_len as int, kv_len as int) < kv_len,
        !mask_entry(
            i,
            query_position(i, q_len as int, kv_len as int) as int,
            q_len as int,
            kv_len as int,
            window,
            is_global,
        ),
{
}

/// Law: a global layer's mask is purely causal: a query sees exactly the
/// keys at or before its own position.
pub proof fn lemma_global_mask_is_causal(i: int, j: int, q_len: usize, kv_len: usize, window: usize)
    requires
        0 <= i < q_len,
        0 <= j < kv_len,
        q_len <= kv_len,
    ensures
        mask_entry(i, j, q_len as int, kv_len as int, window, true) <==> j > i + kv_len - q_len,
{
}

/// Law: a sliding-window query sees exactly the keys from `window`
/// positions before its own position up to its own position.
pub proof fn lemma_window_mask_span(i: int, j: int, q_len: usize, kv_len: usize, window: usize)
    requires
        0 <= i < q_len,
        0 <= j < kv_len,
        q_len <= kv_len,
    ensures
        !mask_entry(i, j, q_len as int, kv_len as int, window, false) <==> (j <= i + kv_len - q_len
            && i + kv_len - q_len <= j + window),
{
}

/// Law: the kept key/value span is a suffix of the history, and a
/// sliding-window layer that truncates keeps at most `window_size` positions.
pub proof fn lemma_retained_span_is_recent_suffix(
    had_cache: bool,
    total_len: usize,
    window_size: usize,
    is_global: bool,
)
    ensures
        ({
            let (start, len) = retained_span(had_cache, total_len, window_size, is_global);
            &&& start + len == total_len
            &&& (had_cache && !is_global) ==> len <= window_size
        }),
{
}

/// Law: a sliding-window layer that extends a cache with any number of new
/// queries attends to at least as many keys as queries, so each of those
/// queries still sees the key at its own position: no row of its mask is
/// entirely blocked.
pub proof fn lemma_window_cache_keeps_own_keys(
    cached_len: usize,
    new_len: usize,
    window_size: usize,
    i: int,
)
    requires
        cached_len + new_len <= usize::MAX,
        0 <= i < new_len,
    ensures
        ({
            let (start, kept) = attended_span(
                true,
                (cached_len + new_len) as usize,
                new_len,
                window_size,
                false,
            );
            &&& new_len <= kept
            &&& !mask_entry(
                i,
                query_position(i, new_len as int, kept as int) as int,
                new_len as int,
                kept as int,
                window_size,
                false,
            )
        }),
{
    let (start, kept) = attended_span(
        true,
        (cached_len + new_len) as usize,
        new_len,
        window_size,
        false,
    );
    lemma_own_position_visible(i, new_len, kept, window_size, false);
}

/// Whether scores of `q_len` queries over `kv_len` keys need the mask: always
/// but for a single query over a single key.
pub fn mask_needed(q_len: usize, kv_len: usize) -> (r: bool)
    ensures
        r == (q_len > 1 || kv_len > 1),
{
    q_len > 1 || kv_len > 1
}

/// Law: the mask is only skipped where it would block nothing: one query
/// over at most one key sees that key.
pub proof fn lemma_skipped_mask_is_open(q_len: usize, kv_len: usize, window: usize, is_global: bool)
    requires
        !(q_len > 1 || kv_len > 1),
        q_len <= kv_len,
    ensures
        forall|i: int, j: int|
            0 <= i < q_len && 0 <= j < kv_len ==> !#[trigger] mask_entry(
                i,
                j,
                q_len as int,
                kv_len as int,
                window,
                is_global,
            ),
{
}

} // verus!
