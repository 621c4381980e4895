//! The decisions of the Titan Transformer's forward pass that do not touch
//! activations: where the sequence starts, when a block of layers is
//! summarised for the block residuals, which output rows become logits, and
//! the shape of the stochastic-depth mask.
use vstd::prelude::*;
use vstd::arithmetic::div_mod::lemma_fundamental_div_mod_converse;

verus! {

/// How a forward pass treats its input, given the length of the key/value
/// history already cached by the first layer.
#[derive(Debug, Clone, Copy, PartialEq, Eq)]
pub struct InputPlan {
    /// Whether the learned memory tokens are put in front of the input
    /// (only on a fresh pass, with nothing cached).
    pub prepend_memory_tokens: bool,
    /// Position of the first input row in the sequence.
    pub start_pos: usize,
}

/// The plan for a pass that finds `cached_len` positions already cached.
pub fn input_plan(cached_len: usize) -> (p: InputPlan)
    ensures
        p.prepend_memory_tokens == (cached_len == 0),
        p.start_pos == cached_len,
{
    let is_incremental = cached_len > 0;
    let start_pos = if is_incremental {
        cached_len
    } else {
        0
    };
    InputPlan { prepend_memory_tokens: !is_incremental, start_pos }
}

/// The rows `(start, len)` of the final hidden states that are projected to
/// logits. When the memory tokens were put in front of the input, their
/// `m_size` rows come first and are left out (when there are more than
/// `m_size` rows); otherwise every row is an input token and all are kept.
pub open spec fn logit_rows(total_rows: usize, m_size: usize, prepended: bool) -> (usize, usize) {
    if prepended && total_rows > m_size {
        (m_size, (total_rows - m_size) as usize)
    } else {
        (0, total_rows)
    }
}

/// Rows of the final hidden states that become logits, given whether the
/// pass put the memory tokens in front of its input.
pub fn output_rows(total_rows: usize, m_size: usize, prepended: bool) -> (r: (usize, usize))
    ensures
        r == logit_rows(total_rows, m_size, prepended),
{
    if prepended && total_rows > m_size {
        (m_size, total_rows - m_size)
    } else {
        (0, total_rows)
    }
}

/// Law: on a fresh pass over `n > 0` tokens, where the `m_size` memory tokens
/// were put in front, the logits are exactly those of the `n` input tokens.
pub proof fn lemma_fresh_pass_logits_cover_input(n: usize, m_size: usize)
    requires
        n > 0,
        m_size + n <= usize::MAX,
    ensures
        input_plan_spec(0).prepend_memory_tokens,
        logit_rows((m_size + n) as usize, m_size, input_plan_spec(0).prepend_memory_tokens) == (
            m_size,
            n,
        ),
{
}

/// Law: on an incremental pass (something cached, so no memory tokens in
/// front) over `n` tokens, every one of the `n` rows becomes a logit row,
/// whatever the number of memory tokens.
pub proof fn lemma_incremental_pass_logits(cached_len: usize, n: usize, m_size: usize)
    requires
        cached_len > 0,
    ensures
        !input_plan_spec(cached_len).prepend_memory_tokens,
        logit_rows(n, m_size, input_plan_spec(cached_len).prepend_memory_tokens) == (0usize, n),
{
}

/// The plan `input_plan` returns.
pub open spec fn input_plan_spec(cached_len: usize) -> InputPlan {
    InputPlan { prepend_memory_tokens: cached_len == 0, start_pos: cached_len }
}

/// Shape of the per-row keep mask of stochastic depth for an activation of
/// dimensions `dims`: the first axis kept, every other axis of size one.
pub fn drop_path_mask_dims(dims: &Vec<usize>) -> (r: Vec<usize>)
    requires
        dims.len() >= 1,
    ensures
        r.len() == dims.len(),
        r[0] == dims[0],
        forall|k: int| 1 <= k < r.len() ==> #[trigger] r[k] == 1,
{
    let mut r: Vec<usize> = Vec::new();
    let mut k: usize = 0;
    while k < dims.len()
        invariant
            k <= dims.len(),
            r.len() == k,
            forall|a: int| 0 <= a < k ==> #[trigger] r[a] == 1,
        decreases dims.len() - k,
    {
        r.push(1);
        k = k + 1;
    }
    r.set(0, dims[0]);
    r
}

/// Tracks the layers of one forward pass for the block residuals: every
/// `block_size` consecutive layer outputs are summarised into one block
/// summary, which the following layers can attend to.
pub struct BlockTracker {
    block_size: usize,
    pending: usize,
    completed: usize,
    seen: usize,
}

impl BlockTracker {
    /// Layers per block.
    pub closed spec fn spec_block_size(&self) -> nat {
        self.block_size as nat
    }

    /// Layer outputs recorded since the last block summary.
    pub closed spec fn spec_pending(&self) -> nat {
        self.pending as nat
    }

    /// Block summaries formed so far.
    pub closed spec fn spec_completed(&self) -> nat {
        self.completed as nat
    }

    /// Layers recorded so far.
    pub closed spec fn spec_seen(&self) -> nat {
        self.seen as nat
    }

    /// The counters agree: every recorded layer is either pending or part of
    /// a completed block, and fewer than a block is pending.
    pub closed spec fn wf(&self) -> bool {
        &&& self.block_size > 0
        &&& self.pending < self.block_size
        &&& self.completed <= self.seen
        &&& self.completed * self.block_size + self.pending == self.seen
    }

    /// A tracker for a pass that has not run any layer yet.
    pub fn new(block_size: usize) -> (t: BlockTracker)
        requires
            block_size > 0,
        ensures
            t.wf(),
            t.spec_block_size() == block_size,
            t.spec_seen() == 0,
            t.spec_pending() == 0,
            t.spec_completed() == 0,
    {
        BlockTracker { block_size, pending: 0, completed: 0, seen: 0 }
    }

    /// Records the output of one more layer. Returns `true` when this output
    /// completes a block: the pending outputs (this one included) are then
    /// to be summarised and the pending list cleared.
    pub fn record_layer(&mut self) -> (summarize: bool)
        requires
            old(self).wf(),
            old(self).spec_seen() < usize::MAX,
        ensures
            final(self).wf(),
            final(self).spec_block_size() == old(self).spec_block_size(),
            final(self).spec_seen() == old(self).spec_seen() + 1,
            summarize == (old(self).spec_pending() + 1 == old(self).spec_block_size()),
            final(self).spec_pending() == if summarize {
                0
            } else {
                old(self).spec_pending() + 1
            },
            final(self).spec_completed() == if summarize {
                old(self).spec_completed() + 1
            } else {
                old(self).spec_completed()
            },
    {
        self.seen = self.seen + 1;
        self.pending = self.pending + 1;
        if self.pending == self.block_size {
            self.pending = 0;
            self.completed = self.completed + 1;
            proof {
                assert(self.completed * self.block_size == (self.completed - 1) * self.block_size
                    + self.block_size) by (nonlinear_arith);
            }
            true
        } else {
            false
        }
    }

    /// Block summaries formed so far.
    pub fn completed_blocks(&self) -> (r: usize)
        ensures
            r == self.spec_completed(),
    {
        self.completed
    }

    /// Layer outputs waiting for their block to complete.
    pub fn pending_layers(&self) -> (r: usize)
        ensures
            r == self.spec_pending(),
    {
        self.pending
    }
}

/// Law: after any number of recorded layers, the completed blocks are the
/// recorded layers divided by the block size and the pending outputs the
/// remainder; so the layer with index `i` sees `i / block_size` summaries.
pub proof fn lemma_tracker_counts(t: &BlockTracker)
    requires
        t.wf(),
    ensures
        t.spec_completed() == t.spec_seen() / t.spec_block_size(),
        t.spec_pending() == t.spec_seen() % t.spec_block_size(),
{
    lemma_fundamental_div_mod_converse(
        t.seen as int,
        t.block_size as int,
        t.completed as int,
        t.pending as int,
    );
}

} // verus!
