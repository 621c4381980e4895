//! Admission checks of the Python session before a forward or training pass.
use vstd::prelude::*;
use crate::tensor::{dtype_name_of, is_cpu_of, tensor_dtype, tensor_on_cpu};

verus! {

/// Longest token sequence a forward (inference) pass accepts.
pub const MAX_INFERENCE_LEN: usize = 8192;

/// Longest token sequence a training step accepts (gradients cost more memory).
pub const MAX_TRAINING_LEN: usize = 4096;

/// What a pass does with a token sequence of a given length.
#[derive(Debug, Clone, Copy, PartialEq, Eq)]
pub enum LengthCheck {
    /// Longer than the limit: the pass is refused.
    TooLong,
    /// No tokens: the pass returns at once with an empty result.
    Empty,
    /// The pass runs.
    Proceed,
}

/// The decision for `n` tokens against the length limit `limit`: too long
/// first, then empty, else the pass runs.
pub fn check_length(n: usize, limit: usize) -> (r: LengthCheck)
    ensures
        r == if n > limit {
            LengthCheck::TooLong
        } else if n == 0 {
            LengthCheck::Empty
        } else {
            LengthCheck::Proceed
        },
{
    if n > limit {
        LengthCheck::TooLong
    } else if n == 0 {
        LengthCheck::Empty
    } else {
        LengthCheck::Proceed
    }
}

/// Whether a persistent state tensor is as the session keeps it: in main
/// memory (the session's device) with `f32` elements.
pub open spec fn state_in_place(t: candle_core::Tensor) -> bool {
    tensor_on_cpu(t) && tensor_dtype(t) == "f32"@
}

/// Whether every persistent state is in main memory with `f32` elements;
/// a pass refuses to run otherwise.
pub fn states_in_place(states: &Vec<candle_core::Tensor>) -> (ok: bool)
    ensures
        ok <==> forall|k: int| 0 <= k < states.len() ==> #[trigger] state_in_place(states[k]),
{
    let f32_name = "f32".to_owned();
    let mut k: usize = 0;
    while k < states.len()
        invariant
            k <= states.len(),
            f32_name@ == "f32"@,
            forall|a: int| 0 <= a < k ==> #[trigger] state_in_place(states[a]),
        decreases states.len() - k,
    {
        let t = &states[k];
        if !is_cpu_of(t) || dtype_name_of(t) != f32_name {
            assert(!state_in_place(states[k as int]));
            return false;
        }
        k = k + 1;
    }
    true
}

} // verus!
