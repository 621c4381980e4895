//! Top-1 expert routing statistics of the sparse mixture of experts.
//!
//! Each token is routed to the expert whose router logit is largest; the
//! load-balancing loss needs, for every expert, the number of tokens routed
//! to it.
use vstd::prelude::*;

verus! {

/// Number of tokens in `routes` routed to expert `e`.
pub open spec fn routed_count(routes: Seq<u32>, e: int) -> nat
    decreases routes.len(),
{
    if routes.len() == 0 {
        0
    } else {
        routed_count(routes.drop_last(), e) + if routes.last() == e {
            1nat
        } else {
            0nat
        }
    }
}

/// Tokens routed to the experts `0 .. n`, counted together.
pub open spec fn routed_total(routes: Seq<u32>, n: nat) -> nat
    decreases n,
{
    if n == 0 {
        0
    } else {
        routed_total(routes, (n - 1) as nat) + routed_count(routes, n - 1)
    }
}

/// Every route names one of the `n` experts.
pub open spec fn routes_valid(routes: Seq<u32>, n: nat) -> bool {
    forall|t: int| 0 <= t < routes.len() ==> #[trigger] routes[t] < n
}

/// For each of the `num_experts` experts, how many tokens `routes` sends to it.
pub fn expert_token_counts(routes: &Vec<u32>, num_experts: usize) -> (counts: Vec<usize>)
    requires
        num_experts <= u32::MAX,
    ensures
        counts.len() == num_experts,
        forall|e: int| 0 <= e < num_experts ==> #[trigger] counts[e] == routed_count(routes@, e),
{
    let mut counts: Vec<usize> = Vec::new();
    let mut e: usize = 0;
    while e < num_experts
        invariant
            e <= num_experts,
            counts.len() == e,
            forall|a: int| 0 <= a < e ==> #[trigger] counts[a] == 0,
        decreases num_experts - e,
    {
        counts.push(0);
        e = e + 1;
    }
    let mut t: usize = 0;
    while t < routes.len()
        invariant
            num_experts <= u32::MAX,
            t <= routes.len(),
            counts.len() == num_experts,
            forall|a: int|
                0 <= a < num_experts ==> #[trigger] counts[a] == routed_count(
                    routes@.take(t as int),
                    a,
                ),
            forall|a: int| 0 <= a < num_experts ==> #[trigger] counts[a] <= t,
        decreases routes.len() - t,
    {
        let r = routes[t];
        proof {
            assert(routes@.take(t + 1).drop_last() =~= routes@.take(t as int));
            assert(routes@.take(t + 1).last() == r);
        }
        if (r as usize) < num_experts {
            let c = counts[r as usize];
            counts.set(r as usize, c + 1);
        }
        t = t + 1;
    }
    proof {
        assert(routes@.take(routes.len() as int) =~= routes@);
    }
    counts
}

proof fn lemma_total_after_push(routes: Seq<u32>, x: u32, n: nat)
    ensures
        routed_total(routes.push(x), n) == routed_total(routes, n) + if x < n {
            1nat
        } else {
            0nat
        },
    decreases n,
{
    assert(routes.push(x).drop_last() =~= routes);
    if n > 0 {
        lemma_total_after_push(routes, x, (n - 1) as nat);
    }
}

/// Law: under top-1 routing every token goes to exactly one expert, so the
/// per-expert counts add up to the number of tokens.
pub proof fn lemma_counts_cover_all_tokens(routes: Seq<u32>, n: nat)
    requires
        routes_valid(routes, n),
    ensures
        routed_total(routes, n) == routes.len(),
    decreases routes.len(),
{
    if routes.len() == 0 {
        lemma_total_of_empty(routes, n);
    } else {
        let prefix = routes.drop_last();
        assert(routes_valid(prefix, n)) by {
            assert forall|t: int| 0 <= t < prefix.len() implies #[trigger] prefix[t] < n by {
                assert(prefix[t] == routes[t]);
            }
        }
        lemma_counts_cover_all_tokens(prefix, n);
        assert(prefix.push(routes.last()) =~= routes);
        lemma_total_after_push(prefix, routes.last(), n);
    }
}

proof fn lemma_total_of_empty(routes: Seq<u32>, n: nat)
    requires
        routes.len() == 0,
    ensures
        routed_total(routes, n) == 0,
    decreases n,
{
    if n > 0 {
        lemma_total_of_empty(routes, (n - 1) as nat);
    }
}

} // verus!
