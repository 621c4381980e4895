use titan_core::config::{Config, ConfigError, DEFAULT_DROP_PATH_RATE_BITS};
use titan_core::dims::{attention_dims, emulator_bottleneck_dim, ffn_hidden_dim, head_width, kv_head_map};
use titan_core::mask::{causal_mask, kv_attended_span, kv_retained_span, mask_needed};
use titan_core::model::{drop_path_mask_dims, input_plan, output_rows, BlockTracker};
use titan_core::moe::expert_token_counts;
use titan_core::rope::{rope_frequency_exponents, rope_window};
use titan_core::session::{check_length, LengthCheck, MAX_INFERENCE_LEN, MAX_TRAINING_LEN};

#[test]
fn default_config_values() {
    let c = Config::default();
    assert_eq!(c.vocab_size, 32000);
    assert_eq!(c.dim, 768);
    assert_eq!(c.num_layers, 12);
    assert_eq!(c.num_heads, 12);
    assert_eq!(c.num_kv_heads, 4);
    assert_eq!(c.window_size, 512);
    assert_eq!(c.block_size, 4);
    assert_eq!(c.m_size, 8);
    assert_eq!(c.num_experts, 4);
    assert_eq!(c.global_attn_period, 4);
    assert!(c.use_weight_std);
    assert!(!c.use_turbo_quant);
    assert_eq!(c.drop_path_rate_bits, 0.1f32.to_bits());
    assert_eq!(f32::from_bits(DEFAULT_DROP_PATH_RATE_BITS), 0.1f32);
}

#[test]
fn session_config_uses_session_defaults() {
    let c = Config::from_options(1000, 256, 4, None, None, None, None, None, None).unwrap();
    assert_eq!(c.vocab_size, 1000);
    assert_eq!(c.dim, 256);
    assert_eq!(c.num_layers, 4);
    assert_eq!(c.num_heads, 8);
    assert_eq!(c.num_kv_heads, 2);
    assert_eq!(c.window_size, 512);
    assert_eq!(c.block_size, 4);
    assert_eq!(c.m_size, 8);
    assert_eq!(c.num_experts, 4);
    assert_eq!(c.global_attn_period, 4);
    assert_eq!(c.drop_path_rate_bits, 0.1f32.to_bits());
}

#[test]
fn session_config_takes_given_values() {
    let c = Config::from_options(50, 64, 2, Some(4), Some(4), Some(16), Some(2), Some(3), Some(6)).unwrap();
    assert_eq!(c.num_heads, 4);
    assert_eq!(c.num_kv_heads, 4);
    assert_eq!(c.window_size, 16);
    assert_eq!(c.block_size, 2);
    assert_eq!(c.m_size, 3);
    assert_eq!(c.num_experts, 6);
}

#[test]
fn session_config_rejects_indivisible_width() {
    let r = Config::from_options(1000, 100, 4, None, None, None, None, None, None);
    assert_eq!(r.unwrap_err(), ConfigError::DimNotDivisibleByHeads { dim: 100, num_heads: 8 });
    let r = Config::from_options(1000, 10, 4, Some(3), None, None, None, None, None);
    assert_eq!(r.unwrap_err(), ConfigError::DimNotDivisibleByHeads { dim: 10, num_heads: 3 });
}

#[test]
fn state_shapes_and_heads() {
    let c = Config::default();
    assert_eq!(c.head_dim(), 64);
    assert_eq!(c.memory_state_shape(), (12, 64, 64));
    assert_eq!(c.program_state_shape(), (1, 768));
    let globals: Vec<bool> = (0..9).map(|i| c.layer_is_global(i)).collect();
    assert_eq!(globals, vec![true, false, false, false, true, false, false, false, true]);
}

#[test]
fn causal_mask_global() {
    let m = causal_mask(3, 3, 512, true);
    assert_eq!(m, vec![vec![false, true, true], vec![false, false, true], vec![false, false, false]]);
}

#[test]
fn causal_mask_with_cached_keys() {
    // two queries after three cached keys: positions 3 and 4 of 5 keys
    let m = causal_mask(2, 5, 512, true);
    assert_eq!(m, vec![vec![false, false, false, false, true], vec![false; 5]]);
}

#[test]
fn causal_mask_sliding_window() {
    let m = causal_mask(5, 5, 2, false);
    let expected = vec![
        vec![false, true, true, true, true],
        vec![false, false, true, true, true],
        vec![false, false, false, true, true],
        vec![true, false, false, false, true],
        vec![true, true, false, false, false],
    ];
    assert_eq!(m, expected);
    // the same sizes on a global layer are purely causal
    let g = causal_mask(5, 5, 2, true);
    assert!(!g[4][0]);
}

#[test]
fn causal_mask_more_queries_than_keys() {
    // the query position wraps below zero; a sliding-window layer then blocks all keys
    let m = causal_mask(3, 2, 4, false);
    assert_eq!(m[0], vec![true, true]);
    assert_eq!(m[1], vec![false, true]);
    assert_eq!(m[2], vec![false, false]);
    let g = causal_mask(3, 2, 4, true);
    assert_eq!(g[0], vec![false, false]);
}

#[test]
fn mask_rows_never_fully_blocked() {
    for &(q, k, w, g) in &[(4usize, 4usize, 1usize, false), (3, 7, 2, false), (5, 9, 0, false), (6, 6, 3, true)] {
        let m = causal_mask(q, k, w, g);
        for row in &m {
            assert!(row.iter().any(|b| !b));
        }
    }
}

#[test]
fn kv_cache_retention() {
    assert_eq!(kv_retained_span(true, 600, 512, false), (88, 512));
    assert_eq!(kv_retained_span(true, 600, 512, true), (0, 600));
    assert_eq!(kv_retained_span(false, 600, 512, false), (0, 600));
    assert_eq!(kv_retained_span(true, 512, 512, false), (0, 512));
}

#[test]
fn rope_window_cases() {
    assert_eq!(rope_window(10, 0, 8192), (0, 10));
    assert_eq!(rope_window(10, 100, 8192), (100, 10));
    assert_eq!(rope_window(10, 8190, 8192), (8182, 10));
    assert_eq!(rope_window(9000, 5, 8192), (0, 8192));
    assert_eq!(rope_window(0, 9000, 8192), (8192, 0));
}

#[test]
fn rope_frequencies() {
    assert_eq!(rope_frequency_exponents(8), vec![0, 2, 4, 6]);
    assert_eq!(rope_frequency_exponents(7), vec![0, 2, 4, 6]);
    assert_eq!(rope_frequency_exponents(1), vec![0]);
    assert_eq!(rope_frequency_exponents(0), Vec::<usize>::new());
}

#[test]
fn expert_counts() {
    let routes = vec![0u32, 2, 2, 1, 2, 0];
    let c = expert_token_counts(&routes, 4);
    assert_eq!(c, vec![2, 1, 3, 0]);
    assert_eq!(c.iter().sum::<usize>(), routes.len());
    assert_eq!(expert_token_counts(&vec![], 3), vec![0, 0, 0]);
    assert_eq!(expert_token_counts(&vec![5, 1], 2), vec![0, 1]);
}

#[test]
fn forward_plan() {
    let fresh = input_plan(0);
    assert!(fresh.prepend_memory_tokens);
    assert_eq!(fresh.start_pos, 0);
    let inc = input_plan(17);
    assert!(!inc.prepend_memory_tokens);
    assert_eq!(inc.start_pos, 17);
    assert_eq!(output_rows(8 + 5, 8, fresh.prepend_memory_tokens), (8, 5));
    assert_eq!(output_rows(3, 8, true), (0, 3));
    assert_eq!(output_rows(8, 8, true), (0, 8));
    // With something cached, every input row becomes a logit row.
    assert_eq!(output_rows(13, 8, inc.prepend_memory_tokens), (0, 13));
    assert_eq!(output_rows(3, 8, false), (0, 3));
    assert_eq!(drop_path_mask_dims(&vec![5, 7, 9]), vec![5, 1, 1]);
    assert_eq!(drop_path_mask_dims(&vec![4]), vec![4]);
}

#[test]
fn block_tracker_summarises_every_block() {
    let mut t = BlockTracker::new(4);
    let mut due = Vec::new();
    for _ in 0..10 {
        due.push(t.record_layer());
    }
    assert_eq!(due, vec![false, false, false, true, false, false, false, true, false, false]);
    assert_eq!(t.completed_blocks(), 2);
    assert_eq!(t.pending_layers(), 2);
    let mut one = BlockTracker::new(1);
    assert!(one.record_layer());
    assert!(one.record_layer());
    assert_eq!(one.completed_blocks(), 2);
}

#[test]
fn layer_widths() {
    let a = attention_dims(768, 12, 4, false);
    assert_eq!((a.head_dim, a.kv_width, a.kv_up_width, a.qk_width), (64, 256, 512, 64));
    let d = attention_dims(768, 12, 4, true);
    assert_eq!(d.qk_width, 32);
    assert_eq!(ffn_hidden_dim(768), 2048);
    assert_eq!(ffn_hidden_dim(10), 26);
    assert_eq!(emulator_bottleneck_dim(768), 192);
    assert_eq!(emulator_bottleneck_dim(3), 0);
    assert_eq!(head_width(768, 12), 64);
}

#[test]
fn grouped_query_head_map() {
    assert_eq!(kv_head_map(8, 2), Some(vec![0, 0, 0, 0, 1, 1, 1, 1]));
    assert_eq!(kv_head_map(4, 4), Some(vec![0, 1, 2, 3]));
    assert_eq!(kv_head_map(12, 5), None);
    assert_eq!(kv_head_map(2, 4), None);
}

#[test]
fn sequence_length_checks() {
    assert_eq!(check_length(0, MAX_INFERENCE_LEN), LengthCheck::Empty);
    assert_eq!(check_length(5, MAX_INFERENCE_LEN), LengthCheck::Proceed);
    assert_eq!(check_length(8192, MAX_INFERENCE_LEN), LengthCheck::Proceed);
    assert_eq!(check_length(8193, MAX_INFERENCE_LEN), LengthCheck::TooLong);
    assert_eq!(check_length(4097, MAX_TRAINING_LEN), LengthCheck::TooLong);
    assert_eq!(check_length(4096, MAX_TRAINING_LEN), LengthCheck::Proceed);
}

#[test]
fn heads_tile_the_width() {
    let c = Config::from_options(100, 96, 2, Some(12), None, None, None, None, None).unwrap();
    assert_eq!(c.num_heads * c.head_dim(), c.dim);
    let (h, a, b) = c.memory_state_shape();
    assert_eq!((h, a, b), (12, 8, 8));
}

#[test]
fn single_query_single_key_needs_no_mask() {
    assert!(!mask_needed(1, 1));
    assert!(mask_needed(1, 2));
    assert!(mask_needed(2, 2));
    assert_eq!(causal_mask(1, 1, 0, false), vec![vec![false]]);
}

#[test]
fn window_layer_with_cache_keeps_own_keys() {
    // 3 cached + 2 new tokens, window 4: the 4 newest keys are kept
    let (start, kept) = kv_retained_span(true, 5, 4, false);
    assert_eq!((start, kept), (1, 4));
    let m = causal_mask(2, kept, 4, false);
    assert!(!m[0][2]);
    assert!(!m[1][3]);
}

#[test]
fn window_layer_attends_to_every_new_key() {
    // with no more new tokens than the window, the attended span is the cache
    assert_eq!(kv_attended_span(true, 5, 2, 4, false), (1, 4));
    assert_eq!(kv_attended_span(true, 600, 10, 512, false), (88, 512));
    // 3 cached + 6 new tokens, window 4: the cache keeps 4, the queries see all 6 new keys
    assert_eq!(kv_retained_span(true, 9, 4, false), (5, 4));
    let (start, seen) = kv_attended_span(true, 9, 6, 4, false);
    assert_eq!((start, seen), (3, 6));
    let m = causal_mask(6, seen, 4, false);
    for (i, row) in m.iter().enumerate() {
        assert!(!row[i], "query {} sees its own key", i);
        assert!(row.iter().any(|&b| !b));
    }
    // global layers and fresh passes attend to everything
    assert_eq!(kv_attended_span(true, 9, 6, 4, true), (0, 9));
    assert_eq!(kv_attended_span(false, 9, 9, 4, false), (0, 9));
}
