//! Architectural configuration of the Titan Transformer.
//!
//! The configuration is plain data: sizes, flags and the stochastic-depth
//! rate. The rate is a 32-bit IEEE float that this library never computes
//! with, so it is carried as its bit pattern (`f32::to_bits`); the model code
//! turns it back into a float where it applies stochastic depth.
use vstd::prelude::*;

verus! {

/// Bit pattern of the single-precision float `0.1`, the default stochastic-depth rate.
pub const DEFAULT_DROP_PATH_RATE_BITS: u32 = 0x3dcc_cccdu32;

/// Heads used by the Python entry point when the caller gives none.
pub const DEFAULT_SESSION_HEADS: usize = 8;

/// Key/value heads used by the Python entry point when the caller gives none.
pub const DEFAULT_SESSION_KV_HEADS: usize = 2;

/// Sliding-window length used by the Python entry point when the caller gives none.
pub const DEFAULT_SESSION_WINDOW: usize = 512;

/// Architectural configuration for the Titan Transformer.
#[derive(Debug, Clone, Copy)]
pub struct Config {
    pub vocab_size: usize,
    pub dim: usize,
    pub num_layers: usize,
    pub num_heads: usize,
    pub num_kv_heads: usize,
    pub window_size: usize,
    pub block_size: usize,
    pub m_size: usize,
    pub num_experts: usize,
    pub global_attn_period: usize,
    pub use_weight_std: bool,
    pub use_turbo_quant: bool,
    /// The stochastic-depth rate, as the bit pattern of an `f32`.
    pub drop_path_rate_bits: u32,
}

/// The configuration that `Config::default` returns.
pub open spec fn default_config() -> Config {
    Config {
        vocab_size: 32000,
        dim: 768,
        num_layers: 12,
        num_heads: 12,
        num_kv_heads: 4,
        window_size: 512,
        block_size: 4,
        m_size: 8,
        num_experts: 4,
        global_attn_period: 4,
        use_weight_std: true,
        use_turbo_quant: false,
        drop_path_rate_bits: DEFAULT_DROP_PATH_RATE_BITS,
    }
}

impl Default for Config {
    fn default() -> (c: Self)
        ensures
            c == default_config(),
    {
        Config {
            vocab_size: 32000,
            dim: 768,
            num_layers: 12,
            num_heads: 12,
            num_kv_heads: 4,
            window_size: 512,
            block_size: 4,
            m_size: 8,
            num_experts: 4,
            global_attn_period: 4,
            use_weight_std: true,
            use_turbo_quant: false,
            drop_path_rate_bits: DEFAULT_DROP_PATH_RATE_BITS,
        }
    }
}

/// Why a session configuration was refused.
#[derive(Debug, Clone, Copy, PartialEq, Eq)]
pub enum ConfigError {
    /// The model width is not a multiple of the number of attention heads.
    DimNotDivisibleByHeads { dim: usize, num_heads: usize },
}

/// The value an optional argument takes: the given one, else the fallback.
pub open spec fn or_default(o: Option<usize>, fallback: usize) -> usize {
    match o {
        Some(v) => v,
        None => fallback,
    }
}

/// The configuration that the Python entry point builds from its arguments:
/// the defaults, with the three mandatory sizes, the session defaults for
/// heads, key/value heads and window, and the optional block, memory-token
/// and expert counts where they are given.
pub open spec fn session_config(
    vocab_size: usize,
    dim: usize,
    num_layers: usize,
    num_heads: Option<usize>,
    num_kv_heads: Option<usize>,
    window_size: Option<usize>,
    block_size: Option<usize>,
    m_size: Option<usize>,
    num_experts: Option<usize>,
) -> Config {
    Config {
        vocab_size,
        dim,
        num_layers,
        num_heads: or_default(num_heads, DEFAULT_SESSION_HEADS),
        num_kv_heads: or_default(num_kv_heads, DEFAULT_SESSION_KV_HEADS),
        window_size: or_default(window_size, DEFAULT_SESSION_WINDOW),
        block_size: or_default(block_size, default_config().block_size),
        m_size: or_default(m_size, default_config().m_size),
        num_experts: or_default(num_experts, default_config().num_experts),
        ..default_config()
    }
}

/// A session configuration holds exactly what it was given: the three
/// mandatory sizes, each optional argument where given (the session's own
/// defaults for heads, key/value heads and window, and `Config::default`'s
/// for the block, memory-token and expert counts where not), and
/// `Config::default`'s value of every field that is no argument.
pub open spec fn session_fields_as_given(
    c: Config,
    vocab_size: usize,
    dim: usize,
    num_layers: usize,
    num_heads: Option<usize>,
    num_kv_heads: Option<usize>,
    window_size: Option<usize>,
    block_size: Option<usize>,
    m_size: Option<usize>,
    num_experts: Option<usize>,
) -> bool {
    &&& c.vocab_size == vocab_size
    &&& c.dim == dim
    &&& c.num_layers == num_layers
    &&& c.num_heads == (match num_heads {
        Some(v) => v,
        None => DEFAULT_SESSION_HEADS,
    })
    &&& c.num_kv_heads == (match num_kv_heads {
        Some(v) => v,
        None => DEFAULT_SESSION_KV_HEADS,
    })
    &&& c.window_size == (match window_size {
        Some(v) => v,
        None => DEFAULT_SESSION_WINDOW,
    })
    &&& c.block_size == (match block_size {
        Some(v) => v,
        None => default_config().block_size,
    })
    &&& c.m_size == (match m_size {
        Some(v) => v,
        None => default_config().m_size,
    })
    &&& c.num_experts == (match num_experts {
        Some(v) => v,
        None => default_config().num_experts,
    })
    &&& c.global_attn_period == default_config().global_attn_period
    &&& c.use_weight_std == default_config().use_weight_std
    &&& c.use_turbo_quant == default_config().use_turbo_quant
    &&& c.drop_path_rate_bits == default_config().drop_path_rate_bits
}

/// Law: the configuration a session builds takes every argument as given
/// and agrees with the default configuration on every other field (in
/// particular, no memory quantization and weight standardisation on).
pub proof fn lemma_session_config_keeps_defaults(
    vocab_size: usize,
    dim: usize,
    num_layers: usize,
    num_heads: Option<usize>,
    num_kv_heads: Option<usize>,
    window_size: Option<usize>,
    block_size: Option<usize>,
    m_size: Option<usize>,
    num_experts: Option<usize>,
)
    ensures
        session_fields_as_given(
            session_config(
                vocab_size,
                dim,
                num_layers,
                num_heads,
                num_kv_heads,
                window_size,
                block_size,
                m_size,
                num_experts,
            ),
            vocab_size,
            dim,
            num_layers,
            num_heads,
            num_kv_heads,
            window_size,
            block_size,
            m_size,
            num_experts,
        ),
        !session_config(
            vocab_size,
            dim,
            num_layers,
            num_heads,
            num_kv_heads,
            window_size,
            block_size,
            m_size,
            num_experts,
        ).use_turbo_quant,
        session_config(
            vocab_size,
            dim,
            num_layers,
            num_heads,
            num_kv_heads,
            window_size,
            block_size,
            m_size,
            num_experts,
        ).use_weight_std,
{
}

fn pick(o: Option<usize>, fallback: usize) -> (r: usize)
    ensures
        r == or_default(o, fallback),
{
    match o {
        Some(v) => v,
        None => fallback,
    }
}

impl Config {
    /// The attention heads divide the model width evenly.
    pub open spec fn heads_divide_dim(self) -> bool {
        self.num_heads > 0 && self.dim % self.num_heads == 0
    }

    /// Builds the configuration of a Python session from its arguments.
    ///
    /// Fails when the model width is not a multiple of the number of heads.
    pub fn from_options(
        vocab_size: usize,
        dim: usize,
        num_layers: usize,
        num_heads: Option<usize>,
        num_kv_heads: Option<usize>,
        window_size: Option<usize>,
        block_size: Option<usize>,
        m_size: Option<usize>,
        num_experts: Option<usize>,
    ) -> (r: Result<Config, ConfigError>)
        requires
            or_default(num_heads, DEFAULT_SESSION_HEADS) != 0,
        ensures
            ({
                let c = session_config(
                    vocab_size,
                    dim,
                    num_layers,
                    num_heads,
                    num_kv_heads,
                    window_size,
                    block_size,
                    m_size,
                    num_experts,
                );
                match r {
                    Ok(cfg) => cfg == c && c.heads_divide_dim(),
                    Err(e) => !c.heads_divide_dim() && e == ConfigError::DimNotDivisibleByHeads {
                        dim,
                        num_heads: c.num_heads,
                    },
                }
            }),
            r is Ok <==> dim % or_default(num_heads, DEFAULT_SESSION_HEADS) == 0,
            r matches Ok(cfg) ==> session_fields_as_given(
                cfg,
                vocab_size,
                dim,
                num_layers,
                num_heads,
                num_kv_heads,
                window_size,
                block_size,
                m_size,
                num_experts,
            ),
    {
        let mut config = Config::default();
        config.vocab_size = vocab_size;
        config.dim = dim;
        config.num_layers = num_layers;
        config.num_heads = pick(num_heads, DEFAULT_SESSION_HEADS);
        config.num_kv_heads = pick(num_kv_heads, DEFAULT_SESSION_KV_HEADS);
        config.window_size = pick(window_size, DEFAULT_SESSION_WINDOW);
        config.block_size = pick(block_size, config.block_size);
        config.m_size = pick(m_size, config.m_size);
        config.num_experts = pick(num_experts, config.num_experts);
        if config.dim % config.num_heads != 0 {
            return Err(ConfigError::DimNotDivisibleByHeads { dim: config.dim, num_heads: config.num_heads });
        }
        Ok(config)
    }

    /// Width of one attention (and memory) head.
    pub fn head_dim(&self) -> (r: usize)
        requires
            self.num_heads > 0,
        ensures
            r == self.dim / self.num_heads,
    {
        self.dim / self.num_heads
    }

    /// Shape of one layer's memory state: one square matrix per head.
    pub fn memory_state_shape(&self) -> (r: (usize, usize, usize))
        requires
            self.num_heads > 0,
        ensures
            r == (self.num_heads, self.dim / self.num_heads, self.dim / self.num_heads),
    {
        let hd = self.head_dim();
        (self.num_heads, hd, hd)
    }

    /// Shape of one layer's program state: a single row of model width.
    pub fn program_state_shape(&self) -> (r: (usize, usize))
        ensures
            r == (1usize, self.dim),
    {
        (1, self.dim)
    }

    /// Whether layer `layer` attends over the whole context (every
    /// `global_attn_period`-th layer, starting with the first) rather than
    /// through the sliding window.
    pub fn layer_is_global(&self, layer: usize) -> (r: bool)
        requires
            self.global_attn_period > 0,
        ensures
            r == (layer % self.global_attn_period == 0),
    {
        layer % self.global_attn_period == 0
    }
}

/// Law: in a configuration whose heads divide the width, the heads tile the
/// width exactly, so activations of width `dim` split into `num_heads` heads
/// of width `head_dim` and back.
pub proof fn lemma_heads_tile_width(c: Config)
    requires
        c.heads_divide_dim(),
    ensures
        c.num_heads * (c.dim / c.num_heads) == c.dim,
{
    vstd::arithmetic::div_mod::lemma_fundamental_div_mod(c.dim as int, c.num_heads as int);
}

} // verus!
