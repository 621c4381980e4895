# titan_core

The verified core of the Titan Transformer, a hybrid model of sliding-window
grouped-query attention, a Titans neural long-term memory, a program-state
emulator and a sparse mixture of experts, built on `candle`.

`src/` is checked by Verus. It holds the decisions of the model that do not
depend on floating-point values, each with a contract:

- `config`: the architecture configuration, its defaults and the validated
  configuration of a Python session;
- `mask`: the causal / sliding-window attention mask, the key/value cache
  window, and the keys new queries attend to (every new key, so that no query
  of a sliding-window layer is left without keys);
- `rope`: the rows of the rotary tables a call uses, the table frequencies,
  and the rotary embedding itself (its result shape);
- `dims`: the widths of the projections and the grouped-query head map;
- `moe`: the per-expert token counts of top-1 routing;
- `model`: the input plan, the logit rows, the stochastic-depth mask shape and
  the block-residual schedule;
- `session`: the admission checks of the Python session (sequence lengths,
  state device and element type);
- `tensor`, `quant`: the `candle` tensor as an opaque value with a shape, and
  the quantizers whose results are stated by shape.

`app/` holds the floating-point model code (attention scores, memory updates,
normalisation, experts) and the Python bindings, calling `src/` for every
decision above.
