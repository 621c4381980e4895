//! Verified core of the Titan Transformer: configuration, attention masks and
//! windows, positional-embedding windows, expert routing statistics, layer
//! scheduling and the checks of the Python session.
pub mod config;
pub mod mask;
pub mod rope;
pub mod moe;
pub mod model;
pub mod dims;
pub mod session;
pub mod tensor;
pub mod quant;
