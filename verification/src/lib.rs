//! The core of an online learning engine: a graph of blocks that runs
//! forward and backward over one flat tape, the record cache's framing, and
//! the declaration of transformed namespaces.
//!
//! Numbers on the tape are single-precision values held as their bits; see
//! [`scalar`]. Files, threads and foreign callers stay outside.

pub mod block_helpers;
pub mod block_misc;
pub mod block_relu;
pub mod cache;
pub mod feature_buffer;
pub mod feature_transform;
pub mod graph;
pub mod model_instance;
pub mod port_buffer;
pub mod predictor;
pub mod regressor;
pub mod scalar;
pub mod vwmap;
