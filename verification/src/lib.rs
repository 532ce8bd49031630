//! Distributed execution layer for transformer inference: a static topology
//! assigns contiguous block ranges to nodes, and activations travel through
//! the nodes in chain order over a length-prefixed binary protocol.

use vstd::prelude::*;
use crate::cake::Mode;

pub mod cake;

verus! {

/// What a process is started with.
#[derive(Debug, PartialEq, Eq)]
pub struct Args {
    /// Whether the process drives the generation or serves blocks.
    pub mode: Mode,
    /// The address the process is reached at.
    pub address: String,
    /// Where the model lies.
    pub model: String,
    /// Where the topology lies.
    pub topology: String,
    /// The element type by name; half precision where none is given.
    pub dtype: Option<String>,
    /// Whether to compute on the CPU whatever else there is.
    pub cpu: bool,
    /// Ordinal of the device to compute on.
    pub device: usize,
    /// Number of tokens after which a session ends at the latest.
    pub sample_len: u64,
}

} // verus!
