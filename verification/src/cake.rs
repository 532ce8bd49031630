//! Topology, wire protocol, cache and the node state machines.

use vstd::prelude::*;
use crate::cake::tensor::DType;
use crate::cake::topology::{is_chain, is_first_fault, ranges_of, ConfigError, Node, Topology};
use crate::Args;

pub mod cache;
pub mod chain;
pub mod client;
pub mod master;
pub mod proto;
pub mod tensor;
pub mod topology;
pub mod wire;
pub mod worker;

verus! {

/// The role a process plays in the chain.
#[derive(Clone, Copy, Debug, PartialEq, Eq)]
pub enum Mode {
    /// Drives the generation loop.
    Master,
    /// Serves forward passes for its block range.
    Worker,
}

impl Default for Mode {
    fn default() -> (mode: Mode)
        ensures
            mode == Mode::Master,
    {
        Mode::Master
    }
}

/// The hyperparameters of the model, as far as the nodes need them.
#[derive(Clone, Copy, Debug, PartialEq, Eq)]
pub struct Config {
    pub hidden_size: u64,
    pub intermediate_size: u64,
    pub vocab_size: u64,
    /// Number of transformer blocks, which the topology shares out.
    pub num_hidden_layers: u64,
    pub num_attention_heads: u64,
    pub num_key_value_heads: u64,
}

/// The element type that a name stands for; half precision where no name is
/// given.
pub open spec fn dtype_named(name: Option<Seq<char>>) -> Option<DType> {
    match name {
        None => Some(DType::F16),
        Some(n) => if n == "f16"@ {
            Some(DType::F16)
        } else if n == "bf16"@ {
            Some(DType::BF16)
        } else if n == "f32"@ {
            Some(DType::F32)
        } else {
            None
        },
    }
}

/// The name, as a sequence of characters, where there is one.
pub open spec fn name_of(name: Option<String>) -> Option<Seq<char>> {
    match name {
        Some(n) => Some(n@),
        None => None,
    }
}

/// The element type that `name` stands for, refused with `UnsupportedDType`
/// where it stands for none.
pub fn parse_dtype(name: &Option<String>) -> (r: Result<DType, ConfigError>)
    ensures
        match dtype_named(name_of(*name)) {
            Some(d) => r == Ok::<DType, ConfigError>(d),
            None => r == Err::<DType, ConfigError>(ConfigError::UnsupportedDType),
        },
{
    match name {
        None => Ok(DType::F16),
        Some(n) => {
            if *n == "f16".to_owned() {
                Ok(DType::F16)
            } else if *n == "bf16".to_owned() {
                Ok(DType::BF16)
            } else if *n == "f32".to_owned() {
                Ok(DType::F32)
            } else {
                Err(ConfigError::UnsupportedDType)
            }
        },
    }
}

/// What every part of a process works from: built once at start, read ever
/// after.
#[derive(Debug)]
pub struct Context {
    pub args: Args,
    pub topology: Topology,
    pub dtype: DType,
    pub config: Config,
}

impl Context {
    /// The context of a process started with `args`, for the model that
    /// `config` describes, shared out as `nodes` say. An element type that
    /// is not supported is refused first, then the first fault of the
    /// topology.
    pub fn from_args(args: Args, nodes: Vec<Node>, config: Config) -> (r: Result<
        Context,
        ConfigError,
    >)
        ensures
            r is Ok <==> dtype_named(name_of(args.dtype)) is Some && is_chain(
                ranges_of(nodes@),
                config.num_hidden_layers as nat,
            ),
            r matches Ok(ctx) ==> {
                &&& ctx.args == args
                &&& ctx.config == config
                &&& Some(ctx.dtype) == dtype_named(name_of(args.dtype))
                &&& ctx.topology@.nodes == nodes@
                &&& ctx.topology@.total_blocks == config.num_hidden_layers
                &&& ctx.topology@.wf()
            },
            r matches Err(e) ==> if dtype_named(name_of(args.dtype)) is None {
                e == ConfigError::UnsupportedDType
            } else {
                is_first_fault(ranges_of(nodes@), config.num_hidden_layers as nat, e)
            },
    {
        let dtype = match parse_dtype(&args.dtype) {
            Ok(d) => d,
            Err(e) => {
                return Err(e);
            },
        };
        match Topology::new(nodes, config.num_hidden_layers) {
            Ok(topology) => Ok(Context { args, topology, dtype, config }),
            Err(e) => Err(e),
        }
    }
}

} // verus!
