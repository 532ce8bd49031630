use cake_core::cake::tensor::DType;
use cake_core::cake::topology::{BlockRange, ConfigError, DeviceKind, Node};
use cake_core::cake::{parse_dtype, Config, Context, Mode};
use cake_core::Args;

fn args(dtype: Option<&str>) -> Args {
    Args {
        mode: Mode::Worker,
        address: "10.0.0.2:10128".to_string(),
        model: "/models/llama".to_string(),
        topology: "/etc/topology.json".to_string(),
        dtype: dtype.map(|d| d.to_string()),
        cpu: false,
        device: 0,
        sample_len: 100,
    }
}

fn config(layers: u64) -> Config {
    Config {
        hidden_size: 4096,
        intermediate_size: 14336,
        vocab_size: 128256,
        num_hidden_layers: layers,
        num_attention_heads: 32,
        num_key_value_heads: 8,
    }
}

fn nodes() -> Vec<Node> {
    vec![
        Node {
            address: "10.0.0.1:10128".to_string(),
            range: BlockRange { first: 0, last: 15 },
            device: DeviceKind::Cuda,
        },
        Node {
            address: "10.0.0.2:10128".to_string(),
            range: BlockRange { first: 16, last: 31 },
            device: DeviceKind::Metal,
        },
    ]
}

#[test]
fn mode_defaults_to_master() {
    assert_eq!(Mode::default(), Mode::Master);
}

#[test]
fn dtype_names() {
    assert_eq!(parse_dtype(&None), Ok(DType::F16));
    assert_eq!(parse_dtype(&Some("f16".to_string())), Ok(DType::F16));
    assert_eq!(parse_dtype(&Some("bf16".to_string())), Ok(DType::BF16));
    assert_eq!(parse_dtype(&Some("f32".to_string())), Ok(DType::F32));
    assert_eq!(parse_dtype(&Some("f64".to_string())), Err(ConfigError::UnsupportedDType));
    assert_eq!(parse_dtype(&Some("F16".to_string())), Err(ConfigError::UnsupportedDType));
    assert_eq!(parse_dtype(&Some(String::new())), Err(ConfigError::UnsupportedDType));
}

#[test]
fn context_from_sound_parts() {
    let ctx = Context::from_args(args(Some("bf16")), nodes(), config(32)).unwrap();
    assert_eq!(ctx.dtype, DType::BF16);
    assert_eq!(ctx.args, args(Some("bf16")));
    assert_eq!(ctx.config, config(32));
    assert_eq!(ctx.topology.len(), 2);
    assert_eq!(ctx.topology.total_blocks(), 32);
    assert_eq!(ctx.topology.position_of("10.0.0.2:10128"), Some(1));
    let ctx = Context::from_args(args(None), nodes(), config(32)).unwrap();
    assert_eq!(ctx.dtype, DType::F16);
}

#[test]
fn unsupported_dtype_is_refused_first() {
    assert_eq!(
        Context::from_args(args(Some("i8")), nodes(), config(32)).err(),
        Some(ConfigError::UnsupportedDType)
    );
    assert_eq!(
        Context::from_args(args(Some("i8")), nodes(), config(40)).err(),
        Some(ConfigError::UnsupportedDType)
    );
}

#[test]
fn topology_that_does_not_fit_the_model_is_refused() {
    assert_eq!(
        Context::from_args(args(None), nodes(), config(40)).err(),
        Some(ConfigError::Incomplete { covered: 32 })
    );
    assert_eq!(
        Context::from_args(args(None), nodes(), config(24)).err(),
        Some(ConfigError::OutOfRange { node: 1 })
    );
}
