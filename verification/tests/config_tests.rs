use dohee::config::{DoheeConfig, PartialConfig};

fn layer(text: &str) -> PartialConfig {
    let table: toml::Table = text.parse().unwrap();
    PartialConfig {
        backend: table.get("backend").and_then(|v| v.as_str()).map(|s| s.to_string()),
        temperature_bits: table
            .get("temperature")
            .and_then(|v| v.as_float())
            .map(|t| (t as f32).to_bits()),
        ctx_size: table.get("ctx_size").and_then(|v| v.as_integer()).map(|c| c as u32),
        ..Default::default()
    }
}

#[test]
fn test_merge_config() {
    let mut config = DoheeConfig::default();
    let partial = PartialConfig {
        model_path: Some("custom/path.gguf".to_string()),
        backend: Some("cpu".to_string()),
        ctx_size: Some(4096),
        ..Default::default()
    };

    config.merge(partial);

    assert_eq!(config.model_path, Some("custom/path.gguf".to_string()));
    assert_eq!(config.backend, "cpu");
    assert_eq!(config.ctx_size, 4096);
    assert_eq!(f32::from_bits(config.temperature_bits), 0.2); // untouched
}

#[test]
fn test_load_layered() {
    let global = layer("backend = \"cuda\"\ntemperature = 0.5\n");
    let local = layer("temperature = 0.7\nctx_size = 1024\n");

    let cli = PartialConfig {
        ctx_size: Some(8192),
        ..Default::default()
    };

    let config = DoheeConfig::load_layered(Some(global), Some(local), cli);

    assert_eq!(config.backend, "cuda");
    assert_eq!(f32::from_bits(config.temperature_bits), 0.7); // local overrides global
    assert_eq!(config.ctx_size, 8192); // cli overrides local
}

#[test]
fn test_validate_nonexistent_model() {
    let config = DoheeConfig {
        model_path: Some("nonexistent_model_file.gguf".to_string()),
        ..DoheeConfig::default()
    };
    let path = std::path::Path::new("nonexistent_model_file.gguf");

    assert!(config.validate(path.exists(), path.is_file()).is_err());
}

#[test]
fn defaults_are_the_documented_ones() {
    let c = DoheeConfig::default();
    assert_eq!(c.model_path, None);
    assert_eq!(c.backend, "vulkan");
    assert_eq!(c.ctx_size, 8192);
    assert_eq!(c.seed, 1234);
    assert_eq!(c.gpu_layers, 99);
    assert_eq!(c.sandbox_policy, "WorkspaceWrite");
    assert_eq!(f32::from_bits(c.temperature_bits), 0.2);
}

#[test]
fn validation_messages_name_the_path() {
    let c = DoheeConfig {
        model_path: Some("m.gguf".to_string()),
        ..DoheeConfig::default()
    };
    assert_eq!(
        c.validate(false, false).unwrap_err(),
        "Config validation failed: Model path 'm.gguf' does not exist."
    );
    assert_eq!(
        c.validate(true, false).unwrap_err(),
        "Config validation failed: Model path 'm.gguf' is not a file."
    );
    assert!(c.validate(true, true).is_ok());
    assert!(DoheeConfig::default().validate(false, false).is_ok());
}

#[test]
fn later_layers_win_and_empty_layers_change_nothing() {
    let g = PartialConfig { seed: Some(1), backend: Some("cpu".to_string()), ..Default::default() };
    let l = PartialConfig { seed: Some(2), ..Default::default() };
    let cli = PartialConfig { seed: Some(3), ..Default::default() };
    let c = DoheeConfig::load_layered(Some(g.clone()), Some(l.clone()), cli);
    assert_eq!(c.seed, 3);
    assert_eq!(c.backend, "cpu");
    let c2 = DoheeConfig::load_layered(Some(g), Some(l), PartialConfig::empty());
    assert_eq!(c2.seed, 2);
    let mut d = DoheeConfig::default();
    d.merge(PartialConfig::empty());
    assert_eq!(d.seed, 1234);
    assert_eq!(d.backend, "vulkan");
}

#[test]
fn merging_a_layer_twice_is_merging_it_once() {
    let p = PartialConfig {
        threads: Some(4),
        allowed_tools: Some(vec!["grep".to_string()]),
        ..Default::default()
    };
    let mut once = DoheeConfig::default();
    once.merge(p.clone());
    let mut twice = once.clone();
    twice.merge(p);
    assert_eq!(once.threads, twice.threads);
    assert_eq!(once.allowed_tools, twice.allowed_tools);
    assert_eq!(twice.threads, Some(4));
}
