//! Layered configuration: built-in defaults, then the global file, then the
//! project file, then command-line overrides.
//!
//! The sampling temperature is carried as the bit pattern of its `f32`
//! (`f32::to_bits`): configuration only moves it from layer to layer.
use vstd::prelude::*;
use vstd::string::*;

verus! {

/// One layer of configuration: every setting it leaves unset is taken from
/// the layers below.
#[derive(Debug, Clone, Default)]
pub struct PartialConfig {
    pub model_path: Option<String>,
    pub backend: Option<String>,
    pub ctx_size: Option<u32>,
    /// Bit pattern of the `f32` temperature.
    pub temperature_bits: Option<u32>,
    pub seed: Option<u32>,
    pub gpu_layers: Option<u32>,
    pub threads: Option<i32>,
    pub sandbox_policy: Option<String>,
    pub allowed_tools: Option<Vec<String>>,
    pub denied_tools: Option<Vec<String>>,
    pub chat_template: Option<String>,
}

/// The effective configuration.
#[derive(Debug, Clone)]
pub struct DoheeConfig {
    pub model_path: Option<String>,
    pub backend: String,
    pub ctx_size: u32,
    /// Bit pattern of the `f32` temperature.
    pub temperature_bits: u32,
    pub seed: u32,
    pub gpu_layers: u32,
    pub threads: Option<i32>,
    pub sandbox_policy: String,
    pub allowed_tools: Option<Vec<String>>,
    pub denied_tools: Option<Vec<String>>,
    pub chat_template: Option<String>,
}

/// The bit pattern of the default temperature, the `f32` 0.2.
pub const DEFAULT_TEMPERATURE_BITS: u32 = 0x3E4CCCCD;

/// The built-in defaults.
pub open spec fn is_default_config(c: DoheeConfig) -> bool {
    &&& c.model_path is None
    &&& c.backend@ == "vulkan"@
    &&& c.ctx_size == 8192
    &&& c.temperature_bits == DEFAULT_TEMPERATURE_BITS
    &&& c.seed == 1234
    &&& c.gpu_layers == 99
    &&& c.threads is None
    &&& c.sandbox_policy@ == "WorkspaceWrite"@
    &&& c.allowed_tools is None
    &&& c.denied_tools is None
    &&& c.chat_template is None
}

impl Default for DoheeConfig {
    fn default() -> (c: Self)
        ensures
            is_default_config(c),
    {
        DoheeConfig {
            model_path: None,
            backend: String::from_str("vulkan"),
            ctx_size: 8192,
            temperature_bits: DEFAULT_TEMPERATURE_BITS,
            seed: 1234,
            gpu_layers: 99,
            threads: None,
            sandbox_policy: String::from_str("WorkspaceWrite"),
            allowed_tools: None,
            denied_tools: None,
            chat_template: None,
        }
    }
}

/// The value that a layer gives a setting: its own when set, else `below`.
pub open spec fn pick<T>(layer: Option<T>, below: T) -> T {
    match layer {
        Some(v) => v,
        None => below,
    }
}

/// An optional setting after a layer: the layer's when set, else `below`.
pub open spec fn pick_opt<T>(layer: Option<T>, below: Option<T>) -> Option<T> {
    match layer {
        Some(v) => Some(v),
        None => below,
    }
}

/// `base` with the layer `p` applied over it.
pub open spec fn merged(base: DoheeConfig, p: PartialConfig) -> DoheeConfig {
    DoheeConfig {
        model_path: pick_opt(p.model_path, base.model_path),
        backend: pick(p.backend, base.backend),
        ctx_size: pick(p.ctx_size, base.ctx_size),
        temperature_bits: pick(p.temperature_bits, base.temperature_bits),
        seed: pick(p.seed, base.seed),
        gpu_layers: pick(p.gpu_layers, base.gpu_layers),
        threads: pick_opt(p.threads, base.threads),
        sandbox_policy: pick(p.sandbox_policy, base.sandbox_policy),
        allowed_tools: pick_opt(p.allowed_tools, base.allowed_tools),
        denied_tools: pick_opt(p.denied_tools, base.denied_tools),
        chat_template: pick_opt(p.chat_template, base.chat_template),
    }
}

impl DoheeConfig {
    /// Applies the layer `other` over this configuration: every setting that
    /// `other` sets replaces the current one.
    pub fn merge(&mut self, other: PartialConfig)
        ensures
            *final(self) == merged(*old(self), other),
    {
        if let Some(mp) = other.model_path {
            self.model_path = Some(mp);
        }
        if let Some(b) = other.backend {
            self.backend = b;
        }
        if let Some(c) = other.ctx_size {
            self.ctx_size = c;
        }
        if let Some(t) = other.temperature_bits {
            self.temperature_bits = t;
        }
        if let Some(s) = other.seed {
            self.seed = s;
        }
        if let Some(g) = other.gpu_layers {
            self.gpu_layers = g;
        }
        if let Some(th) = other.threads {
            self.threads = Some(th);
        }
        if let Some(sp) = other.sandbox_policy {
            self.sandbox_policy = sp;
        }
        if other.allowed_tools.is_some() {
            self.allowed_tools = other.allowed_tools;
        }
        if other.denied_tools.is_some() {
            self.denied_tools = other.denied_tools;
        }
        if let Some(ct) = other.chat_template {
            self.chat_template = Some(ct);
        }
    }

    /// The configuration of the layers that were found: the defaults, then
    /// the global layer, then the local layer, then the command-line layer.
    pub fn load_layered(global: Option<PartialConfig>, local: Option<PartialConfig>, cli_overrides: PartialConfig) -> (c: Self)
        ensures
            exists|d: DoheeConfig| #[trigger] is_default_config(d) && c == merged(
                merged(
                    match global {
                        Some(g) => merged(d, g),
                        None => d,
                    },
                    match local {
                        Some(l) => l,
                        None => PartialConfig::empty_spec(),
                    },
                ),
                cli_overrides,
            ),
    {
        let mut config = DoheeConfig::default();
        let ghost d = config;
        if let Some(g) = global {
            config.merge(g);
        }
        let ghost after_global = config;
        match local {
            Some(l) => config.merge(l),
            None => {
                assert(merged(after_global, PartialConfig::empty_spec()) == after_global);
            },
        }
        config.merge(cli_overrides);
        assert(is_default_config(d));
        config
    }

    /// Checks the configured model path, given whether it exists and whether
    /// it is a file: an absent path is fine, a missing path or one that is
    /// not a file is an error that names it.
    pub fn validate(&self, path_exists: bool, path_is_file: bool) -> (r: Result<(), String>)
        ensures
            self.model_path is None ==> r is Ok,
            self.model_path matches Some(p) ==> {
                &&& !path_exists ==> (r matches Err(e) && e@ == "Config validation failed: Model path '"@
                    + p@ + "' does not exist."@)
                &&& path_exists && !path_is_file ==> (r matches Err(e) && e@
                    == "Config validation failed: Model path '"@ + p@ + "' is not a file."@)
                &&& path_exists && path_is_file ==> r is Ok
            },
    {
        match &self.model_path {
            None => Ok(()),
            Some(p) => {
                if !path_exists {
                    let mut e = String::from_str("Config validation failed: Model path '");
                    e.append(p.as_str());
                    e.append("' does not exist.");
                    Err(e)
                } else if !path_is_file {
                    let mut e = String::from_str("Config validation failed: Model path '");
                    e.append(p.as_str());
                    e.append("' is not a file.");
                    Err(e)
                } else {
                    Ok(())
                }
            },
        }
    }
}

impl PartialConfig {
    /// The layer that sets nothing.
    pub open spec fn empty_spec() -> PartialConfig {
        PartialConfig {
            model_path: None,
            backend: None,
            ctx_size: None,
            temperature_bits: None,
            seed: None,
            gpu_layers: None,
            threads: None,
            sandbox_policy: None,
            allowed_tools: None,
            denied_tools: None,
            chat_template: None,
        }
    }

    /// The layer that sets nothing.
    pub fn empty() -> (p: PartialConfig)
        ensures
            p == PartialConfig::empty_spec(),
    {
        PartialConfig {
            model_path: None,
            backend: None,
            ctx_size: None,
            temperature_bits: None,
            seed: None,
            gpu_layers: None,
            threads: None,
            sandbox_policy: None,
            allowed_tools: None,
            denied_tools: None,
            chat_template: None,
        }
    }
}

/// Each setting of a layered configuration comes from the highest layer that
/// sets it: the command line over the project file over the global file over
/// the built-in defaults. (Shown for the context size and the backend; every
/// other setting is picked the same way by `merged`.)
pub proof fn law_layer_precedence(d: DoheeConfig, g: PartialConfig, l: PartialConfig, cli: PartialConfig)
    ensures
        merged(merged(merged(d, g), l), cli).ctx_size == pick(
            cli.ctx_size,
            pick(l.ctx_size, pick(g.ctx_size, d.ctx_size)),
        ),
        merged(merged(merged(d, g), l), cli).backend == pick(
            cli.backend,
            pick(l.backend, pick(g.backend, d.backend)),
        ),
        merged(merged(merged(d, g), l), cli).temperature_bits == pick(
            cli.temperature_bits,
            pick(l.temperature_bits, pick(g.temperature_bits, d.temperature_bits)),
        ),
{
}

/// In a layered configuration every setting comes from the highest layer
/// that sets it (command line, then project file, then global file), or from
/// the defaults when no layer does: shown field by field.
pub proof fn law_every_setting_from_highest_layer(d: DoheeConfig, g: PartialConfig, l: PartialConfig, cli: PartialConfig)
    ensures
        merged(merged(merged(d, g), l), cli).backend == (match cli.backend { Some(v) => v, None => match l.backend { Some(v) => v, None => match g.backend { Some(v) => v, None => d.backend } } }),
        merged(merged(merged(d, g), l), cli).ctx_size == (match cli.ctx_size { Some(v) => v, None => match l.ctx_size { Some(v) => v, None => match g.ctx_size { Some(v) => v, None => d.ctx_size } } }),
        merged(merged(merged(d, g), l), cli).temperature_bits == (match cli.temperature_bits { Some(v) => v, None => match l.temperature_bits { Some(v) => v, None => match g.temperature_bits { Some(v) => v, None => d.temperature_bits } } }),
        merged(merged(merged(d, g), l), cli).seed == (match cli.seed { Some(v) => v, None => match l.seed { Some(v) => v, None => match g.seed { Some(v) => v, None => d.seed } } }),
        merged(merged(merged(d, g), l), cli).gpu_layers == (match cli.gpu_layers { Some(v) => v, None => match l.gpu_layers { Some(v) => v, None => match g.gpu_layers { Some(v) => v, None => d.gpu_layers } } }),
        merged(merged(merged(d, g), l), cli).sandbox_policy == (match cli.sandbox_policy { Some(v) => v, None => match l.sandbox_policy { Some(v) => v, None => match g.sandbox_policy { Some(v) => v, None => d.sandbox_policy } } }),
        merged(merged(merged(d, g), l), cli).model_path == (match cli.model_path { Some(v) => Some(v), None => match l.model_path { Some(v) => Some(v), None => match g.model_path { Some(v) => Some(v), None => d.model_path } } }),
        merged(merged(merged(d, g), l), cli).threads == (match cli.threads { Some(v) => Some(v), None => match l.threads { Some(v) => Some(v), None => match g.threads { Some(v) => Some(v), None => d.threads } } }),
        merged(merged(merged(d, g), l), cli).allowed_tools == (match cli.allowed_tools { Some(v) => Some(v), None => match l.allowed_tools { Some(v) => Some(v), None => match g.allowed_tools { Some(v) => Some(v), None => d.allowed_tools } } }),
        merged(merged(merged(d, g), l), cli).denied_tools == (match cli.denied_tools { Some(v) => Some(v), None => match l.denied_tools { Some(v) => Some(v), None => match g.denied_tools { Some(v) => Some(v), None => d.denied_tools } } }),
        merged(merged(merged(d, g), l), cli).chat_template == (match cli.chat_template { Some(v) => Some(v), None => match l.chat_template { Some(v) => Some(v), None => match g.chat_template { Some(v) => Some(v), None => d.chat_template } } }),
{
}

/// Every setting that a layer sets replaces the one below it, and every
/// setting it leaves unset stays as it was: shown field by field.
pub proof fn law_layer_sets_what_it_names(c: DoheeConfig, p: PartialConfig)
    ensures
        (match p.backend { Some(v) => merged(c, p).backend == v, None => merged(c, p).backend == c.backend }),
        (match p.ctx_size { Some(v) => merged(c, p).ctx_size == v, None => merged(c, p).ctx_size == c.ctx_size }),
        (match p.temperature_bits { Some(v) => merged(c, p).temperature_bits == v, None => merged(c, p).temperature_bits == c.temperature_bits }),
        (match p.seed { Some(v) => merged(c, p).seed == v, None => merged(c, p).seed == c.seed }),
        (match p.gpu_layers { Some(v) => merged(c, p).gpu_layers == v, None => merged(c, p).gpu_layers == c.gpu_layers }),
        (match p.sandbox_policy { Some(v) => merged(c, p).sandbox_policy == v, None => merged(c, p).sandbox_policy == c.sandbox_policy }),
        (match p.model_path { Some(v) => merged(c, p).model_path == Some(v), None => merged(c, p).model_path == c.model_path }),
        (match p.threads { Some(v) => merged(c, p).threads == Some(v), None => merged(c, p).threads == c.threads }),
        (match p.allowed_tools { Some(v) => merged(c, p).allowed_tools == Some(v), None => merged(c, p).allowed_tools == c.allowed_tools }),
        (match p.denied_tools { Some(v) => merged(c, p).denied_tools == Some(v), None => merged(c, p).denied_tools == c.denied_tools }),
        (match p.chat_template { Some(v) => merged(c, p).chat_template == Some(v), None => merged(c, p).chat_template == c.chat_template }),
{
}

/// A layer that sets nothing leaves a configuration unchanged.
pub proof fn law_empty_layer_is_neutral(c: DoheeConfig)
    ensures
        merged(c, PartialConfig::empty_spec()) == c,
{
}

/// Applying the same layer twice is the same as applying it once.
pub proof fn law_merge_idempotent(c: DoheeConfig, p: PartialConfig)
    ensures
        merged(merged(c, p), p) == merged(c, p),
{
}

} // verus!
