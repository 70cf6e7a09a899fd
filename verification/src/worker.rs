//! The background worker's decisions: which chat template it renders with,
//! and the generation settings that the interface's commands adjust.
use vstd::prelude::*;
use vstd::string::*;
use crate::config::DoheeConfig;
use crate::context::Message;
use crate::prompt::PromptTemplate;
use crate::sandbox::{policy_named, SandboxPolicy};
use crate::tui::TuiCommand;

verus! {

broadcast use vstd::string::group_string_axioms;

/// The error when neither the configuration nor the model names a template.
pub const NO_TEMPLATE_ERROR: &'static str = "No chat template was found in the GGUF model metadata, and no custom template was configured via configuration. Please specify a chat template to proceed.";

/// Where the chat template comes from: a configured template is a file when
/// one exists at that path and a built-in name otherwise; without one, the
/// template that the model embeds; without that, an error.
pub fn template_source(custom: Option<String>, custom_is_file: bool, embedded: Option<String>) -> (r: Result<PromptTemplate, String>)
    ensures
        custom matches Some(c) ==> if custom_is_file {
            r matches Ok(PromptTemplate::External(p)) && p == c
        } else {
            r matches Ok(PromptTemplate::Builtin(n)) && n == c
        },
        custom is None ==> match embedded {
            Some(t) => r matches Ok(PromptTemplate::Embedded(x)) && x == t,
            None => r matches Err(e) && e@ == NO_TEMPLATE_ERROR@,
        },
{
    match custom {
        Some(c) => {
            if custom_is_file {
                Ok(PromptTemplate::External(c))
            } else {
                Ok(PromptTemplate::Builtin(c))
            }
        },
        None => match embedded {
            Some(t) => Ok(PromptTemplate::Embedded(t)),
            None => Err(String::from_str(NO_TEMPLATE_ERROR)),
        },
    }
}

/// The generation settings that the worker runs the agent with.
#[derive(Debug, Clone)]
pub struct WorkerSettings {
    /// Bit pattern of the `f32` temperature.
    pub temp_bits: u32,
    pub seed: u32,
    pub ctx_size: u32,
    pub sandbox_policy: SandboxPolicy,
}

/// One run of the agent that the worker makes: the prompt and its history,
/// and the settings the agent runs with.
pub struct WorkerRun {
    pub prompt: String,
    pub messages: Vec<Message>,
    /// Bit pattern of the `f32` temperature.
    pub temp_bits: u32,
    pub seed: u32,
    pub ctx_size: u32,
    pub sandbox_policy: SandboxPolicy,
    /// Whether the agent keeps its progress off the terminal (the interface
    /// shows it instead).
    pub silent: bool,
    /// Whether sampling is constrained by the tool-call grammar.
    pub use_grammar: bool,
}

impl WorkerSettings {
    /// The settings a configuration starts the worker with, `cwd` being the
    /// root of a workspace-write sandbox policy.
    pub fn from_config(config: &DoheeConfig, cwd: String) -> (w: WorkerSettings)
        ensures
            w.temp_bits == config.temperature_bits,
            w.seed == config.seed,
            w.ctx_size == config.ctx_size,
            w.sandbox_policy == policy_named(config.sandbox_policy@, cwd),
    {
        WorkerSettings {
            temp_bits: config.temperature_bits,
            seed: config.seed,
            ctx_size: config.ctx_size,
            sandbox_policy: SandboxPolicy::from_name(config.sandbox_policy.as_str(), cwd),
        }
    }

    /// Takes a command from the interface. A prompt is handed back as a run
    /// of the agent on it and its history, with the current settings, silent
    /// and with grammar-constrained sampling; an update replaces the settings
    /// that it names.
    pub fn take_command(&mut self, cmd: TuiCommand) -> (run: Option<WorkerRun>)
        ensures
            cmd matches TuiCommand::SubmitPrompt { prompt, messages } ==> {
                &&& run matches Some(r)
                &&& r.prompt == prompt
                &&& r.messages == messages
                &&& r.temp_bits == old(self).temp_bits
                &&& r.seed == old(self).seed
                &&& r.ctx_size == old(self).ctx_size
                &&& r.sandbox_policy == old(self).sandbox_policy
                &&& r.silent
                &&& r.use_grammar
                &&& *final(self) == *old(self)
            },
            cmd matches TuiCommand::UpdateConfig { temp_bits, seed, ctx_size, sandbox_policy } ==> {
                &&& run is None
                &&& final(self).temp_bits == match temp_bits {
                    Some(t) => t,
                    None => old(self).temp_bits,
                }
                &&& final(self).seed == match seed {
                    Some(x) => x,
                    None => old(self).seed,
                }
                &&& final(self).ctx_size == match ctx_size {
                    Some(c) => c,
                    None => old(self).ctx_size,
                }
                &&& final(self).sandbox_policy == match sandbox_policy {
                    Some(p) => p,
                    None => old(self).sandbox_policy,
                }
            },
    {
        match cmd {
            TuiCommand::SubmitPrompt { prompt, messages } => Some(
                WorkerRun {
                    prompt,
                    messages,
                    temp_bits: self.temp_bits,
                    seed: self.seed,
                    ctx_size: self.ctx_size,
                    sandbox_policy: self.sandbox_policy.duplicate(),
                    silent: true,
                    use_grammar: true,
                },
            ),
            TuiCommand::UpdateConfig { temp_bits, seed, ctx_size, sandbox_policy } => {
                if let Some(t) = temp_bits {
                    self.temp_bits = t;
                }
                if let Some(x) = seed {
                    self.seed = x;
                }
                if let Some(c) = ctx_size {
                    self.ctx_size = c;
                }
                if let Some(p) = sandbox_policy {
                    self.sandbox_policy = p;
                }
                None
            },
        }
    }
}

} // verus!
