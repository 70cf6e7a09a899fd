//! The inference engine's configuration, errors and turn outcomes.
use vstd::prelude::*;
use vstd::string::*;
use crate::sandbox::SandboxPolicy;
use crate::text::{decimal, decimal_string};
use crate::config::DEFAULT_TEMPERATURE_BITS;

verus! {

/// Why the engine could not do what was asked.
#[derive(Debug, Clone, PartialEq, Eq)]
pub enum EngineError {
    ModelLoadFailed(String),
    SessionLimitExceeded(usize),
    BackendInitFailed(String),
    ContextCreationFailed(String),
}

/// The text that describes an engine error.
pub open spec fn engine_error_text(e: EngineError) -> Seq<char> {
    match e {
        EngineError::ModelLoadFailed(s) => "Failed to load model: "@ + s@,
        EngineError::SessionLimitExceeded(n) => "Session limit exceeded: max concurrent sessions is "@
            + decimal(n as nat),
        EngineError::BackendInitFailed(s) => "Backend initialization error: "@ + s@,
        EngineError::ContextCreationFailed(s) => "Context allocation error: "@ + s@,
    }
}

impl EngineError {
    /// The text that describes this error.
    pub fn message(&self) -> (s: String)
        ensures
            s@ == engine_error_text(*self),
    {
        match self {
            EngineError::ModelLoadFailed(s) => {
                let mut m = String::from_str("Failed to load model: ");
                m.append(s.as_str());
                m
            },
            EngineError::SessionLimitExceeded(n) => {
                let mut m = String::from_str("Session limit exceeded: max concurrent sessions is ");
                let d = decimal_string(*n as u64);
                m.append(d.as_str());
                m
            },
            EngineError::BackendInitFailed(s) => {
                let mut m = String::from_str("Backend initialization error: ");
                m.append(s.as_str());
                m
            },
            EngineError::ContextCreationFailed(s) => {
                let mut m = String::from_str("Context allocation error: ");
                m.append(s.as_str());
                m
            },
        }
    }
}

/// How the engine is set up.
#[derive(Debug, Clone, Copy, PartialEq, Eq)]
pub struct EngineConfig {
    pub gpu_layers: u32,
    pub default_ctx_size: u32,
    pub max_concurrent_sessions: usize,
}

impl Default for EngineConfig {
    fn default() -> (c: Self)
        ensures
            c.gpu_layers == 99,
            c.default_ctx_size == 8192,
            c.max_concurrent_sessions == 2,
    {
        EngineConfig { gpu_layers: 99, default_ctx_size: 8192, max_concurrent_sessions: 2 }
    }
}

/// Why a turn of generation ended.
#[derive(Debug, Clone, PartialEq, Eq)]
pub enum FinishReason {
    Stop,
    MaxTokens,
    Cancelled,
    Error(String),
}

/// How a generation turn ended: cancelled when the listener went away,
/// otherwise stopped.
pub fn finish_reason(listener_gone: bool) -> (r: FinishReason)
    ensures
        listener_gone ==> r == FinishReason::Cancelled,
        !listener_gone ==> r == FinishReason::Stop,
{
    if listener_gone {
        FinishReason::Cancelled
    } else {
        FinishReason::Stop
    }
}

/// How one session samples.
#[derive(Debug, Clone)]
pub struct SessionConfig {
    pub ctx_size: u32,
    /// Bit pattern of the `f32` temperature.
    pub temperature_bits: u32,
    pub seed: u32,
    pub use_grammar: bool,
    pub sandbox_policy: SandboxPolicy,
    pub cwd: String,
}

impl SessionConfig {
    /// The default session settings for a process whose working directory is
    /// `cwd`: the sandbox lets it write only there.
    pub fn defaults_in(cwd: String) -> (c: SessionConfig)
        ensures
            c.ctx_size == 8192,
            c.temperature_bits == DEFAULT_TEMPERATURE_BITS,
            c.seed == 1234,
            c.use_grammar,
            c.sandbox_policy == (SandboxPolicy::WorkspaceWrite { root: cwd }),
            c.cwd == cwd,
    {
        SessionConfig {
            ctx_size: 8192,
            temperature_bits: DEFAULT_TEMPERATURE_BITS,
            seed: 1234,
            use_grammar: true,
            sandbox_policy: SandboxPolicy::WorkspaceWrite { root: cwd.clone() },
            cwd,
        }
    }
}

/// What a session reports while it runs a turn.
#[derive(Debug, Clone)]
pub enum AgentEvent {
    Token(String),
    Status(String),
    /// A tool call waiting for approval; `args` is its arguments' text.
    ToolRequest { call_id: String, tool: String, args: String },
    ToolResult { call_id: String, output: String, truncated: bool },
    Finished { reason: FinishReason },
    Error(String),
}

/// What a session's owner asks of it.
#[derive(Debug, Clone)]
pub enum SessionCommand {
    /// Run a turn on this prompt.
    RunTurn { prompt: String },
    ApproveTool { call_id: String },
    DenyTool { call_id: String },
    Cancel,
    Shutdown,
}

/// Whether a new session may start: only when a session slot was free.
/// Otherwise the error names the engine's limit.
pub fn admit_session(config: &EngineConfig, slot_acquired: bool) -> (r: Result<(), EngineError>)
    ensures
        slot_acquired ==> r is Ok,
        !slot_acquired ==> r == Err::<(), EngineError>(
            EngineError::SessionLimitExceeded(config.max_concurrent_sessions),
        ),
{
    if slot_acquired {
        Ok(())
    } else {
        Err(EngineError::SessionLimitExceeded(config.max_concurrent_sessions))
    }
}

/// Whether the session keeps serving commands after `cmd`: all but a
/// shutdown keep it running.
pub fn keeps_running(cmd: &SessionCommand) -> (b: bool)
    ensures
        b == !(*cmd is Shutdown),
{
    match cmd {
        SessionCommand::Shutdown => false,
        _ => true,
    }
}

/// The event that opens a turn.
pub fn turn_opened() -> (ev: AgentEvent)
    ensures
        ev matches AgentEvent::Status(s) && s@ == "Processing turn..."@,
{
    AgentEvent::Status(String::from_str("Processing turn..."))
}

/// The events that report a prompt the model could not take in: the error,
/// then the end of the turn because of it.
pub fn prompt_failed(error: String) -> (evs: Vec<AgentEvent>)
    ensures
        evs@.len() == 2,
        evs@[0] == AgentEvent::Error(error),
        evs@[1] == (AgentEvent::Finished { reason: FinishReason::Error(error) }),
{
    let mut evs: Vec<AgentEvent> = Vec::new();
    evs.push(AgentEvent::Error(error.clone()));
    evs.push(AgentEvent::Finished { reason: FinishReason::Error(error) });
    evs
}

/// A turn's sampling: whether it is over, and whether it ended because no
/// one listened any more.
#[derive(Debug, Clone, Copy, PartialEq, Eq)]
pub struct TurnRun {
    pub done: bool,
    pub cancelled: bool,
}

impl TurnRun {
    /// A turn that has just started sampling.
    pub fn new() -> (t: TurnRun)
        ensures
            !t.done,
            !t.cancelled,
    {
        TurnRun { done: false, cancelled: false }
    }

    /// Takes what one sampling step gave and names the event to send: a
    /// piece is sent as a token; the end of generation ends the turn quietly;
    /// a failure ends it and is reported.
    pub fn on_sample(&mut self, sampled: Result<Option<String>, String>) -> (ev: Option<AgentEvent>)
        requires
            !old(self).done,
        ensures
            final(self).cancelled == old(self).cancelled,
            match sampled {
                Ok(Some(piece)) => ev == Some(AgentEvent::Token(piece)) && !final(self).done,
                Ok(None) => ev is None && final(self).done,
                Err(e) => ev == Some(AgentEvent::Error(e)) && final(self).done,
            },
    {
        match sampled {
            Ok(Some(piece)) => Some(AgentEvent::Token(piece)),
            Ok(None) => {
                self.done = true;
                None
            },
            Err(e) => {
                self.done = true;
                Some(AgentEvent::Error(e))
            },
        }
    }

    /// Notes that a token could not be delivered: the turn ends, cancelled.
    pub fn on_listener_gone(&mut self)
        ensures
            final(self).done,
            final(self).cancelled,
    {
        self.done = true;
        self.cancelled = true;
    }

    /// The event that closes the turn.
    pub fn finish(&self) -> (ev: AgentEvent)
        ensures
            ev == (AgentEvent::Finished { reason: if self.cancelled {
                FinishReason::Cancelled
            } else {
                FinishReason::Stop
            } }),
    {
        AgentEvent::Finished { reason: finish_reason(self.cancelled) }
    }
}

} // verus!
