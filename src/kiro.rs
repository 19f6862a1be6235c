//! The Kiro executor: its command lines for a new and a resumed session, the
//! plans that a process spawner carries out, and its two log channels.
use vstd::prelude::*;

use crate::command::{apply_overrides, strs, CmdOverrides, CommandBuilder, CommandParts};
use crate::logs::{initial, push_text, NormalizedEntryType, PlainTextLogProcessor};

verus! {

/// The executable that is run unless overridden.
pub const KIRO_EXECUTABLE: &'static str = "kiro-cli";

/// The subdirectory of a task's working directory in which every session of
/// the task runs, so that a resumed session finds the state of earlier ones.
pub const SESSION_DIR: &'static str = ".kiro-sessions";

/// The flag that makes the tool continue its most recent session.
pub const RESUME_FLAG: &'static str = "--resume";

/// The quiescence window of both output channels, in milliseconds.
pub const TIME_GAP_MS: u64 = 2000;

/// The parameters every invocation carries: the chat subcommand and the
/// non-interactive, trust-all-tools flags.
pub open spec fn fixed_params() -> Seq<Seq<char>> {
    seq!["chat"@, "--no-interactive"@, "--trust-all-tools"@]
}

/// The model selection flags, when a model is configured.
pub open spec fn model_params(model: Option<String>) -> Seq<Seq<char>> {
    match model {
        Some(m) => seq!["--model"@, m@],
        None => Seq::empty(),
    }
}

/// Text appended to every prompt, if any.
pub struct AppendPrompt(pub Option<String>);

impl AppendPrompt {
    /// The prompt followed by the appended text.
    pub fn combine_prompt(&self, prompt: &str) -> (r: String)
        ensures
            r@ == prompt@ + match self.0 {
                Some(a) => a@,
                None => Seq::empty(),
            },
    {
        let mut r = prompt.to_owned();
        match &self.0 {
            Some(a) => {
                push_text(&mut r, a.as_str());
            },
            None => {
                assert(r@ =~= prompt@ + Seq::<char>::empty());
            },
        }
        r
    }
}

/// Which standard stream of the child a log channel reads.
#[derive(PartialEq, Eq, Structural, Clone, Copy, Debug)]
pub enum OutputChannel {
    Stdout,
    Stderr,
}

/// Whether the executable can be found on this system.
#[derive(PartialEq, Eq, Structural, Clone, Copy, Debug)]
pub enum AvailabilityInfo {
    InstallationFound,
    NotFound,
}

/// What a spawner does to start one invocation: run `command` in the
/// subdirectory `session_dir` of the task's directory, creating it if
/// absent, and write `stdin_text` to standard input before closing it.
pub struct SpawnPlan {
    pub command: CommandParts,
    pub session_dir: String,
    pub stdin_text: String,
}

/// The Kiro executor's configuration.
pub struct Kiro {
    pub append_prompt: AppendPrompt,
    pub model: Option<String>,
    pub cmd: CmdOverrides,
}

impl Kiro {
    /// The executable: the override if there is one, else `kiro-cli`.
    pub open spec fn program(&self) -> Seq<char> {
        match self.cmd.base_command_override {
            Some(b) => b@,
            None => KIRO_EXECUTABLE@,
        }
    }

    /// The parameters of a new session: the fixed ones, the model flags, then
    /// the user's additional parameters.
    pub open spec fn initial_args(&self) -> Seq<Seq<char>> {
        fixed_params() + model_params(self.model) + self.cmd.extra()
    }

    /// The parameters of a resumed session: those of a new one, then the
    /// resume flag.
    pub open spec fn follow_up_args(&self) -> Seq<Seq<char>> {
        self.initial_args().push(RESUME_FLAG@)
    }

    pub open spec fn stdin_spec(&self, prompt: Seq<char>) -> Seq<char> {
        prompt + match self.append_prompt.0 {
            Some(a) => a@,
            None => Seq::empty(),
        }
    }

    /// A configuration with no model, no appended text and no overrides.
    pub fn new() -> (r: Kiro)
        ensures
            r.append_prompt.0.is_none(),
            r.model.is_none(),
            r.cmd.base_command_override.is_none(),
            r.cmd.additional_params.is_none(),
    {
        Kiro { append_prompt: AppendPrompt(None), model: None, cmd: CmdOverrides::none() }
    }

    /// The builder for this configuration, overrides applied.
    pub fn build_command_builder(&self) -> (r: CommandBuilder)
        ensures
            r.base@ == self.program(),
            strs(r.params@) == self.initial_args(),
    {
        let mut fixed: Vec<String> = Vec::new();
        fixed.push("chat".to_owned());
        fixed.push("--no-interactive".to_owned());
        fixed.push("--trust-all-tools".to_owned());
        let mut builder = CommandBuilder::new(KIRO_EXECUTABLE).extend_params(fixed);
        assert(strs(builder.params@) =~= fixed_params());
        match &self.model {
            Some(model) => {
                let mut flags: Vec<String> = Vec::new();
                flags.push("--model".to_owned());
                flags.push(model.clone());
                builder = builder.extend_params(flags);
                assert(strs(flags@) =~= model_params(self.model));
            },
            None => {
                assert(strs(builder.params@) =~= fixed_params() + model_params(self.model));
            },
        }
        apply_overrides(builder, &self.cmd)
    }

    /// How to start a new session for `prompt`.
    pub fn spawn_plan(&self, prompt: &str) -> (r: SpawnPlan)
        ensures
            r.command.program@ == self.program(),
            strs(r.command.args@) == self.initial_args(),
            r.session_dir@ == SESSION_DIR@,
            r.stdin_text@ == self.stdin_spec(prompt@),
    {
        let command = self.build_command_builder().build_initial();
        let stdin_text = self.append_prompt.combine_prompt(prompt);
        SpawnPlan { command, session_dir: SESSION_DIR.to_owned(), stdin_text }
    }

    /// How to resume the tool's most recent session with `prompt`: the same
    /// session directory, and the resume flag after every other parameter.
    pub fn spawn_follow_up_plan(&self, prompt: &str) -> (r: SpawnPlan)
        ensures
            r.command.program@ == self.program(),
            strs(r.command.args@) == self.follow_up_args(),
            r.session_dir@ == SESSION_DIR@,
            r.stdin_text@ == self.stdin_spec(prompt@),
    {
        let mut extra: Vec<String> = Vec::new();
        extra.push(RESUME_FLAG.to_owned());
        let command = self.build_command_builder().build_follow_up(&extra);
        assert(strs(extra@) =~= seq![RESUME_FLAG@]);
        let stdin_text = self.append_prompt.combine_prompt(prompt);
        SpawnPlan { command, session_dir: SESSION_DIR.to_owned(), stdin_text }
    }

    /// The processor of one output channel: standard output yields assistant
    /// messages, standard error system messages, both with a two-second window.
    pub fn log_processor(&self, channel: OutputChannel) -> (r: PlainTextLogProcessor)
        ensures
            r.entry_type == match channel {
                OutputChannel::Stdout => NormalizedEntryType::AssistantMessage,
                OutputChannel::Stderr => NormalizedEntryType::SystemMessage,
            },
            r.time_gap_ms == TIME_GAP_MS,
            r.state() == initial(),
    {
        let kind = match channel {
            OutputChannel::Stdout => NormalizedEntryType::AssistantMessage,
            OutputChannel::Stderr => NormalizedEntryType::SystemMessage,
        };
        PlainTextLogProcessor::new(kind, TIME_GAP_MS)
    }

    /// The availability of the executable, given whether a search of the
    /// system path found it.
    pub fn availability_from_probe(found: bool) -> (r: AvailabilityInfo)
        ensures
            found ==> r == AvailabilityInfo::InstallationFound,
            !found ==> r == AvailabilityInfo::NotFound,
    {
        if found {
            AvailabilityInfo::InstallationFound
        } else {
            AvailabilityInfo::NotFound
        }
    }
}

/// A resumed invocation carries the resume flag and every fixed parameter of
/// the base command.
pub proof fn lemma_follow_up_keeps_flags(k: Kiro)
    ensures
        k.follow_up_args().contains(RESUME_FLAG@),
        forall|i: int| 0 <= i < fixed_params().len() ==> k.follow_up_args().contains(#[trigger] fixed_params()[i]),
        k.follow_up_args().subrange(0, 3) == fixed_params(),
{
    let a = k.follow_up_args();
    assert(a[a.len() - 1] == RESUME_FLAG@);
    assert forall|i: int| 0 <= i < fixed_params().len() implies a.contains(#[trigger] fixed_params()[i]) by {
        assert(a[i] == fixed_params()[i]);
    }
    assert(a.subrange(0, 3) =~= fixed_params());
}

} // verus!
