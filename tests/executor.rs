use kiro_executor::actions::{
    compose_setup, get_setup_helper_action, CodingAgentRequest, ExecutorAction, ExecutorActionType,
    ScriptContext, ScriptRequestLanguage, INSTALL_SCRIPT,
};
use kiro_executor::command::{apply_overrides, CmdOverrides, CommandBuilder, ExecutorError};
use kiro_executor::kiro::{AppendPrompt, AvailabilityInfo, Kiro, OutputChannel, SESSION_DIR};
use kiro_executor::logs::NormalizedEntryType;

fn strings(v: &[&str]) -> Vec<String> {
    v.iter().map(|s| s.to_string()).collect()
}

fn agent(prompt: &str) -> ExecutorAction {
    ExecutorAction::new(
        ExecutorActionType::CodingAgentRequest(CodingAgentRequest {
            prompt: prompt.to_string(),
            executor: "kiro".to_string(),
        }),
        None,
    )
}

fn describe(a: &ExecutorAction) -> Vec<String> {
    let mut out = Vec::new();
    let mut cur = Some(a);
    while let Some(step) = cur {
        out.push(match &step.typ {
            ExecutorActionType::ScriptRequest(s) => format!("script:{:?}", s.context),
            ExecutorActionType::CodingAgentRequest(c) => format!("agent:{}", c.prompt),
        });
        cur = step.next_action.as_deref();
    }
    out
}

#[test]
fn initial_command_has_fixed_flags() {
    let k = Kiro::new();
    let plan = k.spawn_plan("hello");
    assert_eq!(plan.command.program, "kiro-cli");
    assert_eq!(plan.command.args, strings(&["chat", "--no-interactive", "--trust-all-tools"]));
    assert_eq!(plan.session_dir, SESSION_DIR);
    assert_eq!(plan.stdin_text, "hello");
}

#[test]
fn follow_up_command_adds_resume_last() {
    let mut k = Kiro::new();
    k.model = Some("fast-model".to_string());
    k.cmd.additional_params = Some(strings(&["--verbose"]));
    let plan = k.spawn_follow_up_plan("again");
    assert_eq!(
        plan.command.args,
        strings(&["chat", "--no-interactive", "--trust-all-tools", "--model", "fast-model", "--verbose", "--resume"])
    );
    assert_eq!(plan.session_dir, ".kiro-sessions");
}

#[test]
fn overrides_replace_executable_and_append_params() {
    let mut k = Kiro::new();
    k.cmd = CmdOverrides {
        base_command_override: Some("/opt/kiro/bin/kiro-cli".to_string()),
        additional_params: Some(strings(&["-a", "-b"])),
    };
    let b = k.build_command_builder();
    assert_eq!(b.base, "/opt/kiro/bin/kiro-cli");
    assert_eq!(b.params, strings(&["chat", "--no-interactive", "--trust-all-tools", "-a", "-b"]));
}

#[test]
fn builder_keeps_order_and_repeats() {
    let b = CommandBuilder::new("tool")
        .extend_params(strings(&["-x", "-y"]))
        .extend_params(strings(&["-x"]));
    assert_eq!(b.params, strings(&["-x", "-y", "-x"]));
    let parts = b.build_follow_up(&strings(&["--resume"]));
    assert_eq!(parts.args, strings(&["-x", "-y", "-x", "--resume"]));
    let b = apply_overrides(b, &CmdOverrides::none());
    assert_eq!(b.build_initial().args, strings(&["-x", "-y", "-x"]));
    assert_eq!(b.build_initial().program, "tool");
}

#[test]
fn missing_executable_is_an_error() {
    let parts = Kiro::new().spawn_plan("p").command;
    match parts.into_resolved(None) {
        Err(ExecutorError::ExecutableNotFound(p)) => assert_eq!(p, "kiro-cli"),
        _ => panic!("expected a resolution error"),
    }
    let parts = Kiro::new().spawn_plan("p").command;
    let r = parts.into_resolved(Some("/usr/bin/kiro-cli".to_string())).ok().unwrap();
    assert_eq!(r.executable_path, "/usr/bin/kiro-cli");
    assert_eq!(r.args.len(), 3);
}

#[test]
fn appended_prompt_follows_prompt() {
    let ap = AppendPrompt(Some(" Be brief.".to_string()));
    assert_eq!(ap.combine_prompt("Fix the bug."), "Fix the bug. Be brief.");
    assert_eq!(AppendPrompt(None).combine_prompt("x"), "x");
}

#[test]
fn channels_map_to_entry_types() {
    let k = Kiro::new();
    let out = k.log_processor(OutputChannel::Stdout);
    let err = k.log_processor(OutputChannel::Stderr);
    assert_eq!(out.entry_type, NormalizedEntryType::AssistantMessage);
    assert_eq!(err.entry_type, NormalizedEntryType::SystemMessage);
    assert_eq!(out.time_gap_ms, 2000);
    assert!(out.pending.is_empty());
}

#[test]
fn missing_executable_reports_not_found() {
    assert_eq!(Kiro::availability_from_probe(false), AvailabilityInfo::NotFound);
    assert_eq!(Kiro::availability_from_probe(true), AvailabilityInfo::InstallationFound);
}

#[test]
fn setup_stands_alone_without_prior() {
    let a = compose_setup(None, true).ok().unwrap();
    assert!(a.next_action.is_none());
    match &a.typ {
        ExecutorActionType::ScriptRequest(s) => {
            assert_eq!(s.script, INSTALL_SCRIPT);
            assert_eq!(s.language, ScriptRequestLanguage::Bash);
            assert_eq!(s.context, ScriptContext::ToolInstallScript);
            assert!(s.working_dir.is_none());
            assert!(s.script.contains("command -v kiro-cli"));
        }
        _ => panic!("expected a script"),
    }
}

#[test]
fn setup_runs_before_prior_chain() {
    let prior = agent("one").append_action(agent("two"));
    let a = compose_setup(Some(prior), true).ok().unwrap();
    assert_eq!(describe(&a), strings(&["script:ToolInstallScript", "agent:one", "agent:two"]));
}

#[test]
fn setup_composed_twice_ends_in_first() {
    let first = compose_setup(None, true).ok().unwrap();
    let second = compose_setup(Some(first), true).ok().unwrap();
    assert_eq!(describe(&second), strings(&["script:ToolInstallScript", "script:ToolInstallScript"]));
    let third = compose_setup(Some(second), true).ok().unwrap();
    assert_eq!(describe(&third).len(), 3);
}

#[test]
fn setup_unsupported_platform() {
    assert!(matches!(get_setup_helper_action(false), Err(ExecutorError::UnsupportedPlatform)));
    assert!(matches!(compose_setup(Some(agent("x")), false), Err(ExecutorError::UnsupportedPlatform)));
}
