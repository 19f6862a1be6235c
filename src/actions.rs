//! Executor actions and their chains, and the composition of a setup action
//! ahead of work scheduled before it.
use vstd::prelude::*;

use crate::command::ExecutorError;

verus! {

/// The interpreter of a script.
#[derive(PartialEq, Eq, Structural, Clone, Copy, Debug)]
pub enum ScriptRequestLanguage {
    Bash,
}

/// Why a script runs.
#[derive(PartialEq, Eq, Structural, Clone, Copy, Debug)]
pub enum ScriptContext {
    SetupScript,
    CleanupScript,
    DevServer,
    ToolInstallScript,
}

/// A script to run.
pub struct ScriptRequest {
    pub script: String,
    pub language: ScriptRequestLanguage,
    pub context: ScriptContext,
    pub working_dir: Option<String>,
}

/// A prompt for a coding agent.
pub struct CodingAgentRequest {
    pub prompt: String,
    pub executor: String,
}

/// What one step of an action chain does.
pub enum ExecutorActionType {
    ScriptRequest(ScriptRequest),
    CodingAgentRequest(CodingAgentRequest),
}

/// One step, and the step that runs after it, if any.
pub struct ExecutorAction {
    pub typ: ExecutorActionType,
    pub next_action: Option<Box<ExecutorAction>>,
}

/// The script that installs the Kiro CLI when it is absent; running it again
/// changes nothing.
pub const INSTALL_SCRIPT: &'static str = "#!/bin/bash
set -e
echo \"Installing Kiro CLI...\"
if ! command -v kiro-cli &> /dev/null; then
    curl -fsSL https://cli.kiro.dev/install | bash
    echo \"Kiro CLI installed successfully\"
else
    echo \"Kiro CLI already installed\"
fi
echo \"Note: Please run 'kiro-cli login' manually to authenticate\"
";

impl ExecutorAction {
    /// The steps of the chain that starts here, in the order they run.
    pub open spec fn chain(&self) -> Seq<ExecutorActionType>
        decreases self,
    {
        match &self.next_action {
            Some(n) => seq![self.typ].add(n.chain()),
            None => seq![self.typ],
        }
    }

    pub fn new(typ: ExecutorActionType, next_action: Option<Box<ExecutorAction>>) -> (r: ExecutorAction)
        ensures
            r.typ == typ,
            r.next_action == next_action,
    {
        ExecutorAction { typ, next_action }
    }

    /// This chain, then the chain of `action`, both unchanged.
    pub fn append_action(self, action: ExecutorAction) -> (r: ExecutorAction)
        ensures
            r.chain() == self.chain() + action.chain(),
        decreases self,
    {
        let ExecutorAction { typ, next_action } = self;
        match next_action {
            Some(n) => {
                let rest = (*n).append_action(action);
                let r = ExecutorAction { typ, next_action: Some(Box::new(rest)) };
                assert(r.chain() =~= seq![typ] + n.chain() + action.chain());
                r
            },
            None => ExecutorAction { typ, next_action: Some(Box::new(action)) },
        }
    }
}

/// The install step: the install script, run by bash as a tool install,
/// with no working directory of its own.
pub open spec fn is_install_step(t: ExecutorActionType) -> bool {
    match t {
        ExecutorActionType::ScriptRequest(s) => {
            &&& s.script@ == INSTALL_SCRIPT@
            &&& s.language == ScriptRequestLanguage::Bash
            &&& s.context == ScriptContext::ToolInstallScript
            &&& s.working_dir.is_none()
        },
        _ => false,
    }
}

/// The steps scheduled before setup, if any.
pub open spec fn prior_chain(prior: Option<ExecutorAction>) -> Seq<ExecutorActionType> {
    match prior {
        Some(p) => p.chain(),
        None => Seq::empty(),
    }
}

/// `a` is setup composed over `prior`: the install step first, then the prior
/// steps unchanged and in their order.
pub open spec fn is_setup_over(a: ExecutorAction, prior: Option<ExecutorAction>) -> bool {
    &&& is_install_step(a.chain()[0])
    &&& a.chain().drop_first() == prior_chain(prior)
}

/// The setup action on its own: the install step, on platforms that have
/// bash scripts (`unix`), and an unsupported-platform error elsewhere.
pub fn get_setup_helper_action(unix: bool) -> (r: Result<ExecutorAction, ExecutorError>)
    ensures
        unix <==> r.is_ok(),
        r matches Err(e) ==> e is UnsupportedPlatform,
        r matches Ok(a) ==> is_setup_over(a, None),
{
    if !unix {
        return Err(ExecutorError::UnsupportedPlatform);
    }
    let install_request = ScriptRequest {
        script: INSTALL_SCRIPT.to_owned(),
        language: ScriptRequestLanguage::Bash,
        context: ScriptContext::ToolInstallScript,
        working_dir: None,
    };
    let a = ExecutorAction::new(ExecutorActionType::ScriptRequest(install_request), None);
    assert(a.chain().drop_first() =~= prior_chain(None));
    Ok(a)
}

/// The setup action followed by the most recent prior action, if there is
/// one; an unsupported-platform error where setup is unavailable.
pub fn compose_setup(prior: Option<ExecutorAction>, unix: bool) -> (r: Result<ExecutorAction, ExecutorError>)
    ensures
        unix <==> r.is_ok(),
        r matches Err(e) ==> e is UnsupportedPlatform,
        r matches Ok(a) ==> is_setup_over(a, prior),
{
    let setup = get_setup_helper_action(unix);
    match setup {
        Err(e) => Err(e),
        Ok(s) => match prior {
            Some(p) => {
                let ghost pc = p.chain();
                let a = s.append_action(p);
                assert(a.chain().drop_first() =~= pc);
                Ok(a)
            },
            None => Ok(s),
        },
    }
}

/// Composing setup twice, the second time over the first result, keeps every
/// earlier step: two install steps, the newer first, then the prior steps in
/// their order; with no prior steps the chain ends in the first install step.
pub proof fn lemma_compose_twice(
    prior: Option<ExecutorAction>,
    first: ExecutorAction,
    second: ExecutorAction,
)
    requires
        is_setup_over(first, prior),
        is_setup_over(second, Some(first)),
    ensures
        second.chain().len() == prior_chain(prior).len() + 2,
        is_install_step(second.chain()[0]),
        second.chain()[1] == first.chain()[0],
        second.chain().subrange(2, second.chain().len() as int) == prior_chain(prior),
        prior is None ==> second.chain().last() == first.chain()[0],
{
    lemma_chain_nonempty(first);
    lemma_chain_nonempty(second);
    assert(second.chain().subrange(2, second.chain().len() as int) =~= first.chain().drop_first());
}

pub proof fn lemma_chain_nonempty(a: ExecutorAction)
    ensures
        a.chain().len() >= 1,
        a.chain()[0] == a.typ,
{
    match &a.next_action {
        Some(n) => {
            assert(a.chain() == seq![a.typ] + n.chain());
        },
        None => {},
    }
}

} // verus!
