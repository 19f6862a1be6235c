//! Assembling an executable and its argument list from a base command, static
//! flags, follow-up flags and user overrides.
use vstd::prelude::*;

verus! {

/// The views of a sequence of strings.
pub open spec fn strs(v: Seq<String>) -> Seq<Seq<char>> {
    v.map_values(|s: String| s@)
}

/// User-supplied changes to the command line of an executor.
pub struct CmdOverrides {
    /// Replaces the executable when present.
    pub base_command_override: Option<String>,
    /// Appended after every other parameter when present.
    pub additional_params: Option<Vec<String>>,
}

impl CmdOverrides {
    pub open spec fn extra(&self) -> Seq<Seq<char>> {
        match self.additional_params {
            Some(p) => strs(p@),
            None => Seq::empty(),
        }
    }

    /// No overrides at all.
    pub fn none() -> (r: CmdOverrides)
        ensures
            r.base_command_override.is_none(),
            r.additional_params.is_none(),
    {
        CmdOverrides { base_command_override: None, additional_params: None }
    }
}

/// An executable together with the parameters that always follow it.
pub struct CommandBuilder {
    pub base: String,
    pub params: Vec<String>,
}

/// What a builder yields: the program to run and its arguments, in order.
pub struct CommandParts {
    pub program: String,
    pub args: Vec<String>,
}

/// A command whose executable was located on this system.
pub struct ResolvedCommand {
    pub executable_path: String,
    pub args: Vec<String>,
}

/// Why an executor could not be started or prepared.
#[derive(Debug)]
pub enum ExecutorError {
    /// The named executable could not be located.
    ExecutableNotFound(String),
    /// The operating system refused to start the process.
    SpawnError(String),
    /// Writing or closing the prompt on standard input failed.
    StdinError(String),
    /// The requested setup is not available on this platform.
    UnsupportedPlatform,
}

/// Moves every string of `extra` to the end of `v`, in order.
fn append_strings(v: &mut Vec<String>, extra: &Vec<String>)
    ensures
        strs(final(v)@) == strs(old(v)@) + strs(extra@),
{
    let ghost start = v@;
    let mut i: usize = 0;
    while i < extra.len()
        invariant
            i <= extra@.len(),
            strs(v@) == strs(start) + strs(extra@.subrange(0, i as int)),
        decreases extra@.len() - i,
    {
        let ghost before = v@;
        let s = extra[i].clone();
        v.push(s);
        assert(v@ == before.push(s));
        assert(strs(v@) =~= strs(before).push(extra@[i as int]@));
        assert(extra@.subrange(0, i + 1) =~= extra@.subrange(0, i as int).push(extra@[i as int]));
        assert(strs(extra@.subrange(0, i + 1)) =~= strs(extra@.subrange(0, i as int)).push(
            extra@[i as int]@,
        ));
        i = i + 1;
        assert(strs(v@) =~= strs(start) + strs(extra@.subrange(0, i as int)));
    }
    assert(extra@.subrange(0, extra@.len() as int) =~= extra@);
}

impl CommandBuilder {
    /// A builder for `base` with no parameters yet.
    pub fn new(base: &str) -> (r: CommandBuilder)
        ensures
            r.base@ == base@,
            r.params@.len() == 0,
    {
        CommandBuilder { base: base.to_owned(), params: Vec::new() }
    }

    /// Appends `flags` after the current parameters, keeping their order and
    /// any repeats.
    pub fn extend_params(self, flags: Vec<String>) -> (r: CommandBuilder)
        ensures
            r.base@ == self.base@,
            strs(r.params@) == strs(self.params@) + strs(flags@),
    {
        let mut b = self;
        append_strings(&mut b.params, &flags);
        b
    }

    /// The command as first invoked: the base and its parameters.
    pub fn build_initial(&self) -> (r: CommandParts)
        ensures
            r.program@ == self.base@,
            strs(r.args@) == strs(self.params@),
    {
        let mut args: Vec<String> = Vec::new();
        append_strings(&mut args, &self.params);
        CommandParts { program: self.base.clone(), args }
    }

    /// The command of a follow-up invocation: the base, its parameters, then
    /// `extra` (a resume flag, say).
    pub fn build_follow_up(&self, extra: &Vec<String>) -> (r: CommandParts)
        ensures
            r.program@ == self.base@,
            strs(r.args@) == strs(self.params@) + strs(extra@),
    {
        let mut args: Vec<String> = Vec::new();
        append_strings(&mut args, &self.params);
        append_strings(&mut args, extra);
        CommandParts { program: self.base.clone(), args }
    }
}

/// The builder with `overrides` applied: the executable replaced when an
/// override names one, and the additional parameters appended.
pub fn apply_overrides(builder: CommandBuilder, overrides: &CmdOverrides) -> (r: CommandBuilder)
    ensures
        r.base@ == match overrides.base_command_override {
            Some(b) => b@,
            None => builder.base@,
        },
        strs(r.params@) == strs(builder.params@) + overrides.extra(),
{
    let mut b = builder;
    match &overrides.base_command_override {
        Some(base) => {
            b.base = base.clone();
        },
        None => {},
    }
    match &overrides.additional_params {
        Some(extra) => {
            append_strings(&mut b.params, extra);
        },
        None => {
            assert(strs(b.params@) =~= strs(b.params@) + overrides.extra());
        },
    }
    b
}

impl CommandParts {
    /// Resolution against what a search for the program found: the located
    /// path with the same arguments, or an error naming the program.
    pub fn into_resolved(self, located: Option<String>) -> (r: Result<ResolvedCommand, ExecutorError>)
        ensures
            located.is_none() <==> r.is_err(),
            r matches Err(e) ==> (e matches ExecutorError::ExecutableNotFound(p) && p@ == self.program@),
            r matches Ok(c) ==> (located matches Some(path) && c.executable_path@ == path@
                && strs(c.args@) == strs(self.args@)),
    {
        match located {
            Some(path) => Ok(ResolvedCommand { executable_path: path, args: self.args }),
            None => Err(ExecutorError::ExecutableNotFound(self.program)),
        }
    }
}

} // verus!
