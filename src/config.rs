use vstd::prelude::*;

verus! {

/// A policy entry: the program names it applies to.
///
/// Matching is by program name only; the arguments of an invocation are
/// handed to the matcher but do not take part in the decision yet.
#[derive(Debug, Clone)]
pub struct CommandDefinition {
    pub command: Vec<String>,
}

/// The fields of the configuration file that the wrapper reads.
#[derive(Debug, Clone)]
pub struct SimConfig {
    pub admin_group: Option<String>,
    pub approve_group: Option<String>,
    pub sock_dir: Option<String>,
    pub safe_command: Vec<CommandDefinition>,
    pub deny_command: Vec<CommandDefinition>,
}

/// What the invoker asked to run: a program name and its arguments.
#[derive(Debug, Clone)]
pub struct Invocation {
    pub command: String,
    pub args: Vec<String>,
}

impl CommandDefinition {
    /// The definition lists the program name `cmd`.
    pub open spec fn lists(&self, cmd: Seq<char>) -> bool {
        exists|i: int| 0 <= i < self.command@.len() && #[trigger] self.command@[i]@ == cmd
    }
}

/// Some definition among `defs` lists the program name `cmd`.
pub open spec fn any_lists(defs: Seq<CommandDefinition>, cmd: Seq<char>) -> bool {
    exists|i: int| 0 <= i < defs.len() && #[trigger] defs[i].lists(cmd)
}

impl SimConfig {
    /// The invocation matches a deny entry.
    pub open spec fn denies(&self, inv: &Invocation) -> bool {
        any_lists(self.deny_command@, inv.command@)
    }

    /// The invocation matches a safe entry.
    pub open spec fn deems_safe(&self, inv: &Invocation) -> bool {
        any_lists(self.safe_command@, inv.command@)
    }
}

} // verus!
