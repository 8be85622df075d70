use vstd::prelude::*;

verus! {

/// Why an invocation was stopped before reaching the command.
#[derive(Debug, Clone, PartialEq, Eq)]
pub enum SimError {
    /// The arguments or the configuration file could not be read.
    Config,
    /// The configuration names no admin group.
    NoAdminGroup,
    /// A group or user could not be looked up.
    Lookup,
    /// The invoker is not a member of the admin group.
    NotAdmin { user: String },
    /// The command matches a deny entry.
    Denied,
    /// The configuration names no approver group.
    NoApproveGroup,
    /// The configuration names no socket directory.
    NoSockDir,
    /// A change of user or group ids failed.
    CredentialChange,
    /// The rendezvous socket could not be set up.
    SocketSetup,
    /// Host name, user name or working directory could not be found.
    RequestInfo,
    /// Waiting for a connection failed.
    Accept,
    /// The command could not be executed.
    Exec,
    /// The caller reported something the current step does not expect.
    UnexpectedEvent,
}

} // verus!
