//! Multi-party authorization for privileged command execution.
//!
//! The library holds the decisions of a setuid wrapper that runs a command as
//! root only after a second person has approved it: the command policy, the
//! wire format spoken with the approver agent, the per-connection handshake
//! verdicts, and the state machine that orders every credential change.
//! The process-level work (system calls, sockets, files) is left to the
//! caller, which performs the actions the state machine hands out.
pub mod config;
pub mod error;
pub mod handshake;
pub mod messages;
pub mod orchestrator;
pub mod policy;
pub mod rendezvous;
pub mod request;
pub mod wire;
