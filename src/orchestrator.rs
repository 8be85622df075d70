//! The sequence of one invocation, as a state machine.
//!
//! The machine decides; its caller acts. Each call of [`Orchestrator::next`]
//! takes what came of the last action and hands out the next one. The
//! machine keeps its own record of the credentials that the completed
//! actions have set, and its contracts state, over that record, the order
//! of credential changes, when a rendezvous socket may be made, when the
//! request may be sent, and what holds when the command is finally run.
use vstd::prelude::*;

use crate::config::{Invocation, SimConfig};
use crate::error::SimError;
use crate::handshake::{
    check_peer, check_write, interpret_reply, peer_outcome, reply_outcome, HandshakeError,
    HandshakeErrorView, MAX_REPLY_SIZE,
};
use crate::messages::{all_chars, encode_request, request_bytes};
use crate::policy::{check_admin, check_deny, check_safe};
use crate::rendezvous::{
    is_token, new_rendezvous, socket_path, LISTEN_BACKLOG, SOCKET_MODE, SOCKET_OWNER,
};
use crate::request::{argv, make_approve_request, request_for};
use crate::wire::push_bytes;

verus! {

/// What came of the last action.
pub enum Event {
    /// The action succeeded.
    Done,
    /// The action failed.
    Failed,
    /// The arguments were parsed and the configuration was read.
    Loaded { inv: Invocation, config: SimConfig },
    /// The admin group's id, the invoker's groups and the invoker's name.
    AdminInfo { admin_gid: u32, groups: Vec<u32>, user: String },
    /// The approver group's id.
    GroupResolved { gid: u32 },
    /// The host name, the invoker's name and the working directory.
    RequestInfo { host: String, user: String, cwd: String },
    /// A connection came in, from a peer with these kernel-reported ids;
    /// `groups` lists every group of the peer's user.
    Connected { uid: u32, gid: u32, groups: Vec<u32> },
    /// A connection came in whose peer could not be identified.
    PeerUnknown,
    /// This many bytes of the request went out.
    Sent { written: usize },
    /// The approver's reply, at most [`MAX_REPLY_SIZE`] bytes of it.
    Reply { bytes: Vec<u8> },
}

/// What the caller is to do next.
#[derive(Debug, PartialEq, Eq)]
pub enum Action {
    /// Set the effective user id.
    SetEuid { uid: u32 },
    /// Parse the arguments and read the configuration file.
    LoadConfig,
    /// Look up the admin group's id, the invoker's groups and name.
    LookupAdmin { group: String },
    /// Look up the approver group's id.
    LookupGroup { group: String },
    /// Bind a sequenced-packet socket at `path`, give it to `owner:group`
    /// and set its permission bits to `mode`.
    CreateSocket { path: String, owner: u32, group: u32, mode: u32 },
    /// Start listening on the socket.
    Listen { backlog: i32 },
    /// Find the host name, the invoker's name and the working directory.
    GatherRequestInfo,
    /// Wait for the next connection and identify its peer.
    Accept,
    /// Send these bytes to the peer in one packet.
    Send { bytes: Vec<u8> },
    /// Read one reply of at most `max` bytes.
    Receive { max: usize },
    /// Close the connection, reporting why it did not approve.
    Reject { reason: HandshakeError },
    /// Report that the request was approved.
    Approved,
    /// Set real, effective and saved user ids to `uid`.
    SetResUid { uid: u32 },
    /// Set real, effective and saved group ids to `gid`.
    SetResGid { gid: u32 },
    /// Drop every supplementary group.
    ClearGroups,
    /// Remove every environment variable.
    ClearEnv,
    /// Replace the process with `command`, run with `argv` and an empty
    /// environment, found through the search path.
    Exec { command: String, argv: Vec<String> },
    /// Stop with this error.
    Abort { error: SimError },
}

/// Where the machine stands.
#[derive(Debug, Clone, Copy, PartialEq, Eq, Structural)]
pub enum Phase {
    Lowering,
    Loading,
    CheckingAdmin,
    ResolvingApprovers,
    EnteringBracket,
    CreatingSocket,
    LeavingBracket,
    Unwinding,
    Gathering,
    Listening,
    Accepting,
    Sending,
    Receiving,
    Rejecting,
    Announcing,
    SettingUids,
    SettingGids,
    ClearingGroups,
    ClearingEnv,
    Executing,
    Stopped,
}

/// The elevation to root has begun: from here on the effective user id
/// follows the final credential changes.
pub open spec fn is_elevating(p: Phase) -> bool {
    p == Phase::SettingUids || p == Phase::SettingGids || p == Phase::ClearingGroups || p
        == Phase::ClearingEnv || p == Phase::Executing
}

/// The invocation is not loaded yet.
pub open spec fn is_loading(p: Phase) -> bool {
    p == Phase::Lowering || p == Phase::Loading
}

/// No socket has been asked for yet.
pub open spec fn is_before_socket(p: Phase) -> bool {
    is_loading(p) || p == Phase::CheckingAdmin || p == Phase::ResolvingApprovers || p
        == Phase::EnteringBracket
}

/// The socket has been asked for, and no elevation has begun.
pub open spec fn is_waiting(p: Phase) -> bool {
    p == Phase::CreatingSocket || p == Phase::LeavingBracket || p == Phase::Unwinding || p
        == Phase::Gathering || p == Phase::Listening || p == Phase::Accepting || p
        == Phase::Sending || p == Phase::Receiving || p == Phase::Rejecting || p
        == Phase::Announcing
}

/// Inside the bracket that raises the effective user id.
pub open spec fn is_bracket(p: Phase) -> bool {
    p == Phase::CreatingSocket || p == Phase::LeavingBracket || p == Phase::Unwinding
}

/// An [`Action`] as a mathematical value.
pub enum ActionView {
    SetEuid { uid: u32 },
    LoadConfig,
    LookupAdmin { group: Seq<char> },
    LookupGroup { group: Seq<char> },
    CreateSocket { path: Seq<char>, owner: u32, group: u32, mode: u32 },
    Listen { backlog: i32 },
    GatherRequestInfo,
    Accept,
    Send { bytes: Seq<u8> },
    Receive { max: usize },
    Reject { reason: HandshakeErrorView },
    Approved,
    SetResUid { uid: u32 },
    SetResGid { gid: u32 },
    ClearGroups,
    ClearEnv,
    Exec { command: Seq<char>, argv: Seq<Seq<char>> },
    Abort { error: SimError },
}

impl View for Action {
    type V = ActionView;

    open spec fn view(&self) -> ActionView {
        match *self {
            Action::SetEuid { uid } => ActionView::SetEuid { uid },
            Action::LoadConfig => ActionView::LoadConfig,
            Action::LookupAdmin { group } => ActionView::LookupAdmin { group: group@ },
            Action::LookupGroup { group } => ActionView::LookupGroup { group: group@ },
            Action::CreateSocket { path, owner, group, mode } => ActionView::CreateSocket {
                path: path@,
                owner,
                group,
                mode,
            },
            Action::Listen { backlog } => ActionView::Listen { backlog },
            Action::GatherRequestInfo => ActionView::GatherRequestInfo,
            Action::Accept => ActionView::Accept,
            Action::Send { bytes } => ActionView::Send { bytes: bytes@ },
            Action::Receive { max } => ActionView::Receive { max },
            Action::Reject { reason } => ActionView::Reject { reason: reason@ },
            Action::Approved => ActionView::Approved,
            Action::SetResUid { uid } => ActionView::SetResUid { uid },
            Action::SetResGid { gid } => ActionView::SetResGid { gid },
            Action::ClearGroups => ActionView::ClearGroups,
            Action::ClearEnv => ActionView::ClearEnv,
            Action::Exec { command, argv } => ActionView::Exec {
                command: command@,
                argv: all_chars(argv@),
            },
            Action::Abort { error } => ActionView::Abort { error },
        }
    }
}

/// The machine's record of an invocation.
pub struct MachineView {
    pub phase: Phase,
    pub invoker_uid: u32,
    pub saved_euid: u32,
    /// The effective user id that the completed actions have set.
    pub euid: u32,
    /// Within the bracket that raises the effective user id to build the socket.
    pub in_bracket: bool,
    pub loaded: bool,
    pub inv: Invocation,
    pub config: SimConfig,
    /// The invoker is in the admin group and the command is not denied.
    pub admitted: bool,
    pub approver_gid: u32,
    /// The name of the rendezvous socket.
    pub token: Seq<char>,
    pub sock_path: Seq<char>,
    /// The encoded request.
    pub request: Seq<u8>,
    pub socket_requested: bool,
    /// The peer of the current connection passed the approver check.
    pub peer_verified: bool,
    pub approved: bool,
    pub uids_root: bool,
    pub gids_root: bool,
    pub groups_cleared: bool,
    pub env_cleared: bool,
}

impl MachineView {
    /// The loaded invocation matches a deny entry.
    pub open spec fn denied(&self) -> bool {
        self.config.denies(&self.inv)
    }

    /// The loaded invocation matches a safe entry.
    pub open spec fn safe(&self) -> bool {
        self.config.deems_safe(&self.inv)
    }

    /// The argument vector of the loaded invocation.
    pub open spec fn argv(&self) -> Seq<Seq<char>> {
        seq![self.inv.command@] + all_chars(self.inv.args@)
    }
}

/// Stops with `error`, leaving the rest of the record as it is.
pub open spec fn stop(m: MachineView, error: SimError) -> (MachineView, ActionView) {
    (MachineView { phase: Phase::Stopped, ..m }, ActionView::Abort { error })
}

/// Closes a connection that did not approve; the wait goes on.
pub open spec fn reject(m: MachineView, reason: HandshakeErrorView) -> (MachineView, ActionView) {
    (
        MachineView { phase: Phase::Rejecting, peer_verified: false, ..m },
        ActionView::Reject { reason },
    )
}

/// Lowering the effective user id to the invoker's, then loading.
pub open spec fn on_lowering(m: MachineView, e: Event) -> (MachineView, ActionView) {
    match e {
        Event::Done => (
            MachineView { euid: m.invoker_uid, phase: Phase::Loading, ..m },
            ActionView::LoadConfig,
        ),
        _ => stop(m, SimError::CredentialChange),
    }
}

/// Loading the arguments and configuration; an admin group is required.
pub open spec fn on_loading(m: MachineView, e: Event) -> (MachineView, ActionView) {
    match e {
        Event::Loaded { inv, config } => {
            let m1 = MachineView { inv, config, loaded: true, ..m };
            match config.admin_group {
                Some(g) => (
                    MachineView { phase: Phase::CheckingAdmin, ..m1 },
                    ActionView::LookupAdmin { group: g@ },
                ),
                None => stop(m1, SimError::NoAdminGroup),
            }
        },
        _ => stop(m, SimError::Config),
    }
}

/// The policy, in order: admin membership, the deny list, the safe list.
/// A safe invocation goes straight to elevation; any other needs a socket
/// directory and an approver group, and gets the fresh socket name `token`.
pub open spec fn on_checking_admin(m: MachineView, e: Event, token: Seq<char>) -> (
    MachineView,
    ActionView,
) {
    match e {
        Event::AdminInfo { admin_gid, groups, user } => {
            if !groups@.contains(admin_gid) {
                stop(m, SimError::NotAdmin { user })
            } else if m.denied() {
                stop(m, SimError::Denied)
            } else if m.safe() {
                (
                    MachineView { admitted: true, phase: Phase::SettingUids, ..m },
                    ActionView::SetResUid { uid: 0 },
                )
            } else if m.config.sock_dir is None {
                stop(MachineView { admitted: true, ..m }, SimError::NoSockDir)
            } else if m.config.approve_group is None {
                stop(MachineView { admitted: true, ..m }, SimError::NoApproveGroup)
            } else {
                (
                    MachineView {
                        admitted: true,
                        token,
                        sock_path: socket_path(m.config.sock_dir->Some_0@, token),
                        phase: Phase::ResolvingApprovers,
                        ..m
                    },
                    ActionView::LookupGroup { group: m.config.approve_group->Some_0@ },
                )
            }
        },
        _ => stop(m, SimError::Lookup),
    }
}

/// The approver group's id is kept; the bracket opens.
pub open spec fn on_resolving_approvers(m: MachineView, e: Event) -> (MachineView, ActionView) {
    match e {
        Event::GroupResolved { gid } => (
            MachineView { approver_gid: gid, phase: Phase::EnteringBracket, ..m },
            ActionView::SetEuid { uid: m.saved_euid },
        ),
        _ => stop(m, SimError::Lookup),
    }
}

/// Inside the bracket, the socket is made: owned by root and the approver
/// group, with mode 0660.
pub open spec fn on_entering_bracket(m: MachineView, e: Event) -> (MachineView, ActionView) {
    match e {
        Event::Done => (
            MachineView {
                euid: m.saved_euid,
                in_bracket: true,
                socket_requested: true,
                phase: Phase::CreatingSocket,
                ..m
            },
            ActionView::CreateSocket {
                path: m.sock_path,
                owner: SOCKET_OWNER,
                group: m.approver_gid,
                mode: SOCKET_MODE,
            },
        ),
        _ => stop(m, SimError::CredentialChange),
    }
}

/// Whatever comes of the socket, the bracket closes first.
pub open spec fn on_creating_socket(m: MachineView, e: Event) -> (MachineView, ActionView) {
    match e {
        Event::Done => (
            MachineView { phase: Phase::LeavingBracket, ..m },
            ActionView::SetEuid { uid: m.invoker_uid },
        ),
        _ => (
            MachineView { phase: Phase::Unwinding, ..m },
            ActionView::SetEuid { uid: m.invoker_uid },
        ),
    }
}

/// Out of the bracket, the request is prepared; a failed release is fatal.
pub open spec fn on_leaving_bracket(m: MachineView, e: Event) -> (MachineView, ActionView) {
    match e {
        Event::Done => (
            MachineView {
                euid: m.invoker_uid,
                in_bracket: false,
                phase: Phase::Gathering,
                ..m
            },
            ActionView::GatherRequestInfo,
        ),
        _ => stop(m, SimError::CredentialChange),
    }
}

/// The bracket closed after a failed socket: the invocation stops.
pub open spec fn on_unwinding(m: MachineView, e: Event) -> (MachineView, ActionView) {
    match e {
        Event::Done => stop(
            MachineView { euid: m.invoker_uid, in_bracket: false, ..m },
            SimError::SocketSetup,
        ),
        _ => stop(m, SimError::CredentialChange),
    }
}

/// The request is built from the invocation, the socket name and what
/// the process knows of itself, before listening begins.
pub open spec fn on_gathering(m: MachineView, e: Event) -> (MachineView, ActionView) {
    match e {
        Event::RequestInfo { host, user, cwd } => (
            MachineView {
                request: request_bytes(request_for(m.inv, m.token, host@, user@, cwd@)),
                phase: Phase::Listening,
                ..m
            },
            ActionView::Listen { backlog: LISTEN_BACKLOG },
        ),
        _ => stop(m, SimError::RequestInfo),
    }
}

/// Listening has begun: connections are awaited.
pub open spec fn on_listening(m: MachineView, e: Event) -> (MachineView, ActionView) {
    match e {
        Event::Done => (MachineView { phase: Phase::Accepting, ..m }, ActionView::Accept),
        _ => stop(m, SimError::SocketSetup),
    }
}

/// A connection: only a verified approver gets the request.
pub open spec fn on_accepting(m: MachineView, e: Event) -> (MachineView, ActionView) {
    match e {
        Event::Connected { uid, gid, groups } => match peer_outcome(
            m.approver_gid,
            m.invoker_uid,
            uid,
            gid,
            groups@,
        ) {
            None => (
                MachineView { peer_verified: true, phase: Phase::Sending, ..m },
                ActionView::Send { bytes: m.request },
            ),
            Some(reason) => reject(m, reason),
        },
        Event::PeerUnknown => reject(m, HandshakeErrorView::UnknownPeer),
        _ => stop(m, SimError::Accept),
    }
}

/// The request went out whole, or the connection is rejected.
pub open spec fn on_sending(m: MachineView, e: Event) -> (MachineView, ActionView) {
    match e {
        Event::Sent { written } => if written == m.request.len() {
            (
                MachineView { phase: Phase::Receiving, ..m },
                ActionView::Receive { max: MAX_REPLY_SIZE },
            )
        } else {
            reject(
                m,
                HandshakeErrorView::ShortWrite { written, expected: m.request.len() as usize },
            )
        },
        _ => reject(m, HandshakeErrorView::Transport),
    }
}

/// The reply approves, or the connection is rejected for its reason.
pub open spec fn on_receiving(m: MachineView, e: Event) -> (MachineView, ActionView) {
    match e {
        Event::Reply { bytes } => match reply_outcome(bytes@) {
            None => (
                MachineView { approved: true, phase: Phase::Announcing, ..m },
                ActionView::Approved,
            ),
            Some(reason) => reject(m, reason),
        },
        _ => reject(m, HandshakeErrorView::Transport),
    }
}

/// After a rejection, the next connection is awaited.
pub open spec fn on_rejecting(m: MachineView, e: Event) -> (MachineView, ActionView) {
    (MachineView { phase: Phase::Accepting, ..m }, ActionView::Accept)
}

/// After approval, elevation begins.
pub open spec fn on_announcing(m: MachineView, e: Event) -> (MachineView, ActionView) {
    match e {
        Event::Done => (
            MachineView { phase: Phase::SettingUids, ..m },
            ActionView::SetResUid { uid: 0 },
        ),
        _ => stop(m, SimError::UnexpectedEvent),
    }
}

/// Root user ids set; root group ids next.
pub open spec fn on_setting_uids(m: MachineView, e: Event) -> (MachineView, ActionView) {
    match e {
        Event::Done => (
            MachineView { uids_root: true, euid: 0, phase: Phase::SettingGids, ..m },
            ActionView::SetResGid { gid: 0 },
        ),
        _ => stop(m, SimError::CredentialChange),
    }
}

/// Root group ids set; supplementary groups next.
pub open spec fn on_setting_gids(m: MachineView, e: Event) -> (MachineView, ActionView) {
    match e {
        Event::Done => (
            MachineView { gids_root: true, phase: Phase::ClearingGroups, ..m },
            ActionView::ClearGroups,
        ),
        _ => stop(m, SimError::CredentialChange),
    }
}

/// Supplementary groups dropped; environment next.
pub open spec fn on_clearing_groups(m: MachineView, e: Event) -> (MachineView, ActionView) {
    match e {
        Event::Done => (
            MachineView { groups_cleared: true, phase: Phase::ClearingEnv, ..m },
            ActionView::ClearEnv,
        ),
        _ => stop(m, SimError::CredentialChange),
    }
}

/// Environment cleared: the command runs.
pub open spec fn on_clearing_env(m: MachineView, e: Event) -> (MachineView, ActionView) {
    match e {
        Event::Done => (
            MachineView { env_cleared: true, phase: Phase::Executing, ..m },
            ActionView::Exec { command: m.inv.command@, argv: m.argv() },
        ),
        _ => stop(m, SimError::Exec),
    }
}

/// The command did not replace the process.
pub open spec fn on_executing(m: MachineView, e: Event) -> (MachineView, ActionView) {
    stop(m, SimError::Exec)
}

/// The whole transition table: the record after the step and the action
/// handed out, for every phase and every event.
pub open spec fn step(m: MachineView, e: Event, token: Seq<char>) -> (MachineView, ActionView) {
    match m.phase {
        Phase::Lowering => on_lowering(m, e),
        Phase::Loading => on_loading(m, e),
        Phase::CheckingAdmin => on_checking_admin(m, e, token),
        Phase::ResolvingApprovers => on_resolving_approvers(m, e),
        Phase::EnteringBracket => on_entering_bracket(m, e),
        Phase::CreatingSocket => on_creating_socket(m, e),
        Phase::LeavingBracket => on_leaving_bracket(m, e),
        Phase::Unwinding => on_unwinding(m, e),
        Phase::Gathering => on_gathering(m, e),
        Phase::Listening => on_listening(m, e),
        Phase::Accepting => on_accepting(m, e),
        Phase::Sending => on_sending(m, e),
        Phase::Receiving => on_receiving(m, e),
        Phase::Rejecting => on_rejecting(m, e),
        Phase::Announcing => on_announcing(m, e),
        Phase::SettingUids => on_setting_uids(m, e),
        Phase::SettingGids => on_setting_gids(m, e),
        Phase::ClearingGroups => on_clearing_groups(m, e),
        Phase::ClearingEnv => on_clearing_env(m, e),
        Phase::Executing => on_executing(m, e),
        Phase::Stopped => stop(m, SimError::UnexpectedEvent),
    }
}

/// What holds of every state the machine can reach.
pub open spec fn machine_inv(m: MachineView) -> bool {
    // Once lowered, and until the final elevation, the effective user id is
    // the invoker's, or the saved one inside the bracket.
    &&& (m.phase != Phase::Lowering && m.phase != Phase::Stopped && !is_elevating(m.phase)) ==> (
    m.euid == m.invoker_uid || (m.euid == m.saved_euid && m.in_bracket))
    &&& is_bracket(m.phase) ==> m.in_bracket && m.euid == m.saved_euid
    &&& m.in_bracket ==> is_bracket(m.phase) || m.phase == Phase::Stopped
    &&& (!is_loading(m.phase) && m.phase != Phase::Stopped) ==> m.loaded
    // Past the admin check, the invoker is admitted.
    &&& (!is_loading(m.phase) && m.phase != Phase::CheckingAdmin && m.phase != Phase::Stopped)
        ==> m.admitted
    &&& (is_loading(m.phase) || m.phase == Phase::CheckingAdmin) ==> !m.admitted
    &&& m.admitted ==> m.loaded && !m.denied()
    &&& is_before_socket(m.phase) ==> !m.socket_requested && !m.approved && !m.in_bracket
    &&& is_waiting(m.phase) ==> m.socket_requested
    // A socket is asked for only for an admitted invocation that is not
    // safe, at a fresh path in the socket directory.
    &&& (m.socket_requested || m.phase == Phase::ResolvingApprovers || m.phase
        == Phase::EnteringBracket) ==> m.admitted && !m.safe() && is_token(m.token)
        && m.config.sock_dir is Some && m.sock_path == socket_path(
        m.config.sock_dir->Some_0@,
        m.token,
    )
    &&& m.approved ==> m.socket_requested
    &&& (m.phase == Phase::Sending || m.phase == Phase::Receiving) ==> m.peer_verified
    // Only an approved or a safe invocation is elevated.
    &&& (is_elevating(m.phase) || m.phase == Phase::Announcing) ==> m.admitted && (m.safe()
        || m.approved)
    &&& m.phase == Phase::Announcing ==> m.approved
    &&& (is_before_socket(m.phase) || is_waiting(m.phase) || m.phase == Phase::SettingUids)
        ==> !m.uids_root && !m.gids_root && !m.groups_cleared && !m.env_cleared
    &&& m.phase == Phase::SettingGids ==> m.uids_root && !m.gids_root && !m.groups_cleared
        && !m.env_cleared
    &&& m.phase == Phase::ClearingGroups ==> m.uids_root && m.gids_root && !m.groups_cleared
        && !m.env_cleared
    &&& m.phase == Phase::ClearingEnv ==> m.uids_root && m.gids_root && m.groups_cleared
        && !m.env_cleared
    &&& m.phase == Phase::Executing ==> fully_elevated(m)
}

/// Real, effective and saved ids are all root, no supplementary group is
/// left, and the environment is empty.
pub open spec fn fully_elevated(m: MachineView) -> bool {
    m.uids_root && m.gids_root && m.groups_cleared && m.env_cleared
}

/// Every step keeps the invariant, given a fresh socket name when one is
/// drawn.
pub proof fn lemma_step_keeps_inv(m: MachineView, e: Event, token: Seq<char>)
    requires
        machine_inv(m),
        (m.phase == Phase::CheckingAdmin && step(m, e, token).0.phase
            == Phase::ResolvingApprovers) ==> is_token(token),
    ensures
        machine_inv(step(m, e, token).0),
{
    let n = step(m, e, token).0;
    match m.phase {
        Phase::Lowering => assert(machine_inv(n)),
        Phase::Loading => assert(machine_inv(n)),
        Phase::CheckingAdmin => assert(machine_inv(n)),
        Phase::ResolvingApprovers => assert(machine_inv(n)),
        Phase::EnteringBracket => assert(machine_inv(n)),
        Phase::CreatingSocket => assert(machine_inv(n)),
        Phase::LeavingBracket => assert(machine_inv(n)),
        Phase::Unwinding => assert(machine_inv(n)),
        Phase::Gathering => assert(machine_inv(n)),
        Phase::Listening => assert(machine_inv(n)),
        Phase::Accepting => assert(machine_inv(n)),
        Phase::Sending => assert(machine_inv(n)),
        Phase::Receiving => assert(machine_inv(n)),
        Phase::Rejecting => assert(machine_inv(n)),
        Phase::Announcing => assert(machine_inv(n)),
        Phase::SettingUids => assert(machine_inv(n)),
        Phase::SettingGids => assert(machine_inv(n)),
        Phase::ClearingGroups => assert(machine_inv(n)),
        Phase::ClearingEnv => assert(machine_inv(n)),
        Phase::Executing => assert(machine_inv(n)),
        Phase::Stopped => assert(machine_inv(n)),
    }
}

/// Until the final elevation, the effective user id of every reachable
/// state is the invoker's, or the saved one, and the saved one only inside
/// the bracket around socket creation.
pub proof fn lemma_effective_uid_bracketed(m: MachineView)
    requires
        machine_inv(m),
        m.phase != Phase::Lowering,
        m.phase != Phase::Stopped,
        !is_elevating(m.phase),
    ensures
        m.euid == m.invoker_uid || m.euid == m.saved_euid,
        m.euid != m.invoker_uid ==> m.in_bracket,
{
}

/// When a reachable state runs the command, real, effective and saved user
/// and group ids are root, no supplementary group is left and the
/// environment is empty; and the invocation was admitted, and safe or
/// approved.
pub proof fn lemma_exec_fully_elevated(m: MachineView)
    requires
        machine_inv(m),
        m.phase == Phase::Executing,
    ensures
        fully_elevated(m),
        m.admitted && !m.denied(),
        m.safe() || m.approved,
{
}

/// A rendezvous socket is asked for only for an admitted invocation that
/// matches no deny entry and no safe entry; a reachable state that sends
/// the request has verified its peer.
pub proof fn lemma_socket_only_when_needed(m: MachineView)
    requires
        machine_inv(m),
    ensures
        m.socket_requested ==> m.admitted && !m.denied() && !m.safe(),
        (m.phase == Phase::Sending || m.phase == Phase::Receiving) ==> m.peer_verified,
{
}

/// The sequence of one invocation.
pub struct Orchestrator {
    phase: Phase,
    invoker_uid: u32,
    saved_euid: u32,
    euid: u32,
    in_bracket: bool,
    loaded: bool,
    inv: Invocation,
    config: SimConfig,
    admitted: bool,
    approver_gid: u32,
    token: String,
    sock_path: String,
    request: Vec<u8>,
    socket_requested: bool,
    peer_verified: bool,
    approved: bool,
    uids_root: bool,
    gids_root: bool,
    groups_cleared: bool,
    env_cleared: bool,
}

impl View for Orchestrator {
    type V = MachineView;

    closed spec fn view(&self) -> MachineView {
        MachineView {
            phase: self.phase,
            invoker_uid: self.invoker_uid,
            saved_euid: self.saved_euid,
            euid: self.euid,
            in_bracket: self.in_bracket,
            loaded: self.loaded,
            inv: self.inv,
            config: self.config,
            admitted: self.admitted,
            approver_gid: self.approver_gid,
            token: self.token@,
            sock_path: self.sock_path@,
            request: self.request@,
            socket_requested: self.socket_requested,
            peer_verified: self.peer_verified,
            approved: self.approved,
            uids_root: self.uids_root,
            gids_root: self.gids_root,
            groups_cleared: self.groups_cleared,
            env_cleared: self.env_cleared,
        }
    }
}

/// A step of the machine: `new` and `action` are what the table gives for
/// `old` and `event`, the socket name being either kept or freshly drawn.
pub open spec fn steps_to(
    old: MachineView,
    event: Event,
    new: MachineView,
    action: ActionView,
) -> bool {
    &&& step(old, event, new.token) == (new, action)
    &&& (old.phase == Phase::CheckingAdmin && new.phase == Phase::ResolvingApprovers) ==> is_token(
        new.token,
    )
}

impl Orchestrator {
    /// The record of a reachable state.
    pub open spec fn wf(&self) -> bool {
        machine_inv(self@)
    }

    /// Starts an invocation by the user `invoker_uid` of a process whose
    /// effective user id is `saved_euid`: the first action lowers the
    /// effective user id to the invoker's.
    pub fn start(invoker_uid: u32, saved_euid: u32) -> (r: (Orchestrator, Action))
        ensures
            r.0.wf(),
            r.0@.phase == Phase::Lowering,
            r.0@.invoker_uid == invoker_uid,
            r.0@.saved_euid == saved_euid,
            r.0@.euid == saved_euid,
            !r.0@.in_bracket && !r.0@.loaded && !r.0@.admitted,
            !r.0@.socket_requested && !r.0@.approved && !r.0@.peer_verified,
            !r.0@.uids_root && !r.0@.gids_root && !r.0@.groups_cleared && !r.0@.env_cleared,
            r.1@ == (ActionView::SetEuid { uid: invoker_uid }),
    {
        let m = Orchestrator {
            phase: Phase::Lowering,
            invoker_uid,
            saved_euid,
            euid: saved_euid,
            in_bracket: false,
            loaded: false,
            inv: Invocation { command: String::new(), args: Vec::new() },
            config: SimConfig {
                admin_group: None,
                approve_group: None,
                sock_dir: None,
                safe_command: Vec::new(),
                deny_command: Vec::new(),
            },
            admitted: false,
            approver_gid: 0,
            token: String::new(),
            sock_path: String::new(),
            request: Vec::new(),
            socket_requested: false,
            peer_verified: false,
            approved: false,
            uids_root: false,
            gids_root: false,
            groups_cleared: false,
            env_cleared: false,
        };
        (m, Action::SetEuid { uid: invoker_uid })
    }

    fn stop(&mut self, error: SimError) -> (r: Action)
        ensures
            (final(self)@, r@) == stop(old(self)@, error),
    {
        self.phase = Phase::Stopped;
        Action::Abort { error }
    }

    fn reject(&mut self, reason: HandshakeError) -> (r: Action)
        ensures
            (final(self)@, r@) == reject(old(self)@, reason@),
    {
        self.peer_verified = false;
        self.phase = Phase::Rejecting;
        Action::Reject { reason }
    }

    /// Takes what came of the last action and hands out the next one, as
    /// the transition table says.
    pub fn next(&mut self, event: Event) -> (r: Action)
        requires
            old(self).wf(),
        ensures
            final(self).wf(),
            steps_to(old(self)@, event, final(self)@, r@),
    {
        let ghost before = self@;
        let r = match self.phase {
            Phase::Lowering => self.next_lowering(event),
            Phase::Loading => self.next_loading(event),
            Phase::CheckingAdmin => self.next_checking_admin(event),
            Phase::ResolvingApprovers => self.next_resolving_approvers(event),
            Phase::EnteringBracket => self.next_entering_bracket(event),
            Phase::CreatingSocket => self.next_creating_socket(event),
            Phase::LeavingBracket => self.next_leaving_bracket(event),
            Phase::Unwinding => self.next_unwinding(event),
            Phase::Gathering => self.next_gathering(event),
            Phase::Listening => self.next_listening(event),
            Phase::Accepting => self.next_accepting(event),
            Phase::Sending => self.next_sending(event),
            Phase::Receiving => self.next_receiving(event),
            Phase::Rejecting => self.next_rejecting(event),
            Phase::Announcing => self.next_announcing(event),
            Phase::SettingUids => self.next_setting_uids(event),
            Phase::SettingGids => self.next_setting_gids(event),
            Phase::ClearingGroups => self.next_clearing_groups(event),
            Phase::ClearingEnv => self.next_clearing_env(event),
            Phase::Executing => self.next_executing(event),
            Phase::Stopped => self.next_stopped(event),
        };
        proof {
            lemma_step_keeps_inv(before, event, self@.token);
        }
        r
    }



    fn next_lowering(&mut self, event: Event) -> (r: Action)
        requires
            old(self)@.phase == Phase::Lowering,
        ensures
            (final(self)@, r@) == on_lowering(old(self)@, event),
    {
        match event {
            Event::Done => {
                self.euid = self.invoker_uid;
                self.phase = Phase::Loading;
                Action::LoadConfig
            },
            _ => self.stop(SimError::CredentialChange),
        }
    }

    fn next_loading(&mut self, event: Event) -> (r: Action)
        requires
            old(self)@.phase == Phase::Loading,
        ensures
            (final(self)@, r@) == on_loading(old(self)@, event),
    {
        match event {
            Event::Loaded { inv, config } => {
                self.inv = inv;
                self.config = config;
                self.loaded = true;
                match &self.config.admin_group {
                    Some(group) => {
                        let group = group.clone();
                        self.phase = Phase::CheckingAdmin;
                        Action::LookupAdmin { group }
                    },
                    None => self.stop(SimError::NoAdminGroup),
                }
            },
            _ => self.stop(SimError::Config),
        }
    }

    fn next_checking_admin(&mut self, event: Event) -> (r: Action)
        requires
            old(self)@.phase == Phase::CheckingAdmin,
        ensures
            (final(self)@, r@) == on_checking_admin(old(self)@, event, final(self)@.token),
            final(self)@.phase == Phase::ResolvingApprovers ==> is_token(final(self)@.token),
    {
        match event {
            Event::AdminInfo { admin_gid, groups, user } => {
                if let Err(e) = check_admin(admin_gid, groups.as_slice(), user) {
                    return self.stop(e);
                }
                if let Err(e) = check_deny(&self.config, &self.inv) {
                    return self.stop(e);
                }
                self.admitted = true;
                if check_safe(&self.config, &self.inv) {
                    self.phase = Phase::SettingUids;
                    return Action::SetResUid { uid: 0 };
                }
                let sock_dir = match &self.config.sock_dir {
                    Some(d) => d.clone(),
                    None => return self.stop(SimError::NoSockDir),
                };
                let group = match &self.config.approve_group {
                    Some(g) => g.clone(),
                    None => return self.stop(SimError::NoApproveGroup),
                };
                let (path, token) = new_rendezvous(sock_dir.as_str());
                self.sock_path = path;
                self.token = token;
                self.phase = Phase::ResolvingApprovers;
                Action::LookupGroup { group }
            },
            _ => self.stop(SimError::Lookup),
        }
    }

    fn next_resolving_approvers(&mut self, event: Event) -> (r: Action)
        requires
            old(self)@.phase == Phase::ResolvingApprovers,
        ensures
            (final(self)@, r@) == on_resolving_approvers(old(self)@, event),
    {
        match event {
            Event::GroupResolved { gid } => {
                self.approver_gid = gid;
                self.phase = Phase::EnteringBracket;
                Action::SetEuid { uid: self.saved_euid }
            },
            _ => self.stop(SimError::Lookup),
        }
    }

    fn next_entering_bracket(&mut self, event: Event) -> (r: Action)
        requires
            old(self)@.phase == Phase::EnteringBracket,
        ensures
            (final(self)@, r@) == on_entering_bracket(old(self)@, event),
    {
        match event {
            Event::Done => {
                self.euid = self.saved_euid;
                self.in_bracket = true;
                self.socket_requested = true;
                self.phase = Phase::CreatingSocket;
                Action::CreateSocket {
                    path: self.sock_path.clone(),
                    owner: SOCKET_OWNER,
                    group: self.approver_gid,
                    mode: SOCKET_MODE,
                }
            },
            _ => self.stop(SimError::CredentialChange),
        }
    }

    fn next_creating_socket(&mut self, event: Event) -> (r: Action)
        requires
            old(self)@.phase == Phase::CreatingSocket,
        ensures
            (final(self)@, r@) == on_creating_socket(old(self)@, event),
    {
        match event {
            Event::Done => {
                self.phase = Phase::LeavingBracket;
                Action::SetEuid { uid: self.invoker_uid }
            },
            _ => {
                self.phase = Phase::Unwinding;
                Action::SetEuid { uid: self.invoker_uid }
            },
        }
    }

    fn next_leaving_bracket(&mut self, event: Event) -> (r: Action)
        requires
            old(self)@.phase == Phase::LeavingBracket,
        ensures
            (final(self)@, r@) == on_leaving_bracket(old(self)@, event),
    {
        match event {
            Event::Done => {
                self.euid = self.invoker_uid;
                self.in_bracket = false;
                self.phase = Phase::Gathering;
                Action::GatherRequestInfo
            },
            _ => self.stop(SimError::CredentialChange),
        }
    }

    fn next_unwinding(&mut self, event: Event) -> (r: Action)
        requires
            old(self)@.phase == Phase::Unwinding,
        ensures
            (final(self)@, r@) == on_unwinding(old(self)@, event),
    {
        match event {
            Event::Done => {
                self.euid = self.invoker_uid;
                self.in_bracket = false;
                self.stop(SimError::SocketSetup)
            },
            _ => self.stop(SimError::CredentialChange),
        }
    }

    fn next_gathering(&mut self, event: Event) -> (r: Action)
        requires
            old(self)@.phase == Phase::Gathering,
        ensures
            (final(self)@, r@) == on_gathering(old(self)@, event),
    {
        match event {
            Event::RequestInfo { host, user, cwd } => {
                let req = make_approve_request(&self.inv, self.token.as_str(), host, user, cwd);
                self.request = encode_request(&req);
                self.phase = Phase::Listening;
                Action::Listen { backlog: LISTEN_BACKLOG }
            },
            _ => self.stop(SimError::RequestInfo),
        }
    }

    fn next_listening(&mut self, event: Event) -> (r: Action)
        requires
            old(self)@.phase == Phase::Listening,
        ensures
            (final(self)@, r@) == on_listening(old(self)@, event),
    {
        match event {
            Event::Done => {
                self.phase = Phase::Accepting;
                Action::Accept
            },
            _ => self.stop(SimError::SocketSetup),
        }
    }

    fn next_accepting(&mut self, event: Event) -> (r: Action)
        requires
            old(self)@.phase == Phase::Accepting,
        ensures
            (final(self)@, r@) == on_accepting(old(self)@, event),
    {
        match event {
            Event::Connected { uid, gid, groups } => {
                let verdict = check_peer(
                    self.approver_gid,
                    self.invoker_uid,
                    uid,
                    gid,
                    groups.as_slice(),
                );
                match verdict {
                    Ok(()) => {
                        self.peer_verified = true;
                        self.phase = Phase::Sending;
                        let mut bytes: Vec<u8> = Vec::new();
                        push_bytes(&mut bytes, self.request.as_slice());
                        assert(bytes@ =~= self.request@);
                        Action::Send { bytes }
                    },
                    Err(reason) => self.reject(reason),
                }
            },
            Event::PeerUnknown => self.reject(HandshakeError::UnknownPeer),
            _ => self.stop(SimError::Accept),
        }
    }

    fn next_sending(&mut self, event: Event) -> (r: Action)
        requires
            old(self)@.phase == Phase::Sending,
        ensures
            (final(self)@, r@) == on_sending(old(self)@, event),
    {
        match event {
            Event::Sent { written } => match check_write(written, self.request.len()) {
                Ok(()) => {
                    self.phase = Phase::Receiving;
                    Action::Receive { max: MAX_REPLY_SIZE }
                },
                Err(reason) => self.reject(reason),
            },
            _ => self.reject(HandshakeError::Transport),
        }
    }

    fn next_receiving(&mut self, event: Event) -> (r: Action)
        requires
            old(self)@.phase == Phase::Receiving,
        ensures
            (final(self)@, r@) == on_receiving(old(self)@, event),
    {
        match event {
            Event::Reply { bytes } => match interpret_reply(bytes.as_slice()) {
                Ok(()) => {
                    self.approved = true;
                    self.phase = Phase::Announcing;
                    Action::Approved
                },
                Err(reason) => self.reject(reason),
            },
            _ => self.reject(HandshakeError::Transport),
        }
    }

    fn next_rejecting(&mut self, event: Event) -> (r: Action)
        requires
            old(self)@.phase == Phase::Rejecting,
        ensures
            (final(self)@, r@) == on_rejecting(old(self)@, event),
    {
        {
            self.phase = Phase::Accepting;
            Action::Accept
        }
    }

    fn next_announcing(&mut self, event: Event) -> (r: Action)
        requires
            old(self)@.phase == Phase::Announcing,
        ensures
            (final(self)@, r@) == on_announcing(old(self)@, event),
    {
        match event {
            Event::Done => {
                self.phase = Phase::SettingUids;
                Action::SetResUid { uid: 0 }
            },
            _ => self.stop(SimError::UnexpectedEvent),
        }
    }

    fn next_setting_uids(&mut self, event: Event) -> (r: Action)
        requires
            old(self)@.phase == Phase::SettingUids,
        ensures
            (final(self)@, r@) == on_setting_uids(old(self)@, event),
    {
        match event {
            Event::Done => {
                self.uids_root = true;
                self.euid = 0;
                self.phase = Phase::SettingGids;
                Action::SetResGid { gid: 0 }
            },
            _ => self.stop(SimError::CredentialChange),
        }
    }

    fn next_setting_gids(&mut self, event: Event) -> (r: Action)
        requires
            old(self)@.phase == Phase::SettingGids,
        ensures
            (final(self)@, r@) == on_setting_gids(old(self)@, event),
    {
        match event {
            Event::Done => {
                self.gids_root = true;
                self.phase = Phase::ClearingGroups;
                Action::ClearGroups
            },
            _ => self.stop(SimError::CredentialChange),
        }
    }

    fn next_clearing_groups(&mut self, event: Event) -> (r: Action)
        requires
            old(self)@.phase == Phase::ClearingGroups,
        ensures
            (final(self)@, r@) == on_clearing_groups(old(self)@, event),
    {
        match event {
            Event::Done => {
                self.groups_cleared = true;
                self.phase = Phase::ClearingEnv;
                Action::ClearEnv
            },
            _ => self.stop(SimError::CredentialChange),
        }
    }

    fn next_clearing_env(&mut self, event: Event) -> (r: Action)
        requires
            old(self)@.phase == Phase::ClearingEnv,
        ensures
            (final(self)@, r@) == on_clearing_env(old(self)@, event),
    {
        match event {
            Event::Done => {
                self.env_cleared = true;
                self.phase = Phase::Executing;
                Action::Exec { command: self.inv.command.clone(), argv: argv(&self.inv) }
            },
            _ => self.stop(SimError::Exec),
        }
    }

    fn next_executing(&mut self, event: Event) -> (r: Action)
        requires
            old(self)@.phase == Phase::Executing,
        ensures
            (final(self)@, r@) == on_executing(old(self)@, event),
    {
        self.stop(SimError::Exec)
    }

    fn next_stopped(&mut self, event: Event) -> (r: Action)
        requires
            old(self)@.phase == Phase::Stopped,
        ensures
            (final(self)@, r@) == stop(old(self)@, SimError::UnexpectedEvent),
    {
        self.stop(SimError::UnexpectedEvent)
    }
}

} // verus!
