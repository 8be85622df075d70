use sim::config::{CommandDefinition, Invocation, SimConfig};
use sim::error::SimError;
use sim::handshake::{HandshakeError, MAX_REPLY_SIZE};
use sim::messages::{decode_request, encode_response, ApprovalResponse};
use sim::orchestrator::{Action, Event, Orchestrator};
use sim::rendezvous::{SOCKET_MODE, SOCKET_OWNER};

const INVOKER: u32 = 1000;
const ROOT: u32 = 0;
const WHEEL: u32 = 10;
const APPROVERS: u32 = 600;

fn def(name: &str) -> CommandDefinition {
    CommandDefinition { command: vec![name.to_string()] }
}

fn config(safe: &[&str], deny: &[&str]) -> SimConfig {
    SimConfig {
        admin_group: Some("wheel".to_string()),
        approve_group: Some("approvers".to_string()),
        sock_dir: Some("/run/sim".to_string()),
        safe_command: safe.iter().map(|s| def(s)).collect(),
        deny_command: deny.iter().map(|s| def(s)).collect(),
    }
}

fn inv(command: &str, args: &[&str]) -> Invocation {
    Invocation { command: command.to_string(), args: args.iter().map(|s| s.to_string()).collect() }
}

/// Runs the machine up to the policy decision and returns the action after it.
fn through_policy(m: &mut Orchestrator, c: SimConfig, i: Invocation, groups: Vec<u32>) -> Action {
    assert_eq!(m.next(Event::Done), Action::LoadConfig);
    assert_eq!(m.next(Event::Loaded { inv: i, config: c }), Action::LookupAdmin { group: "wheel".to_string() });
    m.next(Event::AdminInfo { admin_gid: WHEEL, groups, user: "alice".to_string() })
}

fn elevate_and_exec(m: &mut Orchestrator, command: &str, argv: &[&str]) {
    assert_eq!(m.next(Event::Done), Action::SetResGid { gid: 0 });
    assert_eq!(m.next(Event::Done), Action::ClearGroups);
    assert_eq!(m.next(Event::Done), Action::ClearEnv);
    assert_eq!(
        m.next(Event::Done),
        Action::Exec { command: command.to_string(), argv: argv.iter().map(|s| s.to_string()).collect() }
    );
}

/// Runs the machine through socket creation and request building; returns
/// the encoded request.
fn up_to_accept(m: &mut Orchestrator) -> String {
    assert_eq!(m.next(Event::GroupResolved { gid: APPROVERS }), Action::SetEuid { uid: ROOT });
    let path = match m.next(Event::Done) {
        Action::CreateSocket { path, owner, group, mode } => {
            assert_eq!(owner, SOCKET_OWNER);
            assert_eq!(group, APPROVERS);
            assert_eq!(mode, SOCKET_MODE);
            path
        }
        other => panic!("expected socket creation, got {other:?}"),
    };
    assert!(path.starts_with("/run/sim/"));
    assert_eq!(m.next(Event::Done), Action::SetEuid { uid: INVOKER });
    assert_eq!(m.next(Event::Done), Action::GatherRequestInfo);
    assert_eq!(
        m.next(Event::RequestInfo { host: "box".to_string(), user: "alice".to_string(), cwd: "/home/alice".to_string() }),
        Action::Listen { backlog: 5 }
    );
    assert_eq!(m.next(Event::Done), Action::Accept);
    path
}

fn approver_reply(approved: Option<bool>, comment: Option<&str>) -> Vec<u8> {
    encode_response(&ApprovalResponse { id: None, approved, comment: comment.map(|c| c.to_string()) })
}

#[test]
fn start_lowers_to_invoker() {
    let (_, first) = Orchestrator::start(INVOKER, ROOT);
    assert_eq!(first, Action::SetEuid { uid: INVOKER });
}

#[test]
fn denied_command_aborts_before_any_socket() {
    let (mut m, _) = Orchestrator::start(INVOKER, ROOT);
    let a = through_policy(&mut m, config(&[], &["rm"]), inv("rm", &["/"]), vec![WHEEL]);
    assert_eq!(a, Action::Abort { error: SimError::Denied });
    // Nothing more happens after the abort.
    assert_eq!(m.next(Event::Done), Action::Abort { error: SimError::UnexpectedEvent });
}

#[test]
fn deny_wins_over_safe() {
    let (mut m, _) = Orchestrator::start(INVOKER, ROOT);
    let a = through_policy(&mut m, config(&["rm"], &["rm"]), inv("rm", &[]), vec![WHEEL]);
    assert_eq!(a, Action::Abort { error: SimError::Denied });
}

#[test]
fn safe_command_runs_without_approval() {
    let (mut m, _) = Orchestrator::start(INVOKER, ROOT);
    let a = through_policy(&mut m, config(&["ls"], &[]), inv("ls", &["/tmp"]), vec![4, WHEEL]);
    assert_eq!(a, Action::SetResUid { uid: 0 });
    elevate_and_exec(&mut m, "ls", &["ls", "/tmp"]);
}

#[test]
fn approval_happy_path() {
    let (mut m, _) = Orchestrator::start(INVOKER, ROOT);
    let a = through_policy(&mut m, config(&[], &[]), inv("whoami", &[]), vec![WHEEL]);
    assert_eq!(a, Action::LookupGroup { group: "approvers".to_string() });
    let path = up_to_accept(&mut m);
    let bytes = match m.next(Event::Connected { uid: 1001, gid: 100, groups: vec![100, APPROVERS] }) {
        Action::Send { bytes } => bytes,
        other => panic!("expected send, got {other:?}"),
    };
    let req = decode_request(&bytes).unwrap();
    assert_eq!(req.user, Some("alice".to_string()));
    assert_eq!(req.command.as_ref().unwrap().command, Some("whoami".to_string()));
    assert_eq!(req.command.as_ref().unwrap().args, vec!["whoami".to_string()]);
    assert_eq!(req.command.as_ref().unwrap().environ, Vec::<String>::new());
    assert_eq!(format!("/run/sim/{}", req.id.unwrap()), path);
    assert_eq!(m.next(Event::Sent { written: bytes.len() }), Action::Receive { max: MAX_REPLY_SIZE });
    assert_eq!(m.next(Event::Reply { bytes: approver_reply(Some(true), None) }), Action::Approved);
    assert_eq!(m.next(Event::Done), Action::SetResUid { uid: 0 });
    elevate_and_exec(&mut m, "whoami", &["whoami"]);
}

#[test]
fn rejection_with_comment_keeps_waiting() {
    let (mut m, _) = Orchestrator::start(INVOKER, ROOT);
    through_policy(&mut m, config(&[], &[]), inv("whoami", &[]), vec![WHEEL]);
    up_to_accept(&mut m);
    let bytes = match m.next(Event::Connected { uid: 1001, gid: APPROVERS, groups: vec![] }) {
        Action::Send { bytes } => bytes,
        other => panic!("expected send, got {other:?}"),
    };
    m.next(Event::Sent { written: bytes.len() });
    assert_eq!(
        m.next(Event::Reply { bytes: approver_reply(Some(true), Some("wrong window")) }),
        Action::Reject { reason: HandshakeError::Commented { comment: "wrong window".to_string() } }
    );
    assert_eq!(m.next(Event::Done), Action::Accept);
}

#[test]
fn non_approver_gets_nothing_then_approver_succeeds() {
    let (mut m, _) = Orchestrator::start(INVOKER, ROOT);
    through_policy(&mut m, config(&[], &[]), inv("whoami", &[]), vec![WHEEL]);
    up_to_accept(&mut m);
    assert_eq!(
        m.next(Event::Connected { uid: 1002, gid: 100, groups: vec![100] }),
        Action::Reject { reason: HandshakeError::NotApprover }
    );
    assert_eq!(m.next(Event::Done), Action::Accept);
    let bytes = match m.next(Event::Connected { uid: 1001, gid: 100, groups: vec![APPROVERS] }) {
        Action::Send { bytes } => bytes,
        other => panic!("expected send, got {other:?}"),
    };
    m.next(Event::Sent { written: bytes.len() });
    assert_eq!(m.next(Event::Reply { bytes: approver_reply(Some(true), None) }), Action::Approved);
    assert_eq!(m.next(Event::Done), Action::SetResUid { uid: 0 });
    elevate_and_exec(&mut m, "whoami", &["whoami"]);
}

#[test]
fn invoker_cannot_approve_own_request() {
    let (mut m, _) = Orchestrator::start(INVOKER, ROOT);
    through_policy(&mut m, config(&[], &[]), inv("whoami", &[]), vec![WHEEL]);
    up_to_accept(&mut m);
    assert_eq!(
        m.next(Event::Connected { uid: INVOKER, gid: APPROVERS, groups: vec![APPROVERS] }),
        Action::Reject { reason: HandshakeError::SelfApproval }
    );
}

#[test]
fn short_write_and_transport_errors_keep_waiting() {
    let (mut m, _) = Orchestrator::start(INVOKER, ROOT);
    through_policy(&mut m, config(&[], &[]), inv("whoami", &[]), vec![WHEEL]);
    up_to_accept(&mut m);
    let bytes = match m.next(Event::Connected { uid: 1001, gid: APPROVERS, groups: vec![] }) {
        Action::Send { bytes } => bytes,
        other => panic!("expected send, got {other:?}"),
    };
    assert_eq!(
        m.next(Event::Sent { written: 1 }),
        Action::Reject { reason: HandshakeError::ShortWrite { written: 1, expected: bytes.len() } }
    );
    assert_eq!(m.next(Event::Done), Action::Accept);
    assert_eq!(m.next(Event::PeerUnknown), Action::Reject { reason: HandshakeError::UnknownPeer });
    assert_eq!(m.next(Event::Done), Action::Accept);
    assert!(matches!(m.next(Event::Connected { uid: 1001, gid: APPROVERS, groups: vec![] }), Action::Send { .. }));
    assert_eq!(m.next(Event::Failed), Action::Reject { reason: HandshakeError::Transport });
    assert_eq!(m.next(Event::Done), Action::Accept);
}

#[test]
fn non_admin_is_refused_before_any_socket() {
    let (mut m, _) = Orchestrator::start(INVOKER, ROOT);
    let a = through_policy(&mut m, config(&[], &[]), inv("whoami", &[]), vec![4, 27]);
    assert_eq!(a, Action::Abort { error: SimError::NotAdmin { user: "alice".to_string() } });
}

#[test]
fn missing_configuration_entries() {
    let (mut m, _) = Orchestrator::start(INVOKER, ROOT);
    m.next(Event::Done);
    let mut c = config(&[], &[]);
    c.admin_group = None;
    assert_eq!(m.next(Event::Loaded { inv: inv("ls", &[]), config: c }), Action::Abort { error: SimError::NoAdminGroup });

    let (mut m, _) = Orchestrator::start(INVOKER, ROOT);
    let mut c = config(&[], &[]);
    c.sock_dir = None;
    assert_eq!(through_policy(&mut m, c, inv("ls", &[]), vec![WHEEL]), Action::Abort { error: SimError::NoSockDir });

    let (mut m, _) = Orchestrator::start(INVOKER, ROOT);
    let mut c = config(&[], &[]);
    c.approve_group = None;
    assert_eq!(through_policy(&mut m, c, inv("ls", &[]), vec![WHEEL]), Action::Abort { error: SimError::NoApproveGroup });
}

#[test]
fn failures_abort() {
    let (mut m, _) = Orchestrator::start(INVOKER, ROOT);
    assert_eq!(m.next(Event::Failed), Action::Abort { error: SimError::CredentialChange });

    let (mut m, _) = Orchestrator::start(INVOKER, ROOT);
    m.next(Event::Done);
    assert_eq!(m.next(Event::Failed), Action::Abort { error: SimError::Config });
}

#[test]
fn socket_failure_restores_invoker_before_abort() {
    let (mut m, _) = Orchestrator::start(INVOKER, ROOT);
    through_policy(&mut m, config(&[], &[]), inv("whoami", &[]), vec![WHEEL]);
    m.next(Event::GroupResolved { gid: APPROVERS });
    assert!(matches!(m.next(Event::Done), Action::CreateSocket { .. }));
    assert_eq!(m.next(Event::Failed), Action::SetEuid { uid: INVOKER });
    assert_eq!(m.next(Event::Done), Action::Abort { error: SimError::SocketSetup });
}

#[test]
fn failed_bracket_release_is_fatal() {
    let (mut m, _) = Orchestrator::start(INVOKER, ROOT);
    through_policy(&mut m, config(&[], &[]), inv("whoami", &[]), vec![WHEEL]);
    m.next(Event::GroupResolved { gid: APPROVERS });
    m.next(Event::Done);
    assert_eq!(m.next(Event::Done), Action::SetEuid { uid: INVOKER });
    assert_eq!(m.next(Event::Failed), Action::Abort { error: SimError::CredentialChange });
}

#[test]
fn failed_elevation_aborts() {
    let (mut m, _) = Orchestrator::start(INVOKER, ROOT);
    through_policy(&mut m, config(&["ls"], &[]), inv("ls", &[]), vec![WHEEL]);
    assert_eq!(m.next(Event::Failed), Action::Abort { error: SimError::CredentialChange });
}

#[test]
fn unresolvable_request_info_aborts_before_listening() {
    let (mut m, _) = Orchestrator::start(INVOKER, ROOT);
    through_policy(&mut m, config(&[], &[]), inv("whoami", &[]), vec![WHEEL]);
    m.next(Event::GroupResolved { gid: APPROVERS });
    m.next(Event::Done);
    m.next(Event::Done);
    assert_eq!(m.next(Event::Done), Action::GatherRequestInfo);
    assert_eq!(m.next(Event::Failed), Action::Abort { error: SimError::RequestInfo });
}

#[test]
fn failed_lookups_abort() {
    let (mut m, _) = Orchestrator::start(INVOKER, ROOT);
    m.next(Event::Done);
    m.next(Event::Loaded { inv: inv("whoami", &[]), config: config(&[], &[]) });
    assert_eq!(m.next(Event::Failed), Action::Abort { error: SimError::Lookup });

    let (mut m, _) = Orchestrator::start(INVOKER, ROOT);
    through_policy(&mut m, config(&[], &[]), inv("whoami", &[]), vec![WHEEL]);
    assert_eq!(m.next(Event::Failed), Action::Abort { error: SimError::Lookup });
}

#[test]
fn unexpected_events_abort() {
    let (mut m, _) = Orchestrator::start(INVOKER, ROOT);
    assert_eq!(m.next(Event::PeerUnknown), Action::Abort { error: SimError::CredentialChange });
    let (mut m, _) = Orchestrator::start(INVOKER, ROOT);
    m.next(Event::Done);
    assert_eq!(m.next(Event::Done), Action::Abort { error: SimError::Config });
}
