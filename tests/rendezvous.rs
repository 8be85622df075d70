use sim::config::Invocation;
use sim::messages::Command;
use sim::rendezvous::{new_rendezvous, rendezvous_path, LISTEN_BACKLOG, SOCKET_MODE, SOCKET_OWNER, TOKEN_LEN};
use sim::request::{argv, make_approve_request};

#[test]
fn socket_constants() {
    assert_eq!(SOCKET_MODE, 0o660);
    assert_eq!(SOCKET_OWNER, 0);
    assert!(LISTEN_BACKLOG >= 5);
    assert_eq!(TOKEN_LEN, 16);
}

#[test]
fn path_joins_directory_and_name() {
    assert_eq!(rendezvous_path("/run/sim", "abc"), "/run/sim/abc");
}

#[test]
fn fresh_rendezvous_names() {
    let (path, token) = new_rendezvous("/run/sim");
    assert_eq!(token.len(), 16);
    assert!(token.chars().all(|c| c.is_ascii_alphanumeric()));
    assert_eq!(path, format!("/run/sim/{token}"));
    let (_, other) = new_rendezvous("/run/sim");
    assert_ne!(token, other);
}

#[test]
fn request_carries_argv_and_no_environment() {
    let inv = Invocation { command: "whoami".to_string(), args: vec!["-a".to_string()] };
    assert_eq!(argv(&inv), vec!["whoami".to_string(), "-a".to_string()]);
    let r = make_approve_request(&inv, "tok", "host".to_string(), "alice".to_string(), "/tmp".to_string());
    assert_eq!(r.id, Some("tok".to_string()));
    assert_eq!(r.host, Some("host".to_string()));
    assert_eq!(r.user, Some("alice".to_string()));
    assert_eq!(r.justification, None);
    assert_eq!(
        r.command,
        Some(Command {
            cwd: Some("/tmp".to_string()),
            command: Some("whoami".to_string()),
            args: vec!["whoami".to_string(), "-a".to_string()],
            environ: vec![],
        })
    );
}
