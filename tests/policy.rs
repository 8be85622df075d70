use sim::config::{CommandDefinition, Invocation, SimConfig};
use sim::error::SimError;
use sim::policy::{check_admin, check_deny, check_safe, match_command, str_equal};

fn def(names: &[&str]) -> CommandDefinition {
    CommandDefinition { command: names.iter().map(|s| s.to_string()).collect() }
}

fn config(safe: Vec<CommandDefinition>, deny: Vec<CommandDefinition>) -> SimConfig {
    SimConfig {
        admin_group: Some("wheel".to_string()),
        approve_group: Some("approvers".to_string()),
        sock_dir: Some("/run/sim".to_string()),
        safe_command: safe,
        deny_command: deny,
    }
}

fn inv(command: &str, args: &[&str]) -> Invocation {
    Invocation { command: command.to_string(), args: args.iter().map(|s| s.to_string()).collect() }
}

#[test]
fn str_equal_compares_characters() {
    assert!(str_equal("ls", "ls"));
    assert!(!str_equal("ls", "lsx"));
    assert!(!str_equal("ls", "la"));
    assert!(str_equal("", ""));
    assert!(str_equal("héllo", "héllo"));
    assert!(!str_equal("héllo", "hello"));
}

#[test]
fn match_command_by_program_name_only() {
    let d = def(&["ls", "cat"]);
    assert!(match_command(&d, "ls", &[]));
    assert!(match_command(&d, "cat", &["/etc/passwd"]));
    assert!(!match_command(&d, "rm", &["/"]));
    assert!(!match_command(&def(&[]), "ls", &[]));
    // Arguments do not take part in the decision.
    assert!(match_command(&d, "ls", &["-la", "/root"]));
}

#[test]
fn check_deny_refuses_listed_commands() {
    let c = config(vec![], vec![def(&["rm"])]);
    assert_eq!(check_deny(&c, &inv("rm", &["/"])), Err(SimError::Denied));
    assert_eq!(check_deny(&c, &inv("ls", &["/"])), Ok(()));
    let empty = config(vec![], vec![]);
    assert_eq!(check_deny(&empty, &inv("rm", &["/"])), Ok(()));
}

#[test]
fn check_deny_scans_every_definition() {
    let c = config(vec![], vec![def(&["shutdown"]), def(&["dd", "rm"])]);
    assert_eq!(check_deny(&c, &inv("rm", &[])), Err(SimError::Denied));
    assert_eq!(check_deny(&c, &inv("shutdown", &["-h"])), Err(SimError::Denied));
    assert_eq!(check_deny(&c, &inv("reboot", &[])), Ok(()));
}

#[test]
fn check_safe_matches_listed_commands() {
    let c = config(vec![def(&["ls"]), def(&["whoami", "id"])], vec![]);
    assert!(check_safe(&c, &inv("ls", &["/tmp"])));
    assert!(check_safe(&c, &inv("id", &[])));
    assert!(!check_safe(&c, &inv("rm", &["/"])));
    assert!(!check_safe(&config(vec![], vec![]), &inv("ls", &[])));
}

#[test]
fn policy_calls_are_repeatable() {
    let c = config(vec![def(&["ls"])], vec![def(&["rm"])]);
    let i = inv("rm", &["-rf", "/"]);
    for _ in 0..3 {
        assert_eq!(check_deny(&c, &i), Err(SimError::Denied));
        assert!(!check_safe(&c, &i));
    }
    let j = inv("ls", &["/tmp"]);
    for _ in 0..3 {
        assert_eq!(check_deny(&c, &j), Ok(()));
        assert!(check_safe(&c, &j));
    }
}

#[test]
fn check_admin_requires_membership() {
    assert_eq!(check_admin(10, &[4, 10, 27], "alice".to_string()), Ok(()));
    assert_eq!(
        check_admin(10, &[4, 27], "bob".to_string()),
        Err(SimError::NotAdmin { user: "bob".to_string() })
    );
    assert_eq!(
        check_admin(10, &[], "carol".to_string()),
        Err(SimError::NotAdmin { user: "carol".to_string() })
    );
}
