use sim::handshake::{check_peer, check_write, interpret_reply, is_member, HandshakeError, MAX_REPLY_SIZE};
use sim::messages::{encode_response, ApprovalResponse};

fn reply(approved: Option<bool>, comment: Option<&str>) -> Vec<u8> {
    encode_response(&ApprovalResponse { id: None, approved, comment: comment.map(|c| c.to_string()) })
}

#[test]
fn reply_size_limit() {
    assert_eq!(MAX_REPLY_SIZE, 40960);
}

#[test]
fn membership() {
    assert!(is_member(3, &[1, 2, 3]));
    assert!(!is_member(4, &[1, 2, 3]));
    assert!(!is_member(0, &[]));
}

#[test]
fn peer_must_be_an_approver() {
    assert_eq!(check_peer(500, 1000, 1001, 100, &[100, 20]), Err(HandshakeError::NotApprover));
    assert_eq!(check_peer(500, 1000, 1001, 100, &[]), Err(HandshakeError::NotApprover));
}

#[test]
fn peer_through_primary_or_other_groups() {
    assert_eq!(check_peer(500, 1000, 1001, 500, &[]), Ok(()));
    assert_eq!(check_peer(500, 1000, 1001, 100, &[100, 500]), Ok(()));
}

#[test]
fn invoker_cannot_approve() {
    assert_eq!(check_peer(500, 1000, 1000, 500, &[500]), Err(HandshakeError::SelfApproval));
}

#[test]
fn short_write() {
    assert_eq!(check_write(10, 10), Ok(()));
    assert_eq!(check_write(4, 10), Err(HandshakeError::ShortWrite { written: 4, expected: 10 }));
}

#[test]
fn reply_verdicts() {
    assert_eq!(interpret_reply(&reply(Some(true), None)), Ok(()));
    assert_eq!(interpret_reply(&reply(Some(false), None)), Err(HandshakeError::Rejected));
    assert_eq!(interpret_reply(&reply(None, None)), Err(HandshakeError::NullResponse));
    assert_eq!(
        interpret_reply(&reply(Some(true), Some("wrong window"))),
        Err(HandshakeError::Commented { comment: "wrong window".to_string() })
    );
    // An empty comment does not refuse.
    assert_eq!(interpret_reply(&reply(Some(true), Some(""))), Ok(()));
    assert_eq!(interpret_reply(&reply(None, Some(""))), Err(HandshakeError::NullResponse));
    assert_eq!(interpret_reply(&[0x0a, 0x09]), Err(HandshakeError::Malformed));
    assert_eq!(interpret_reply(&[]), Err(HandshakeError::NullResponse));
    // An unknown group after the verdict is skipped.
    assert_eq!(interpret_reply(&[16, 1, 35, 36]), Ok(()));
    assert_eq!(interpret_reply(&[16, 1, 35, 8, 0, 36, 26, 0]), Ok(()));
}
