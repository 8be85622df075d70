//! The verdicts of one approver connection: who may see the request, and
//! what the reply means.
use vstd::prelude::*;

use crate::messages::{decode_response, response_from_bytes, ResponseModel};

verus! {

/// Most bytes read from an approver's reply.
pub const MAX_REPLY_SIZE: usize = 40960;

/// Why one approver connection did not approve. None of these ends the wait
/// for an approver.
#[derive(Debug, Clone, PartialEq, Eq)]
pub enum HandshakeError {
    /// The peer's groups do not include the approver group.
    NotApprover,
    /// The peer is the invoker.
    SelfApproval,
    /// The peer's identity could not be resolved.
    UnknownPeer,
    /// The request did not go out in one packet.
    ShortWrite { written: usize, expected: usize },
    /// Sending or receiving failed.
    Transport,
    /// The reply could not be read as a response.
    Malformed,
    /// The reply refused, giving a reason.
    Commented { comment: String },
    /// The reply carried no verdict.
    NullResponse,
    /// The reply refused.
    Rejected,
}

/// A [`HandshakeError`] as a mathematical value.
pub enum HandshakeErrorView {
    NotApprover,
    SelfApproval,
    UnknownPeer,
    ShortWrite { written: usize, expected: usize },
    Transport,
    Malformed,
    Commented { comment: Seq<char> },
    NullResponse,
    Rejected,
}

impl View for HandshakeError {
    type V = HandshakeErrorView;

    open spec fn view(&self) -> HandshakeErrorView {
        match *self {
            HandshakeError::NotApprover => HandshakeErrorView::NotApprover,
            HandshakeError::SelfApproval => HandshakeErrorView::SelfApproval,
            HandshakeError::UnknownPeer => HandshakeErrorView::UnknownPeer,
            HandshakeError::ShortWrite { written, expected } => HandshakeErrorView::ShortWrite {
                written,
                expected,
            },
            HandshakeError::Transport => HandshakeErrorView::Transport,
            HandshakeError::Malformed => HandshakeErrorView::Malformed,
            HandshakeError::Commented { comment } => HandshakeErrorView::Commented {
                comment: comment@,
            },
            HandshakeError::NullResponse => HandshakeErrorView::NullResponse,
            HandshakeError::Rejected => HandshakeErrorView::Rejected,
        }
    }
}

/// `gid` is the peer's primary group or one of its other groups.
pub open spec fn in_groups(gid: u32, primary: u32, groups: Seq<u32>) -> bool {
    gid == primary || groups.contains(gid)
}

/// Whether `gid` is among `groups`.
pub fn is_member(gid: u32, groups: &[u32]) -> (r: bool)
    ensures
        r == groups@.contains(gid),
{
    let mut i: usize = 0;
    while i < groups.len()
        invariant
            0 <= i <= groups@.len(),
            forall|j: int| 0 <= j < i ==> groups@[j] != gid,
        decreases groups@.len() - i,
    {
        if groups[i] == gid {
            assert(groups@[i as int] == gid);
            return true;
        }
        i = i + 1;
    }
    false
}

/// Why the peer may not receive the request, or `None` if it may.
pub open spec fn peer_outcome(
    approver_gid: u32,
    invoker_uid: u32,
    peer_uid: u32,
    peer_gid: u32,
    peer_groups: Seq<u32>,
) -> Option<HandshakeErrorView> {
    if !in_groups(approver_gid, peer_gid, peer_groups) {
        Some(HandshakeErrorView::NotApprover)
    } else if peer_uid == invoker_uid {
        Some(HandshakeErrorView::SelfApproval)
    } else {
        None
    }
}

/// Decides whether the peer of a connection may receive the request: it
/// must belong to the approver group, through its primary group or its
/// other groups, and must not be the invoker.
pub fn check_peer(
    approver_gid: u32,
    invoker_uid: u32,
    peer_uid: u32,
    peer_gid: u32,
    peer_groups: &[u32],
) -> (r: Result<(), HandshakeError>)
    ensures
        !in_groups(approver_gid, peer_gid, peer_groups@) ==> r == Err::<(), HandshakeError>(
            HandshakeError::NotApprover,
        ),
        in_groups(approver_gid, peer_gid, peer_groups@) && peer_uid == invoker_uid ==> r == Err::<
            (),
            HandshakeError,
        >(HandshakeError::SelfApproval),
        r is Ok <==> in_groups(approver_gid, peer_gid, peer_groups@) && peer_uid != invoker_uid,
        match r {
            Ok(()) => peer_outcome(approver_gid, invoker_uid, peer_uid, peer_gid, peer_groups@) is None,
            Err(e) => peer_outcome(approver_gid, invoker_uid, peer_uid, peer_gid, peer_groups@)
                == Some(e@),
        },
{
    if approver_gid != peer_gid && !is_member(approver_gid, peer_groups) {
        return Err(HandshakeError::NotApprover);
    }
    if peer_uid == invoker_uid {
        return Err(HandshakeError::SelfApproval);
    }
    Ok(())
}

/// The request went out whole only if every byte was written in one send.
pub fn check_write(written: usize, expected: usize) -> (r: Result<(), HandshakeError>)
    ensures
        written == expected ==> r is Ok,
        written != expected ==> r == Err::<(), HandshakeError>(
            HandshakeError::ShortWrite { written, expected },
        ),
{
    if written != expected {
        Err(HandshakeError::ShortWrite { written, expected })
    } else {
        Ok(())
    }
}

/// What a well-formed response says: a non-empty comment refuses with that
/// reason; otherwise the verdict decides, and a missing verdict is an error.
pub open spec fn verdict_ok(m: ResponseModel) -> bool {
    !(m.comment matches Some(c) && c.len() > 0) && m.approved == Some(true)
}

/// Why a reply does not approve, or `None` if it approves.
pub open spec fn reply_outcome(reply: Seq<u8>) -> Option<HandshakeErrorView> {
    match response_from_bytes(reply) {
        None => Some(HandshakeErrorView::Malformed),
        Some(m) => if m.comment matches Some(c) && c.len() > 0 {
            Some(HandshakeErrorView::Commented { comment: m.comment->Some_0 })
        } else if m.approved is None {
            Some(HandshakeErrorView::NullResponse)
        } else if m.approved == Some(false) {
            Some(HandshakeErrorView::Rejected)
        } else {
            None
        },
    }
}

/// Reads the approver's reply and says whether it approves.
pub fn interpret_reply(reply: &[u8]) -> (r: Result<(), HandshakeError>)
    ensures
        response_from_bytes(reply@) is None ==> r == Err::<(), HandshakeError>(
            HandshakeError::Malformed,
        ),
        response_from_bytes(reply@) matches Some(m) ==> {
            if m.comment matches Some(c) && c.len() > 0 {
                r matches Err(HandshakeError::Commented { comment }) && Some(comment@) == m.comment
            } else if m.approved is None {
                r == Err::<(), HandshakeError>(HandshakeError::NullResponse)
            } else if m.approved == Some(false) {
                r == Err::<(), HandshakeError>(HandshakeError::Rejected)
            } else {
                r is Ok
            }
        },
        r is Ok <==> (response_from_bytes(reply@) matches Some(m) && verdict_ok(m)),
        match r {
            Ok(()) => reply_outcome(reply@) is None,
            Err(e) => reply_outcome(reply@) == Some(e@),
        },
{
    let resp = match decode_response(reply) {
        Some(m) => m,
        None => return Err(HandshakeError::Malformed),
    };
    match resp.comment {
        Some(comment) => {
            if !comment.as_str().is_empty() {
                return Err(HandshakeError::Commented { comment });
            }
        },
        None => {},
    }
    match resp.approved {
        None => Err(HandshakeError::NullResponse),
        Some(yes) => {
            if yes {
                Ok(())
            } else {
                Err(HandshakeError::Rejected)
            }
        },
    }
}

} // verus!
