//! Building the request shown to the approver.
use vstd::prelude::*;

use crate::config::Invocation;
use crate::messages::{all_chars, ApprovalRequest, Command, CommandModel, RequestModel};

verus! {

/// The argument vector of an invocation: the program name, then its
/// arguments.
pub fn argv(inv: &Invocation) -> (r: Vec<String>)
    ensures
        all_chars(r@) == seq![inv.command@] + all_chars(inv.args@),
{
    let mut r: Vec<String> = Vec::new();
    r.push(inv.command.clone());
    let mut i: usize = 0;
    while i < inv.args.len()
        invariant
            0 <= i <= inv.args@.len(),
            all_chars(r@) == seq![inv.command@] + all_chars(inv.args@.take(i as int)),
        decreases inv.args@.len() - i,
    {
        let ghost before = r@;
        r.push(inv.args[i].clone());
        assert(all_chars(r@) =~= all_chars(before).push(inv.args@[i as int]@));
        assert(all_chars(inv.args@.take(i + 1)) =~= all_chars(inv.args@.take(i as int)).push(
            inv.args@[i as int]@,
        ));
        assert(all_chars(r@) =~= seq![inv.command@] + all_chars(inv.args@.take(i + 1)));
        i = i + 1;
    }
    assert(inv.args@.take(i as int) =~= inv.args@);
    r
}

/// The request for an invocation, from what the process knows of itself:
/// the rendezvous name, the host name, the invoker's name and the working
/// directory. The environment is not forwarded.
pub open spec fn request_for(
    inv: Invocation,
    id: Seq<char>,
    host: Seq<char>,
    user: Seq<char>,
    cwd: Seq<char>,
) -> RequestModel {
    RequestModel {
        id: Some(id),
        host: Some(host),
        user: Some(user),
        command: Some(
            CommandModel {
                cwd: Some(cwd),
                command: Some(inv.command@),
                args: seq![inv.command@] + all_chars(inv.args@),
                environ: seq![],
            },
        ),
        justification: None,
    }
}

/// Builds the request for an invocation.
pub fn make_approve_request(
    inv: &Invocation,
    id: &str,
    host: String,
    user: String,
    cwd: String,
) -> (r: ApprovalRequest)
    ensures
        r@ == request_for(*inv, id@, host@, user@, cwd@),
{
    let command = Command {
        cwd: Some(cwd),
        command: Some(inv.command.clone()),
        args: argv(inv),
        environ: Vec::new(),
    };
    let r = ApprovalRequest {
        id: Some(id.to_owned()),
        host: Some(host),
        user: Some(user),
        command: Some(command),
        justification: None,
    };
    assert(all_chars(Seq::<String>::empty()) =~= Seq::<Seq<char>>::empty());
    r
}

} // verus!
