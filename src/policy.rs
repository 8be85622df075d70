//! Who may invoke the wrapper, and which commands need no approval or are
//! refused outright.
use vstd::prelude::*;
use vstd::utf8::*;

use crate::config::{any_lists, CommandDefinition, Invocation, SimConfig};
use crate::error::SimError;
use crate::handshake::is_member;

verus! {

broadcast use vstd::utf8::encode_utf8_decode_utf8;

/// Compares two strings character by character, through their UTF-8 bytes.
pub fn str_equal(a: &str, b: &str) -> (r: bool)
    ensures
        r == (a@ == b@),
{
    let x = a.as_bytes();
    let y = b.as_bytes();
    proof {
        if a@ == b@ {
            assert(x@ == y@);
        }
    }
    if x.len() != y.len() {
        proof {
            if a@ == b@ {
                assert(false);
            }
        }
        return false;
    }
    let mut i: usize = 0;
    while i < x.len()
        invariant
            x@.len() == y@.len(),
            x@ == encode_utf8(a@),
            y@ == encode_utf8(b@),
            0 <= i <= x@.len(),
            forall|j: int| 0 <= j < i ==> x@[j] == y@[j],
        decreases x@.len() - i,
    {
        if x[i] != y[i] {
            proof {
                if a@ == b@ {
                    assert(false);
                }
            }
            return false;
        }
        i = i + 1;
    }
    assert(x@ =~= y@);
    assert(decode_utf8(encode_utf8(a@)) == a@);
    assert(decode_utf8(encode_utf8(b@)) == b@);
    true
}

/// Whether `def` applies to the program `cmd` run with `args`.
///
/// The decision is by program name alone; `args` is the place where
/// argument-aware rules will plug in.
pub fn match_command(def: &CommandDefinition, cmd: &str, args: &[&str]) -> (r: bool)
    ensures
        r == def.lists(cmd@),
{
    let mut i: usize = 0;
    while i < def.command.len()
        invariant
            0 <= i <= def.command@.len(),
            forall|j: int| 0 <= j < i ==> def.command@[j]@ != cmd@,
        decreases def.command@.len() - i,
    {
        if str_equal(def.command[i].as_str(), cmd) {
            return true;
        }
        i = i + 1;
    }
    false
}

/// Whether some definition of `defs` applies to the invocation.
fn any_match(defs: &Vec<CommandDefinition>, inv: &Invocation) -> (r: bool)
    ensures
        r == any_lists(defs@, inv.command@),
{
    let mut args: Vec<&str> = Vec::new();
    let mut k: usize = 0;
    while k < inv.args.len()
        invariant
            0 <= k <= inv.args@.len(),
            args@.len() == k,
        decreases inv.args@.len() - k,
    {
        args.push(inv.args[k].as_str());
        k = k + 1;
    }
    let mut i: usize = 0;
    while i < defs.len()
        invariant
            0 <= i <= defs@.len(),
            forall|j: int| 0 <= j < i ==> !(#[trigger] defs@[j]).lists(inv.command@),
        decreases defs@.len() - i,
    {
        if match_command(&defs[i], inv.command.as_str(), args.as_slice()) {
            return true;
        }
        i = i + 1;
    }
    false
}

/// Whether the invocation may run without approval.
pub fn check_safe(config: &SimConfig, inv: &Invocation) -> (r: bool)
    ensures
        r == config.deems_safe(inv),
{
    any_match(&config.safe_command, inv)
}

/// Refuses an invocation that a deny entry matches.
pub fn check_deny(config: &SimConfig, inv: &Invocation) -> (r: Result<(), SimError>)
    ensures
        r is Err <==> config.denies(inv),
        r matches Err(e) ==> e == SimError::Denied,
{
    if any_match(&config.deny_command, inv) {
        Err(SimError::Denied)
    } else {
        Ok(())
    }
}

/// Admits the invoker only if the admin group is among its groups.
pub fn check_admin(admin_gid: u32, groups: &[u32], user: String) -> (r: Result<(), SimError>)
    ensures
        r == if groups@.contains(admin_gid) {
            Ok::<(), SimError>(())
        } else {
            Err(SimError::NotAdmin { user })
        },
{
    if is_member(admin_gid, groups) {
        Ok(())
    } else {
        Err(SimError::NotAdmin { user })
    }
}

/// The policy decisions depend on the deny and safe lists and on the
/// program name alone: two invocations with the same program name, whatever
/// their arguments, under two configurations with the same lists, get the
/// same decisions, call after call.
pub proof fn lemma_policy_is_pure(c1: SimConfig, i1: Invocation, c2: SimConfig, i2: Invocation)
    requires
        c1.deny_command@ == c2.deny_command@,
        c1.safe_command@ == c2.safe_command@,
        i1.command@ == i2.command@,
    ensures
        c1.denies(&i1) == c2.denies(&i2),
        c1.deems_safe(&i1) == c2.deems_safe(&i2),
{
}

} // verus!
