//! Naming and permissions of the per-invocation rendezvous socket.
use vstd::prelude::*;
use vstd::string::*;

verus! {

/// Length of the random name of a rendezvous socket.
pub const TOKEN_LEN: usize = 16;

/// Permission bits of a rendezvous socket: read and write for its owner and
/// its group, nothing for others.
pub const SOCKET_MODE: u32 = 0o660;

/// Owner of a rendezvous socket: root.
pub const SOCKET_OWNER: u32 = 0;

/// Length of the queue of pending approver connections.
pub const LISTEN_BACKLOG: i32 = 5;

/// An ASCII letter or digit.
pub open spec fn is_token_char(c: char) -> bool {
    ('A' <= c && c <= 'Z') || ('a' <= c && c <= 'z') || ('0' <= c && c <= '9')
}

/// A possible name of a rendezvous socket.
pub open spec fn is_token(t: Seq<char>) -> bool {
    t.len() == TOKEN_LEN && forall|i: int| 0 <= i < t.len() ==> is_token_char(#[trigger] t[i])
}

/// The path of the socket named `token` in `sock_dir`.
pub open spec fn socket_path(sock_dir: Seq<char>, token: Seq<char>) -> Seq<char> {
    sock_dir + seq!['/'] + token
}

/// Relies on rand's `Alphanumeric` distribution drawn from `thread_rng`:
/// `length` characters, each an ASCII letter or digit, picked uniformly by
/// rejection sampling.
#[verifier::external_body]
fn generate_random_filename(length: usize) -> (r: String)
    ensures
        r@.len() == length,
        forall|i: int| 0 <= i < length ==> is_token_char(#[trigger] r@[i]),
{
    rand::distributions::DistString::sample_string(
        &rand::distributions::Alphanumeric,
        &mut rand::thread_rng(),
        length,
    )
}

/// Joins a socket directory and a socket name.
pub fn rendezvous_path(sock_dir: &str, token: &str) -> (r: String)
    ensures
        r@ == socket_path(sock_dir@, token@),
{
    let mut path = sock_dir.to_owned();
    path.append("/");
    path.append(token);
    proof {
        reveal_strlit("/");
    }
    assert(path@ =~= socket_path(sock_dir@, token@));
    path
}

/// Picks a fresh random name in `sock_dir`: the path of the socket and its
/// name.
pub fn new_rendezvous(sock_dir: &str) -> (r: (String, String))
    ensures
        is_token(r.1@),
        r.0@ == socket_path(sock_dir@, r.1@),
{
    let token = generate_random_filename(TOKEN_LEN);
    let path = rendezvous_path(sock_dir, token.as_str());
    (path, token)
}

} // verus!
