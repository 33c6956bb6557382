//! Talking to the server: message types, framing, and where its socket lives.

pub mod client;
pub mod codec;
pub mod codec_laws;
pub mod message;
pub mod mux;
pub mod stream_laws;
pub mod wire_laws;

use vstd::prelude::*;
use vstd::string::*;

use crate::paths;
use crate::text;

verus! {

/// The directory of a user's server.
pub open spec fn socket_dir_of(uid: u32) -> Seq<char> {
    "/tmp/kexsh-"@ + text::decimal(uid as nat)
}

/// The socket of a user's server.
pub open spec fn socket_path_of(uid: u32) -> Seq<char> {
    paths::joined(socket_dir_of(uid), "kexsh.sock"@)
}

/// `nix::unistd::getuid` gives the real user id of the process. Which one it is, is left
/// open.
#[verifier::external_body]
fn current_uid() -> (uid: u32)
{
    nix::unistd::getuid().as_raw()
}

/// The directory that holds the socket and the pid file of the server of user `uid`.
pub fn socket_dir_for(uid: u32) -> (dir: String)
    ensures
        dir@ == socket_dir_of(uid),
{
    let mut dir = "/tmp/kexsh-".to_owned();
    text::push_decimal(&mut dir, uid as u64);
    dir
}

/// The socket of the server of user `uid`.
pub fn socket_path_for(uid: u32) -> (path: String)
    ensures
        path@ == socket_path_of(uid),
{
    paths::join(socket_dir_for(uid).as_str(), "kexsh.sock")
}

/// The directory that holds the socket and the pid file of the current user's server.
pub fn socket_dir() -> (dir: String)
    ensures
        exists|uid: u32| dir@ == #[trigger] socket_dir_of(uid),
{
    socket_dir_for(current_uid())
}

/// The socket of the current user's server.
pub fn socket_path() -> (path: String)
    ensures
        exists|uid: u32| path@ == #[trigger] socket_path_of(uid),
{
    socket_path_for(current_uid())
}

/// Users do not share a directory, and the socket lies in the user's own.
pub proof fn every_user_has_a_directory(uid: u32, other: u32)
    ensures
        socket_dir_of(uid) == socket_dir_of(other) ==> uid == other,
        "/tmp/kexsh-"@.is_prefix_of(socket_dir_of(uid)),
        socket_dir_of(uid).skip("/tmp/kexsh-"@.len() as int) == text::decimal(uid as nat),
        socket_dir_of(uid).is_prefix_of(socket_path_of(uid)),
        "kexsh.sock"@.is_suffix_of(socket_path_of(uid)),
        socket_path_of(uid).len() == socket_dir_of(uid).len() + 1 + "kexsh.sock"@.len(),
{
    let lead = "/tmp/kexsh-"@;
    let own = text::decimal(uid as nat);
    assert(socket_dir_of(uid).skip(lead.len() as int) =~= own);
    assert(socket_dir_of(other).skip(lead.len() as int) =~= text::decimal(other as nat));
    if socket_dir_of(uid) == socket_dir_of(other) {
        text::decimal_tells_numbers_apart(uid as nat, other as nat);
    }
    text::decimal_stands_for_the_number(uid as nat);
    assert(socket_dir_of(uid).last() == own.last());
    assert('0' <= own[own.len() - 1] <= '9');
    paths::joined_paths_are_below(socket_dir_of(uid), "kexsh.sock"@);
}

} // verus!
