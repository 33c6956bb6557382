//! The file that names the running server's process.

use vstd::prelude::*;
use vstd::string::*;

use crate::error::{ErrorView, KexshError, Result};
use crate::ipc;
use crate::paths;
use crate::text;

verus! {

/// The pid file of a user's server.
pub open spec fn pid_path_of(uid: u32) -> Seq<char> {
    paths::joined(ipc::socket_dir_of(uid), "kexsh.pid"@)
}

/// The pid file of the server of user `uid`.
pub fn pid_path_for(uid: u32) -> (path: String)
    ensures
        path@ == pid_path_of(uid),
{
    paths::join(ipc::socket_dir_for(uid).as_str(), "kexsh.pid")
}

/// The pid file of the current user's server.
pub fn pid_path() -> (path: String)
    ensures
        exists|uid: u32| path@ == #[trigger] pid_path_of(uid),
{
    let dir = ipc::socket_dir();
    let path = paths::join(dir.as_str(), "kexsh.pid");
    proof {
        let uid = choose|uid: u32| dir@ == #[trigger] ipc::socket_dir_of(uid);
        assert(path@ == pid_path_of(uid));
    }
    path
}

/// What a pid file should hold for the server process `pid`.
pub fn pid_text(pid: u32) -> (content: String)
    ensures
        content@ == text::decimal(pid as nat),
{
    let mut content = String::new();
    text::push_decimal(&mut content, pid as u64);
    proof {
        assert(content@ =~= text::decimal(pid as nat));
    }
    content
}

/// The process id that a pid file names, given its content: none where there is no file,
/// an error where the content, blanks at its ends aside, is not a number below 2^32.
pub open spec fn pid_in_file(content: Option<Seq<char>>) -> std::result::Result<
    Option<u32>,
    ErrorView,
> {
    match content {
        None => Ok(None),
        Some(content) => match text::u32_value(text::trimmed(content)) {
            Some(pid) => Ok(Some(pid)),
            None => Err(
                ErrorView::Server(
                    "invalid pid file: "@ + text::u32_complaint(text::trimmed(content)),
                ),
            ),
        },
    }
}

/// Reads the process id out of a pid file's content.
pub fn read_pid(content: Option<&str>) -> (pid: Result<Option<u32>>)
    ensures
        pid matches Ok(found) ==> pid_in_file(
            match content {
                Some(c) => Some(c@),
                None => None,
            },
        ) == Ok::<Option<u32>, ErrorView>(found),
        pid matches Err(error) ==> pid_in_file(
            match content {
                Some(c) => Some(c@),
                None => None,
            },
        ) == Err::<Option<u32>, ErrorView>(error@),
{
    match content {
        None => Ok(None),
        Some(content) => match text::parse_u32(text::trim(content)) {
            Ok(pid) => Ok(Some(pid)),
            Err(complaint) => Err(
                KexshError::Server("invalid pid file: ".to_owned().concat(complaint.as_str())),
            ),
        },
    }
}

/// The process to probe for a running server, as the system numbers processes, given what
/// the pid file says; none where it names no process. A number past the range of the
/// system's wraps around.
pub fn probe_target(read: &Result<Option<u32>>) -> (target: Option<i32>)
    ensures
        match *read {
            Ok(Some(pid)) => target matches Some(raw) && (if pid <= i32::MAX {
                raw == pid
            } else {
                raw == pid - 0x1_0000_0000
            }),
            _ => target is None,
        },
{
    match read {
        Ok(Some(pid)) => {
            let pid: u32 = *pid;
            let raw: i32 = #[verifier::truncate]
            (pid as i32);
            proof {
                assert(pid <= 0x7fff_ffffu32 ==> pid as i32 == pid) by (bit_vector);
                assert(pid > 0x7fff_ffffu32 ==> pid as i32 == pid - 0x1_0000_0000) by (bit_vector);
            }
            Some(raw)
        },
        _ => None,
    }
}

/// A pid file gives back the process id it was written for.
pub proof fn written_pid_is_read(pid: u32)
    ensures
        pid_in_file(Some(text::decimal(pid as nat))) == Ok::<Option<u32>, ErrorView>(Some(pid)),
{
    let content = text::decimal(pid as nat);
    text::decimal_stands_for_the_number(pid as nat);
    assert(vstd::utf8::is_ascii_chars(content));
    assert(!text::is_blank(content[0]) && !text::is_blank(content.last()));
    text::trimmed_stays_ascii(content);
    assert(content[0] != '+');
}

/// White space before or after the number, such as the newline that an editor leaves, makes
/// no difference.
pub proof fn blanks_are_ignored(content: Seq<char>, blank: char)
    requires
        text::is_blank(blank),
    ensures
        pid_in_file(Some(seq![blank] + content)) == pid_in_file(Some(content)),
        pid_in_file(Some(content.push(blank))) == pid_in_file(Some(content)),
{
    text::trimmed_ignores_blanks(content, blank);
}

/// The pid file lies in the user's own directory.
pub proof fn pid_file_lies_with_the_socket(uid: u32)
    ensures
        ipc::socket_dir_of(uid).is_prefix_of(pid_path_of(uid)),
        "kexsh.pid"@.is_suffix_of(pid_path_of(uid)),
        pid_path_of(uid).len() == ipc::socket_dir_of(uid).len() + 1 + "kexsh.pid"@.len(),
{
    let own = text::decimal(uid as nat);
    text::decimal_stands_for_the_number(uid as nat);
    assert(ipc::socket_dir_of(uid).last() == own.last());
    assert('0' <= own[own.len() - 1] <= '9');
    paths::joined_paths_are_below(ipc::socket_dir_of(uid), "kexsh.pid"@);
}

/// A pid file that is not there names no process; one that holds a number below 2^32, with
/// or without a plus sign, names that process; any other is refused with the reason.
pub proof fn pid_files_hold_numbers(content: Seq<char>)
    ensures
        pid_in_file(None) == Ok::<Option<u32>, ErrorView>(None),
        ({
            let s = text::trimmed(content);
            let digits = if s.len() > 0 && s[0] == '+' {
                s.skip(1)
            } else {
                s
            };
            let held = digits.len() > 0 && text::all_digits(digits) && text::digits_value(digits)
                < 0x1_0000_0000;
            pid_in_file(Some(content)) == if held {
                Ok::<Option<u32>, ErrorView>(Some(text::digits_value(digits) as u32))
            } else {
                Err(ErrorView::Server("invalid pid file: "@ + text::u32_complaint(s)))
            }
        }),
{
}

/// The process id that was written to a pid file is the one that is read out of it and, where
/// the system can number a process so, the one that is probed. Without a file none is.
pub proof fn the_server_itself_is_probed(
    pid: u32,
    written: String,
    content: &str,
    read: Result<Option<u32>>,
    target: Option<i32>,
    nothing: Result<Option<u32>>,
    nobody: Option<i32>,
)
    requires
        call_ensures(pid_text, (pid,), written),
        content@ == written@,
        call_ensures(read_pid, (Some(content),), read),
        call_ensures(probe_target, (&read,), target),
        call_ensures(read_pid, (None,), nothing),
        call_ensures(probe_target, (&nothing,), nobody),
    ensures
        read == Ok::<Option<u32>, KexshError>(Some(pid)),
        pid < 0x8000_0000 ==> target == Some(pid as i32),
        nothing == Ok::<Option<u32>, KexshError>(None),
        nobody is None,
{
    written_pid_is_read(pid);
}

} // verus!
