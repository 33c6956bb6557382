//! The account that cloud features use.

use vstd::prelude::*;
use vstd::string::*;

use crate::error::{ErrorView, KexshError, Result};
use crate::paths;

verus! {

/// A login: the token and the server that issued it.
#[derive(Debug, Clone, PartialEq, Eq)]
pub struct Credential {
    pub token: String,
    pub server_url: String,
}

/// What became of reading the credentials file.
#[derive(Debug)]
pub enum CredentialFile {
    /// There is no file, or it could not be read.
    Unreadable,
    /// The file does not hold credentials, for the reason given.
    Malformed(String),
    Read(Credential),
}

/// The step of saving credentials that failed, with the reason.
#[derive(Debug)]
pub enum SaveFailure {
    CreateDir(String),
    Serialize(String),
    Write(String),
    Permissions(String),
}

/// The credentials file: below the configuration directory where that is set, else below
/// `.config` in the home directory.
pub open spec fn credential_path_in(
    config_home: Option<Seq<char>>,
    home: Option<Seq<char>>,
) -> Seq<char> {
    let dir = match config_home {
        Some(dir) => dir,
        None => paths::joined(
            match home {
                Some(home) => home,
                None => "~"@,
            },
            ".config"@,
        ),
    };
    paths::joined(dir, "kexsh/credentials.json"@)
}

/// Where the credentials file is, given the directories that the environment names.
pub fn credential_path(config_home: Option<&str>, home: Option<&str>) -> (path: String)
    ensures
        path@ == credential_path_in(
            match config_home {
                Some(dir) => Some(dir@),
                None => None,
            },
            match home {
                Some(dir) => Some(dir@),
                None => None,
            },
        ),
{
    match config_home {
        Some(dir) => paths::join(dir, "kexsh/credentials.json"),
        None => {
            let home = match home {
                Some(home) => home,
                None => "~",
            };
            let dir = paths::join(home, ".config");
            paths::join(dir.as_str(), "kexsh/credentials.json")
        },
    }
}

/// The credentials for what became of reading their file.
pub fn load(file: CredentialFile) -> (credential: Result<Credential>)
    ensures
        match file {
            CredentialFile::Unreadable => credential matches Err(error) && error@
                == ErrorView::Config("not logged in — run `kexsh login`"@),
            CredentialFile::Malformed(reason) => credential matches Err(error) && error@
                == ErrorView::Config("invalid credentials: "@ + reason@),
            CredentialFile::Read(read) => credential == Ok::<Credential, KexshError>(read),
        },
{
    match file {
        CredentialFile::Unreadable => Err(
            KexshError::Config("not logged in — run `kexsh login`".to_owned()),
        ),
        CredentialFile::Malformed(reason) => Err(
            KexshError::Config("invalid credentials: ".to_owned().concat(reason.as_str())),
        ),
        CredentialFile::Read(credential) => Ok(credential),
    }
}

/// The result of saving credentials, by the step that failed.
pub fn save(outcome: std::result::Result<(), SaveFailure>) -> (saved: Result<()>)
    ensures
        outcome is Ok ==> saved is Ok,
        outcome matches Err(failure) ==> saved matches Err(error) && error@ == ErrorView::Config(
            match failure {
                SaveFailure::CreateDir(reason) => "cannot create config dir: "@ + reason@,
                SaveFailure::Serialize(reason) => "serialize error: "@ + reason@,
                SaveFailure::Write(reason) => "cannot write credentials: "@ + reason@,
                SaveFailure::Permissions(reason) => "cannot set permissions: "@ + reason@,
            },
        ),
{
    match outcome {
        Ok(()) => Ok(()),
        Err(failure) => {
            let message = match failure {
                SaveFailure::CreateDir(reason) => "cannot create config dir: ".to_owned().concat(
                    reason.as_str(),
                ),
                SaveFailure::Serialize(reason) => "serialize error: ".to_owned().concat(
                    reason.as_str(),
                ),
                SaveFailure::Write(reason) => "cannot write credentials: ".to_owned().concat(
                    reason.as_str(),
                ),
                SaveFailure::Permissions(reason) => "cannot set permissions: ".to_owned().concat(
                    reason.as_str(),
                ),
            };
            Err(KexshError::Config(message))
        },
    }
}

/// The result of removing credentials.
pub fn remove(outcome: std::result::Result<(), String>) -> (removed: Result<()>)
    ensures
        outcome is Ok ==> removed is Ok,
        outcome matches Err(reason) ==> removed matches Err(error) && error@ == ErrorView::Config(
            "cannot remove credentials: "@ + reason@,
        ),
{
    match outcome {
        Ok(()) => Ok(()),
        Err(reason) => Err(
            KexshError::Config("cannot remove credentials: ".to_owned().concat(reason.as_str())),
        ),
    }
}

/// The credentials file lies below the configuration directory where that is set, and the
/// home directory does not matter then; else below `.config` in the home directory, or in
/// `~` where that is not known either.
pub proof fn credentials_lie_below_the_configuration(dir: Seq<char>, home: Option<Seq<char>>)
    ensures
        dir.is_prefix_of(credential_path_in(Some(dir), home)),
        credential_path_in(Some(dir), home) == credential_path_in(Some(dir), None),
        "kexsh/credentials.json"@.is_suffix_of(credential_path_in(Some(dir), home)),
        credential_path_in(None, Some(dir)) == credential_path_in(
            Some(paths::joined(dir, ".config"@)),
            home,
        ),
        credential_path_in(None, None) == credential_path_in(None, Some("~"@)),
{
    paths::joined_paths_are_below(dir, "kexsh/credentials.json"@);
}

/// Credentials that were read are given as they were read; any other file is an error, and one
/// that does not hold credentials says why.
pub proof fn credentials_are_given_as_read(
    read: Credential,
    given: Result<Credential>,
    reason: String,
    malformed: Result<Credential>,
    unreadable: Result<Credential>,
)
    requires
        call_ensures(load, (CredentialFile::Read(read),), given),
        call_ensures(load, (CredentialFile::Malformed(reason),), malformed),
        call_ensures(load, (CredentialFile::Unreadable,), unreadable),
    ensures
        (given matches Ok(credential) && credential.token@ == read.token@
            && credential.server_url@ == read.server_url@),
        (malformed matches Err(error) && error@.message() == "Config error: "@ + (
        "invalid credentials: "@ + reason@)),
        (unreadable matches Err(error) && error@.message() == "Config error: "@
            + "not logged in — run `kexsh login`"@),
{
}

/// Saving and removing succeed exactly where every step did, and a step that failed is told
/// with its reason.
pub proof fn failed_steps_are_told(
    saving: std::result::Result<(), SaveFailure>,
    saved: Result<()>,
    removing: std::result::Result<(), String>,
    removed: Result<()>,
)
    requires
        call_ensures(save, (saving,), saved),
        call_ensures(remove, (removing,), removed),
    ensures
        saved is Ok <==> saving is Ok,
        removed is Ok <==> removing is Ok,
        saving matches Err(SaveFailure::CreateDir(reason)) ==> (saved matches Err(error)
            && error@.message() == "Config error: "@ + ("cannot create config dir: "@ + reason@)),
        saving matches Err(SaveFailure::Serialize(reason)) ==> (saved matches Err(error)
            && error@.message() == "Config error: "@ + ("serialize error: "@ + reason@)),
        saving matches Err(SaveFailure::Write(reason)) ==> (saved matches Err(error)
            && error@.message() == "Config error: "@ + ("cannot write credentials: "@ + reason@)),
        saving matches Err(SaveFailure::Permissions(reason)) ==> (saved matches Err(error)
            && error@.message() == "Config error: "@ + ("cannot set permissions: "@ + reason@)),
        removing matches Err(reason) ==> (removed matches Err(error) && error@.message()
            == "Config error: "@ + ("cannot remove credentials: "@ + reason@)),
{
}

} // verus!
