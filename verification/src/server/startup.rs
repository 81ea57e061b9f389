//! What is decided before the server starts.

use crate::log_file::{LogSettings, file_settings, names_file};
use crate::server::config::ServerConfig;
use crate::server::privileges::ProcessIds;
use crate::text::{decimal, push_decimal};
use vstd::prelude::*;

verus! {

/// How to log, by a configuration; without one everything is logged, and to no file.
pub fn log_settings(config: Option<&ServerConfig>) -> (s: LogSettings)
    ensures
        match config {
            None => s.enabled && !s.no_log && s.file is None,
            Some(c) => {
                &&& s.enabled == c.log_enabled
                &&& s.no_log == c.no_log
                &&& names_file(s.file, c.log_file, c.log_max_size_mb, c.log_max_files)
            },
        },
{
    match config {
        None => LogSettings { enabled: true, no_log: false, file: None },
        Some(c) => LogSettings {
            enabled: c.log_enabled,
            no_log: c.no_log,
            file: file_settings(&c.log_file, c.log_max_size_mb, c.log_max_files),
        },
    }
}

/// Whether the server may start: as root only when it is told whom to become, or when it is
/// allowed to stay root.
pub open spec fn may_start(ids: ProcessIds, run_as_user: bool, root_allowed: bool) -> bool {
    ids.uid != 0 || run_as_user || root_allowed
}

/// Refuses to start as root without a user to become.
pub fn check_root(ids: &ProcessIds, config: &ServerConfig, root_allowed: bool) -> (r: Result<
    (),
    String,
>)
    ensures
        match r {
            Ok(_) => may_start(*ids, config.run_as_user is Some, root_allowed),
            Err(m) => !may_start(*ids, config.run_as_user is Some, root_allowed) && m@
                == "Refusing to run as root without `server.run_as_user`. Set `run_as_user`/`run_as_group` or override with HPN_ALLOW_RUN_AS_ROOT=1 if you accept the risk."@,
        },
{
    if ids.uid == 0 && config.run_as_user.is_none() && !root_allowed {
        return Err(
            String::from_str(
                "Refusing to run as root without `server.run_as_user`. Set `run_as_user`/`run_as_group` or override with HPN_ALLOW_RUN_AS_ROOT=1 if you accept the risk.",
            ),
        );
    }
    Ok(())
}

/// A step of starting the server.
#[derive(Debug, Clone, Copy, PartialEq, Eq, Structural)]
pub enum StartStep {
    /// Load the signing keys.
    SigningKeys,
    /// Load the identity hiding keys, which may be missing.
    HidingKeys,
    /// Validate the configuration.
    Validate,
    /// Refuse to stay root.
    CheckRoot,
    /// Find the user and group to become.
    FindTarget,
    /// Create the server.
    Create,
    /// Create the TUN device and set up forwarding, for which privileges are needed.
    Initialize,
    /// Drop the privileges.
    DropPrivileges,
    /// Serve until told to stop.
    Run,
    /// The server was told to stop.
    Stopped,
    /// Something failed.
    Failed,
}

/// What follows a step that went well or not.
pub open spec fn after_start_step(s: StartStep, good: bool) -> StartStep {
    match s {
        StartStep::HidingKeys => StartStep::Validate,
        StartStep::Stopped => StartStep::Stopped,
        StartStep::Failed => StartStep::Failed,
        _ => if !good {
            StartStep::Failed
        } else {
            match s {
                StartStep::SigningKeys => StartStep::HidingKeys,
                StartStep::Validate => StartStep::CheckRoot,
                StartStep::CheckRoot => StartStep::FindTarget,
                StartStep::FindTarget => StartStep::Create,
                StartStep::Create => StartStep::Initialize,
                StartStep::Initialize => StartStep::DropPrivileges,
                StartStep::DropPrivileges => StartStep::Run,
                _ => StartStep::Stopped,
            }
        },
    }
}

/// What to do after a step of starting the server went well or not.
pub fn next_start_step(s: StartStep, good: bool) -> (n: StartStep)
    ensures
        n == after_start_step(s, good),
{
    match s {
        StartStep::HidingKeys => StartStep::Validate,
        StartStep::Stopped => StartStep::Stopped,
        StartStep::Failed => StartStep::Failed,
        _ => if !good {
            StartStep::Failed
        } else {
            match s {
                StartStep::SigningKeys => StartStep::HidingKeys,
                StartStep::Validate => StartStep::CheckRoot,
                StartStep::CheckRoot => StartStep::FindTarget,
                StartStep::FindTarget => StartStep::Create,
                StartStep::Create => StartStep::Initialize,
                StartStep::Initialize => StartStep::DropPrivileges,
                StartStep::DropPrivileges => StartStep::Run,
                _ => StartStep::Stopped,
            }
        },
    }
}

/// What is logged of identity hiding.
pub fn identity_hiding_line(level3: bool, level5: bool) -> (s: String)
    ensures
        s@ == (if level3 || level5 {
            "Identity hiding enabled: Level3="@ + flag(level3) + ", Level5="@ + flag(level5)
        } else {
            "Identity hiding: disabled (no KEM keypairs configured)"@
        }),
{
    if !level3 && !level5 {
        return String::from_str("Identity hiding: disabled (no KEM keypairs configured)");
    }
    let mut s = String::from_str("Identity hiding enabled: Level3=");
    s.append(
        if level3 {
            "true"
        } else {
            "false"
        },
    );
    s.append(", Level5=");
    s.append(
        if level5 {
            "true"
        } else {
            "false"
        },
    );
    s
}

/// The word for a flag.
pub open spec fn flag(b: bool) -> Seq<char> {
    if b {
        "true"@
    } else {
        "false"@
    }
}

/// The server serves only after its privileges were dropped, they are dropped only after all that
/// needs them is done, and nothing is created before the configuration was found valid and root
/// was found to be left.
pub proof fn law_privileges_are_dropped_before_serving(s: StartStep, good: bool)
    ensures
        after_start_step(s, good) == StartStep::Run ==> s == StartStep::DropPrivileges && good,
        after_start_step(s, good) == StartStep::DropPrivileges ==> s == StartStep::Initialize && good,
        after_start_step(s, good) == StartStep::Initialize ==> s == StartStep::Create && good,
        after_start_step(s, good) == StartStep::Create ==> s == StartStep::FindTarget && good,
        after_start_step(s, good) == StartStep::FindTarget ==> s == StartStep::CheckRoot && good,
        after_start_step(s, good) == StartStep::CheckRoot ==> s == StartStep::Validate && good,
        after_start_step(s, good) == StartStep::Validate ==> s == StartStep::HidingKeys,
        after_start_step(s, good) == StartStep::HidingKeys ==> s == StartStep::SigningKeys && good,
{
}

/// The file that a secret is written to before it takes the place of the old one.
pub fn temporary_name(file_name: &str, process: u32) -> (s: String)
    ensures
        s@ == "."@ + file_name@ + ".tmp-"@ + decimal(process as nat),
{
    let mut s = String::from_str(".");
    s.append(file_name);
    s.append(".tmp-");
    push_decimal(&mut s, process as u64);
    s
}

/// Why a secret is not written.
pub const NO_FILE_NAME: &'static str = "output path has no file name";

/// A step of writing a secret file.
#[derive(Debug, Clone, Copy, PartialEq, Eq, Structural)]
pub enum WriteStep {
    /// Create the temporary file, which must not exist, for the owner alone.
    Create,
    /// Write the content.
    Write,
    /// Have it written to the disk.
    Sync,
    /// Give it the name of the file.
    Rename,
    /// Remove the temporary file, for something failed.
    Discard,
    /// Nothing more; the file was written or not.
    Finished(bool),
}

/// What follows a step.
pub open spec fn after_write_step(s: WriteStep, good: bool) -> WriteStep {
    match s {
        WriteStep::Create => if good {
            WriteStep::Write
        } else {
            WriteStep::Discard
        },
        WriteStep::Write => if good {
            WriteStep::Sync
        } else {
            WriteStep::Discard
        },
        WriteStep::Sync => if good {
            WriteStep::Rename
        } else {
            WriteStep::Discard
        },
        WriteStep::Rename => if good {
            WriteStep::Finished(true)
        } else {
            WriteStep::Discard
        },
        WriteStep::Discard => WriteStep::Finished(false),
        WriteStep::Finished(b) => WriteStep::Finished(b),
    }
}

/// What to do after a step of writing a secret file went well or not. Whether a discarded file
/// could be removed does not matter.
pub fn next_write_step(s: WriteStep, good: bool) -> (n: WriteStep)
    ensures
        n == after_write_step(s, good),
{
    match s {
        WriteStep::Create => if good {
            WriteStep::Write
        } else {
            WriteStep::Discard
        },
        WriteStep::Write => if good {
            WriteStep::Sync
        } else {
            WriteStep::Discard
        },
        WriteStep::Sync => if good {
            WriteStep::Rename
        } else {
            WriteStep::Discard
        },
        WriteStep::Rename => if good {
            WriteStep::Finished(true)
        } else {
            WriteStep::Discard
        },
        WriteStep::Discard => WriteStep::Finished(false),
        WriteStep::Finished(b) => WriteStep::Finished(b),
    }
}

/// A file gets its name only after all of it is on the disk, and only then counts as written.
pub proof fn law_files_appear_whole(s: WriteStep, good: bool)
    ensures
        after_write_step(s, good) == WriteStep::Rename ==> s == WriteStep::Sync && good,
        after_write_step(s, good) == WriteStep::Sync ==> s == WriteStep::Write && good,
        after_write_step(s, good) == WriteStep::Write ==> s == WriteStep::Create && good,
        after_write_step(s, good) == WriteStep::Finished(true) ==> (s == WriteStep::Rename && good) || s
            == WriteStep::Finished(true),
{
}

/// The step after `n` steps that all went well, from the first one on.
pub open spec fn after_good_steps(n: nat) -> StartStep
    decreases n,
{
    if n == 0 {
        StartStep::SigningKeys
    } else {
        after_start_step(after_good_steps((n - 1) as nat), true)
    }
}

/// Where every step goes well the server comes to serve, after each of the steps before it, and
/// stops when it is told to; where one that matters fails, nothing more is done.
pub proof fn law_a_good_start_ends_in_serving(s: StartStep)
    ensures
        after_good_steps(8) is Run,
        after_good_steps(9) is Stopped,
        after_start_step(s, false) is Failed || s is HidingKeys || s is Stopped,
        after_start_step(StartStep::HidingKeys, false) is Validate,
        after_start_step(StartStep::Stopped, false) is Stopped,
        after_start_step(StartStep::Failed, true) is Failed,
{
    reveal_with_fuel(after_good_steps, 10);
}

/// Root may start the server only where it is told whom to become or allowed to stay; everybody
/// else may.
pub proof fn law_root_must_become_somebody(ids: ProcessIds, run_as_user: bool, root_allowed: bool)
    ensures
        ids.uid == 0 && !run_as_user && !root_allowed <==> !may_start(
            ids,
            run_as_user,
            root_allowed,
        ),
{
}

/// Where every step of writing goes well the file is written; where one fails, what was begun is
/// discarded and the file does not count as written.
pub proof fn law_writing_ends(s: WriteStep)
    ensures
        after_write_step(
            after_write_step(
                after_write_step(after_write_step(WriteStep::Create, true), true),
                true,
            ),
            true,
        ) == WriteStep::Finished(true),
        s is Create || s is Write || s is Sync || s is Rename ==> after_write_step(s, false)
            is Discard,
        after_write_step(WriteStep::Discard, true) == WriteStep::Finished(false),
        after_write_step(WriteStep::Discard, false) == WriteStep::Finished(false),
{
}

} // verus!
