//! Commands for the version-control executable, the interpretation of its
//! exit, and a reader for its `status` report.

use vstd::prelude::*;
use crate::error::AetherError;
use crate::backend::strings_view;
use crate::text::concat;

verus! {

/// The arguments of one invocation of the version-control executable.
pub struct JjCommand {
    args: Vec<String>,
}

/// What a successful invocation printed.
pub struct JjOutput {
    pub stdout: String,
    pub stderr: String,
}

/// Arguments of `workspace add <destination> [--revision <rev>]`.
pub open spec fn workspace_add_args(destination: Seq<char>, revision: Option<Seq<char>>) -> Seq<
    Seq<char>,
> {
    seq!["workspace"@, "add"@, destination] + match revision {
        Some(rev) => seq!["--revision"@, rev],
        None => Seq::<Seq<char>>::empty(),
    }
}

/// The message of the failure to start the executable.
pub open spec fn launch_failure_message(not_found: bool, detail: Seq<char>) -> Seq<char> {
    if not_found {
        "jj command not found. Please install Jujutsu."@
    } else {
        "Failed to execute jj: "@ + detail
    }
}

impl JjCommand {
    /// The arguments, in order.
    pub closed spec fn spec_args(&self) -> Seq<Seq<char>> {
        strings_view(self.args@)
    }

    /// A command with the given arguments.
    pub fn new(args: Vec<String>) -> (r: Self)
        ensures
            r.spec_args() == strings_view(args@),
    {
        JjCommand { args }
    }

    /// `workspace add <destination>`, followed by `--revision <rev>` when a revision is given.
    pub fn workspace_add(destination: &str, revision: Option<&str>) -> (r: Self)
        ensures
            r.spec_args() == workspace_add_args(
                destination@,
                match revision {
                    Some(rev) => Some(rev@),
                    None => None,
                },
            ),
    {
        let mut args: Vec<String> = Vec::new();
        args.push(String::from_str("workspace"));
        args.push(String::from_str("add"));
        args.push(String::from_str(destination));
        match revision {
            Some(rev) => {
                args.push(String::from_str("--revision"));
                args.push(String::from_str(rev));
            },
            None => {},
        }
        let r = JjCommand { args };
        assert(r.spec_args() =~= workspace_add_args(
            destination@,
            match revision {
                Some(rev) => Some(rev@),
                None => None,
            },
        ));
        r
    }

    /// `workspace forget <workspace>`.
    pub fn workspace_forget(workspace: &str) -> (r: Self)
        ensures
            r.spec_args() == seq!["workspace"@, "forget"@, workspace@],
    {
        let mut args: Vec<String> = Vec::new();
        args.push(String::from_str("workspace"));
        args.push(String::from_str("forget"));
        args.push(String::from_str(workspace));
        let r = JjCommand { args };
        assert(r.spec_args() =~= seq!["workspace"@, "forget"@, workspace@]);
        r
    }

    /// `status`.
    pub fn status() -> (r: Self)
        ensures
            r.spec_args() == seq!["status"@],
    {
        let mut args: Vec<String> = Vec::new();
        args.push(String::from_str("status"));
        let r = JjCommand { args };
        assert(r.spec_args() =~= seq!["status"@]);
        r
    }

    /// The arguments, in order.
    pub fn args(&self) -> (r: &Vec<String>)
        ensures
            strings_view(r@) == self.spec_args(),
    {
        &self.args
    }

    /// The result of a finished invocation: its output when it exited with
    /// success, else a failure carrying its standard error and exit code
    /// (`-1` when it was ended by a signal and reported none).
    pub fn outcome(success: bool, exit_code: Option<i32>, stdout: String, stderr: String) -> (r:
        Result<JjOutput, AetherError>)
        ensures
            success ==> (r matches Ok(out) && out.stdout@ == stdout@ && out.stderr@ == stderr@),
            !success ==> (r matches Err(AetherError::Jj { message, exit_code: code })
                && message@ == stderr@ && code as int == match exit_code {
                Some(c) => c as int,
                None => -1,
            }),
    {
        if success {
            Ok(JjOutput { stdout, stderr })
        } else {
            let code = match exit_code {
                Some(c) => c,
                None => -1,
            };
            Err(AetherError::Jj { message: stderr, exit_code: code })
        }
    }

    /// The failure reported when the executable could not be started;
    /// `not_found` tells whether it is missing, `detail` describes any other cause.
    pub fn launch_failure(not_found: bool, detail: &str) -> (r: AetherError)
        ensures
            r matches AetherError::Jj { message, exit_code } && exit_code == -1
                && message@ == launch_failure_message(not_found, detail@),
    {
        if not_found {
            AetherError::Jj {
                message: String::from_str("jj command not found. Please install Jujutsu."),
                exit_code: -1,
            }
        } else {
            AetherError::Jj { message: concat("Failed to execute jj: ", detail), exit_code: -1 }
        }
    }
}

} // verus!
