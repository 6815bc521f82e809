//! Command-line arguments, the configuration file and the fate of tasks.

use vstd::prelude::*;

use crate::error::NixClipError;
use crate::error::Result;
use crate::text::concat2;
use crate::text::concat3;
use crate::text::same_text;
use crate::text::texts;
use crate::types::optional_text;

verus! {

// ---------------------------------------------------------------------------
// Arguments
// ---------------------------------------------------------------------------

/// The arguments of the daemon.
#[derive(Debug, Clone)]
pub struct CliArgs {
    pub config_path: Option<String>,
    pub verbose: bool,
}

/// What the daemon was asked for.
pub struct ArgsView {
    pub config_path: Option<Seq<char>>,
    pub verbose: bool,
}

/// Reading the arguments from position `i` on, given what came before. The
/// argument after `--config` is a path, whatever it looks like; an argument
/// that is not known stops the reading.
pub open spec fn read_args(
    args: Seq<Seq<char>>,
    i: int,
    so_far: ArgsView,
) -> std::result::Result<ArgsView, Seq<char>>
    decreases args.len() - i,
{
    if i < 0 || i >= args.len() {
        Ok(so_far)
    } else if args[i] == "--config"@ {
        if i + 1 < args.len() {
            read_args(
                args,
                i + 2,
                ArgsView { config_path: Some(args[i + 1]), verbose: so_far.verbose },
            )
        } else {
            Ok(ArgsView { config_path: None, verbose: so_far.verbose })
        }
    } else if args[i] == "-v"@ || args[i] == "--verbose"@ {
        read_args(args, i + 1, ArgsView { config_path: so_far.config_path, verbose: true })
    } else {
        Err(args[i])
    }
}

/// Parse the arguments of the daemon, without the name of the program. Gives
/// the first argument that is not known, if there is one.
pub fn parse_args(args: &Vec<String>) -> (r: std::result::Result<CliArgs, String>)
    ensures
        match (
            r,
            read_args(texts(args@), 0, (ArgsView { config_path: None, verbose: false })),
        ) {
            (Ok(a), Ok(b)) => optional_text(a.config_path) == b.config_path && a.verbose
                == b.verbose,
            (Err(a), Err(b)) => a@ == b,
            _ => false,
        },
{
    let ghost all = texts(args@);
    let ghost wanted = read_args(all, 0, ArgsView { config_path: None, verbose: false });
    let mut config_path: Option<String> = None;
    let mut verbose: bool = false;
    let mut i: usize = 0;
    let count: usize = args.len();
    while i < count
        invariant
            count == args@.len(),
            i <= count,
            all == texts(args@),
            wanted == read_args(all, 0, ArgsView { config_path: None, verbose: false }),
            wanted == read_args(
                all,
                i as int,
                ArgsView { config_path: optional_text(config_path), verbose },
            ),
        decreases count - i,
    {
        let arg = args[i].as_str();
        assert(all[i as int] == arg@);
        if same_text(arg, "--config") {
            if i + 1 < count {
                config_path = Some(args[i + 1].clone());
                assert(all[i + 1] == args@[i + 1]@);
                i += 2;
            } else {
                config_path = None;
                i += 1;
            }
        } else if same_text(arg, "-v") || same_text(arg, "--verbose") {
            verbose = true;
            i += 1;
        } else {
            return Err(args[i].clone());
        }
    }
    Ok(CliArgs { config_path, verbose })
}

// ---------------------------------------------------------------------------
// Configuration file
// ---------------------------------------------------------------------------

/// The configuration file that applies to all users.
pub open spec fn system_config_path() -> Seq<char> {
    "/etc/xdg/nixclip/config.toml"@
}

/// The configuration file that exists: that of the user before that of the
/// system.
pub fn existing_config_path(user_path: &str, user_exists: bool, system_exists: bool) -> (r: Option<
    String,
>)
    ensures
        optional_text(r) == if user_exists {
            Some(user_path@)
        } else if system_exists {
            Some(system_config_path())
        } else {
            None
        },
{
    if user_exists {
        Some(user_path.to_owned())
    } else if system_exists {
        Some("/etc/xdg/nixclip/config.toml".to_owned())
    } else {
        None
    }
}

/// The configuration file that the daemon works with: the one that it was
/// told to use, else one that exists, else that of the user.
pub fn config_file(explicit: Option<String>, existing: Option<String>, user_path: &str) -> (r:
    String)
    ensures
        r@ == match (explicit, existing) {
            (Some(e), _) => e@,
            (None, Some(e)) => e@,
            (None, None) => user_path@,
        },
{
    match (explicit, existing) {
        (Some(e), _) => e,
        (None, Some(e)) => e,
        (None, None) => user_path.to_owned(),
    }
}

// ---------------------------------------------------------------------------
// Tasks
// ---------------------------------------------------------------------------

/// How a task ended.
#[derive(Debug, Clone)]
pub enum TaskOutcome {
    /// It returned.
    Finished,
    /// It returned an error, with this message.
    Failed(String),
    /// It crashed, with this message.
    Crashed(String),
}

/// What is said of a task that has to run for as long as the daemon, and ended.
pub open spec fn task_message(task_name: Seq<char>, outcome: TaskOutcome) -> Seq<char> {
    match outcome {
        TaskOutcome::Finished => task_name + " exited unexpectedly"@,
        TaskOutcome::Failed(e) => task_name + " exited with error: "@ + e@,
        TaskOutcome::Crashed(e) => task_name + " task crashed: "@ + e@,
    }
}

/// The end of a critical task is always an error.
pub fn critical_task_result(task_name: &str, outcome: &TaskOutcome) -> (r: Result<()>)
    ensures
        r matches Err(e) && e is Pipeline && e.cause() == task_message(task_name@, *outcome),
{
    Err(
        NixClipError::Pipeline(
            match outcome {
                TaskOutcome::Finished => concat2(task_name, " exited unexpectedly"),
                TaskOutcome::Failed(e) => concat3(task_name, " exited with error: ", e.as_str()),
                TaskOutcome::Crashed(e) => concat3(task_name, " task crashed: ", e.as_str()),
            },
        ),
    )
}

} // verus!
