//! The command line: one or more paths of image files or directories.

use vstd::prelude::*;
use crate::text::texts;

verus! {

/// The arguments of the command line after parsing.
#[derive(Debug)]
pub struct Cli {
    /// Image files and directories, in the order given.
    pub paths: Vec<String>,
}

/// A command line that was not accepted: the message for the user and the
/// exit code that goes with it (zero where the user only asked for help).
#[derive(Debug)]
pub struct CliError {
    pub message: String,
    pub exit_code: i32,
}

/// The paths that the argument parser accepts from a command line, the
/// program's name first; none where it rejects the command line.
pub uninterp spec fn parsed_paths(args: Seq<Seq<char>>) -> Option<Seq<Seq<char>>>;

/// Runs `clap::Command::try_get_matches_from` for a command `svt` with one
/// required argument `paths` that takes one or more values, and returns the
/// values, or the parser's message and exit code. Trusted: whether the
/// command line is accepted, and with which paths, depends on the arguments
/// alone. Nothing is claimed of message and exit code.
#[verifier::external_body]
fn parse_arguments(args: Vec<String>) -> (r: Result<Vec<String>, (String, i32)>)
    ensures
        match r {
            Ok(paths) => parsed_paths(texts(args@)) == Some(texts(paths@)),
            Err(_) => parsed_paths(texts(args@)) is None,
        },
{
    let paths = clap::Arg::new("paths").required(true).num_args(1..).action(clap::ArgAction::Append);
    let command = clap::Command::new("svt").about("Simple Viewer in Terminal").arg(paths);
    match command.try_get_matches_from(args) {
        Ok(found) => Ok(found.get_many::<String>("paths").map(|v| v.cloned().collect()).unwrap_or_default()),
        Err(e) => Err((e.to_string(), e.exit_code())),
    }
}

impl Cli {
    /// Turn the outcome of the argument parser into a command line or an
    /// error.
    pub fn from_parsed(parsed: Result<Vec<String>, (String, i32)>) -> (r: Result<Cli, CliError>)
        ensures
            match parsed {
                Ok(paths) => r matches Ok(cli) && cli.paths == paths,
                Err((message, exit_code)) => r matches Err(e) && e.message == message
                    && e.exit_code == exit_code,
            },
    {
        match parsed {
            Ok(paths) => Ok(Cli { paths }),
            Err((message, exit_code)) => Err(CliError { message, exit_code }),
        }
    }

    /// Parse a command line, the program's name first.
    pub fn try_parse_from(args: Vec<String>) -> (r: Result<Cli, CliError>)
        ensures
            match r {
                Ok(cli) => parsed_paths(texts(args@)) == Some(texts(cli.paths@)),
                Err(_) => parsed_paths(texts(args@)) is None,
            },
    {
        Cli::from_parsed(parse_arguments(args))
    }
}

} // verus!
