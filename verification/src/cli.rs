//! What `allelua run ARGS...` does with its arguments, and the texts that it
//! prints when they are wrong.
use vstd::prelude::*;

use crate::text::append_lit;

verus! {

/// What `allelua run` does with its arguments.
#[derive(Debug, Clone, PartialEq, Eq)]
pub enum RunAction {
    /// No file was given: print [cli_error_text] and exit with status 1.
    NoFile,
    /// Help was asked for: print [usage_text].
    Usage,
    /// Run the Lua file at this path.
    Run(String),
}

/// Whether `arg` asks for help.
pub open spec fn is_help(arg: Seq<char>) -> bool {
    arg == "-h"@ || arg == "--help"@ || arg == "help"@
}

fn is_help_arg(arg: &String) -> (r: bool)
    ensures
        r == is_help(arg@),
{
    let short = "-h".to_owned();
    let long = "--help".to_owned();
    let word = "help".to_owned();
    proof {
        reveal_strlit("-h");
        reveal_strlit("--help");
        reveal_strlit("help");
    }
    arg.eq(&short) || arg.eq(&long) || arg.eq(&word)
}

/// Chooses what `allelua run` does: without a file it fails, `-h`,
/// `--help` or `help` ask for the usage, anything else names the file to
/// run.
pub fn run_action(args: &Vec<String>) -> (r: RunAction)
    ensures
        args@.len() < 2 ==> r == RunAction::NoFile,
        args@.len() >= 2 && is_help(args@[1]@) ==> r == RunAction::Usage,
        args@.len() >= 2 && !is_help(args@[1]@) ==> (r matches RunAction::Run(f) && f@
            == args@[1]@),
{
    if args.len() < 2 {
        return RunAction::NoFile;
    }
    if is_help_arg(&args[1]) {
        RunAction::Usage
    } else {
        RunAction::Run(args[1].clone())
    }
}

/// Text printed when the arguments are wrong, `msg` saying how.
pub fn cli_error_text(msg: &str) -> (r: String)
    ensures
        r@ == "Error: "@ + msg@ + "\n\nUSAGE: allelua run [FLAGS...] FILE [ARGS...]\n\nRun 'allelua run -h' for more informations\n"@,
{
    let mut out = String::new();
    append_lit(&mut out, "Error: ");
    append_lit(&mut out, msg);
    append_lit(
        &mut out,
        "\n\nUSAGE: allelua run [FLAGS...] FILE [ARGS...]\n\nRun 'allelua run -h' for more informations\n",
    );
    out
}

/// Text printed when help is asked for.
pub fn usage_text() -> (r: &'static str)
    ensures
        r@ == "allelua run - Run a Lua file.\n\nUSAGE:\n   allelua run [FLAGS...] FILE [ARGS...]\n\nFLAGS:\n   -h, --help                   Print this menu.\n"@,
{
    "allelua run - Run a Lua file.\n\nUSAGE:\n   allelua run [FLAGS...] FILE [ARGS...]\n\nFLAGS:\n   -h, --help                   Print this menu.\n"
}

} // verus!
