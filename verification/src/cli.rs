//! The command line.
use vstd::prelude::*;

verus! {

/// What the command line asks for.
#[derive(Debug, PartialEq, Eq, Structural)]
pub enum CliAction {
    RunTui,
    PrintVersion,
}

/// The version of the program.
pub const VERSION: &'static str = "0.1.0";

/// An argument that asks for the version.
pub open spec fn asks_version(argument: Seq<char>) -> bool {
    argument == "version"@ || argument == "--version"@ || argument == "-V"@
}

/// Decide what to do from the program name and the arguments behind it.
pub fn parse_cli(args: &[&str]) -> (action: CliAction)
    ensures
        action == if args@.len() > 1 && asks_version(args@[1]@) {
            CliAction::PrintVersion
        } else {
            CliAction::RunTui
        },
{
    if args.len() > 1 {
        let argument = args[1].to_string();
        if argument == "version".to_string() || argument == "--version".to_string() || argument
            == "-V".to_string() {
            return CliAction::PrintVersion;
        }
    }
    CliAction::RunTui
}

/// The name and the version of the program.
pub fn version_string() -> (line: String)
    ensures
        line@ == "funke "@ + VERSION@,
{
    "funke ".to_string().concat(VERSION)
}

} // verus!
