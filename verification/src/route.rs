//! The command line: which screen to start on, or what to print.
use vstd::prelude::*;

use crate::text::{owned, strs};

verus! {

/// Where the interface starts.
#[derive(Clone, Copy, Debug, PartialEq, Eq, Structural)]
pub enum Route {
    Tui,
    Install,
    Remove,
    Update,
}

/// What the command line asks for: to run the interface, or to print a text.
#[derive(Clone, Copy, Debug, PartialEq, Eq)]
pub enum RouteParse {
    Run(Route),
    Print(&'static str),
}

/// The usage text.
pub open spec fn usage_text() -> Seq<char> {
    "Usage: pack [install|remove|uninstall|update]\n\nLaunches the interactive interface when no command is provided."@
}

/// The version text.
pub open spec fn version_text() -> Seq<char> {
    "pack 0.1.0"@
}

/// The error for any other command line.
pub open spec fn bad_arguments_text() -> Seq<char> {
    "Unknown or incomplete command-line argument."@
}

/// The usage text.
pub fn usage() -> (s: &'static str)
    ensures
        s@ == usage_text(),
{
    "Usage: pack [install|remove|uninstall|update]\n\nLaunches the interactive interface when no command is provided."
}

/// Reads the command line (without the program name): nothing starts the
/// interface; `-h`/`--help` and `-V`/`--version` print; `install`,
/// `remove`/`uninstall` and `update` start on those screens; anything else
/// is an error.
pub fn parse_route(arguments: Vec<String>) -> (r: Result<RouteParse, String>)
    ensures
        ({
            let args = strs(arguments@);
            if args.len() == 0 {
                r == Ok::<RouteParse, String>(RouteParse::Run(Route::Tui))
            } else if args.len() == 1 && (args[0] == "-h"@ || args[0] == "--help"@) {
                r matches Ok(RouteParse::Print(t)) && t@ == usage_text()
            } else if args.len() == 1 && (args[0] == "-V"@ || args[0] == "--version"@) {
                r matches Ok(RouteParse::Print(t)) && t@ == version_text()
            } else if args.len() == 1 && args[0] == "install"@ {
                r == Ok::<RouteParse, String>(RouteParse::Run(Route::Install))
            } else if args.len() == 1 && (args[0] == "remove"@ || args[0] == "uninstall"@) {
                r == Ok::<RouteParse, String>(RouteParse::Run(Route::Remove))
            } else if args.len() == 1 && args[0] == "update"@ {
                r == Ok::<RouteParse, String>(RouteParse::Run(Route::Update))
            } else {
                r matches Err(e) && e@ == bad_arguments_text()
            }
        }),
{
    if arguments.len() == 0 {
        return Ok(RouteParse::Run(Route::Tui));
    }
    if arguments.len() == 1 {
        let a = &arguments[0];
        assert(strs(arguments@)[0] == a@);
        if *a == owned("-h") || *a == owned("--help") {
            return Ok(RouteParse::Print(usage()));
        }
        if *a == owned("-V") || *a == owned("--version") {
            return Ok(RouteParse::Print("pack 0.1.0"));
        }
        if *a == owned("install") {
            return Ok(RouteParse::Run(Route::Install));
        }
        if *a == owned("remove") || *a == owned("uninstall") {
            return Ok(RouteParse::Run(Route::Remove));
        }
        if *a == owned("update") {
            return Ok(RouteParse::Run(Route::Update));
        }
    }
    Err(owned("Unknown or incomplete command-line argument."))
}

} // verus!
