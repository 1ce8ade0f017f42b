//! Piping one command into another and leaving with the status of the
//! first.

use crate::ascii::{copy_bytes, texts};
use crate::status::{signal_fits, status_of, termination_status};
use vstd::prelude::*;

verus! {

/// The exit status of the program where the first command could not be
/// waited for.
pub const WAIT_FAILURE: i32 = 2;

/// The two commands of a command line: its first two arguments. Further
/// arguments are not looked at.
pub open spec fn commands_of(args: Seq<Seq<u8>>) -> Option<(Seq<u8>, Seq<u8>)> {
    if args.len() >= 2 {
        Some((args[0], args[1]))
    } else {
        None
    }
}

/// Reads the two commands from the arguments of the program, without its
/// name; `None` asks for the usage.
pub fn commands(args: &Vec<Vec<u8>>) -> (pair: Option<(Vec<u8>, Vec<u8>)>)
    ensures
        match pair {
            Some((first, second)) => commands_of(texts(args@)) == Some((first@, second@)),
            None => commands_of(texts(args@)) is None,
        },
{
    if args.len() >= 2 {
        Some((copy_bytes(&args[0]), copy_bytes(&args[1])))
    } else {
        None
    }
}

/// The exit status of the program: the status of the first command where it
/// could be waited for.
pub fn exit_status(first: Option<(Option<i32>, Option<i32>)>) -> (status: i32)
    requires
        first matches Some((_, signal)) ==> signal_fits(signal),
    ensures
        status == match first {
            Some((code, signal)) => status_of(code, signal),
            None => WAIT_FAILURE as int,
        },
{
    match first {
        Some((code, signal)) => termination_status(code, signal),
        None => WAIT_FAILURE,
    }
}

/// The text that explains the command line.
pub open spec fn usage_text() -> Seq<char> {
    "Usage: mispipe \"COMMAND\" \"COMMAND\"\n"@
}

/// The usage message.
pub fn usage() -> (text: &'static str)
    ensures
        text@ == usage_text(),
{
    "Usage: mispipe \"COMMAND\" \"COMMAND\"\n"
}

} // verus!
