//! The tools of the suite, and the names they are called by.

use crate::ascii::LETTER_Z;
use crate::text::{ascii_text, is_text};
use vstd::prelude::*;

verus! {

/// One tool of the suite.
#[derive(Clone, Copy, Debug, PartialEq, Eq, Structural)]
pub enum Tool {
    Chronic,
    Combine,
    Errno,
    Ifdata,
    Ifne,
    Isutf8,
    Mispipe,
    Parallel,
    Pee,
    Sponge,
    Ts,
    Vipe,
    Vidir,
    Zrun,
}

/// What the program does when it is called by a name.
#[derive(Clone, Copy, Debug, PartialEq, Eq, Structural)]
pub enum Dispatch {
    /// Run the tool.
    Run(Tool),
    /// Show the list of tools.
    Usage,
    /// Show the list of tools and say that the name stands for none.
    Unknown,
}

/// What the program does when it is called by `name`, the last part of the
/// path it was started with. `_` stands for `combine`, and every name that
/// starts with `z` and is no tool of its own for `zrun`.
pub open spec fn dispatched(name: Seq<u8>) -> Dispatch {
    let text = ascii_text(name);
    if text == "chronic"@ {
        Dispatch::Run(Tool::Chronic)
    } else if text == "combine"@ || text == "_"@ {
        Dispatch::Run(Tool::Combine)
    } else if text == "errno"@ {
        Dispatch::Run(Tool::Errno)
    } else if text == "ifdata"@ {
        Dispatch::Run(Tool::Ifdata)
    } else if text == "ifne"@ {
        Dispatch::Run(Tool::Ifne)
    } else if text == "isutf8"@ {
        Dispatch::Run(Tool::Isutf8)
    } else if text == "mispipe"@ {
        Dispatch::Run(Tool::Mispipe)
    } else if text == "parallel"@ {
        Dispatch::Run(Tool::Parallel)
    } else if text == "pee"@ {
        Dispatch::Run(Tool::Pee)
    } else if text == "sponge"@ {
        Dispatch::Run(Tool::Sponge)
    } else if text == "ts"@ {
        Dispatch::Run(Tool::Ts)
    } else if text == "vipe"@ {
        Dispatch::Run(Tool::Vipe)
    } else if text == "vidir"@ {
        Dispatch::Run(Tool::Vidir)
    } else if name.len() > 0 && name[0] == LETTER_Z {
        Dispatch::Run(Tool::Zrun)
    } else if text == "moreutils"@ {
        Dispatch::Usage
    } else {
        Dispatch::Unknown
    }
}

/// Decides what the program does when it is called by `name`.
pub fn dispatch(name: &Vec<u8>) -> (what: Dispatch)
    ensures
        what == dispatched(name@),
{
    if is_text(name, "chronic") {
        Dispatch::Run(Tool::Chronic)
    } else if is_text(name, "combine") || is_text(name, "_") {
        Dispatch::Run(Tool::Combine)
    } else if is_text(name, "errno") {
        Dispatch::Run(Tool::Errno)
    } else if is_text(name, "ifdata") {
        Dispatch::Run(Tool::Ifdata)
    } else if is_text(name, "ifne") {
        Dispatch::Run(Tool::Ifne)
    } else if is_text(name, "isutf8") {
        Dispatch::Run(Tool::Isutf8)
    } else if is_text(name, "mispipe") {
        Dispatch::Run(Tool::Mispipe)
    } else if is_text(name, "parallel") {
        Dispatch::Run(Tool::Parallel)
    } else if is_text(name, "pee") {
        Dispatch::Run(Tool::Pee)
    } else if is_text(name, "sponge") {
        Dispatch::Run(Tool::Sponge)
    } else if is_text(name, "ts") {
        Dispatch::Run(Tool::Ts)
    } else if is_text(name, "vipe") {
        Dispatch::Run(Tool::Vipe)
    } else if is_text(name, "vidir") {
        Dispatch::Run(Tool::Vidir)
    } else if name.len() > 0 && name[0] == LETTER_Z {
        Dispatch::Run(Tool::Zrun)
    } else if is_text(name, "moreutils") {
        Dispatch::Usage
    } else {
        Dispatch::Unknown
    }
}

/// The list of the tools.
pub open spec fn usage_text() -> Seq<char> {
    "\nmoreutils is a multi-program binary that changes its operation based on the name it is\ninvoked with. The following programs are included:\n\n  chronic\n  combine\n  errno\n  ifdata\n  ifne\n  isutf8\n  mispipe\n  pee\n  parallel\n  sponge\n  ts\n  vipe\n  vidir\n  zrun\n\n"@
}

/// The list of the tools, as it is shown where no tool is asked for.
pub fn usage() -> (text: &'static str)
    ensures
        text@ == usage_text(),
{
    "\nmoreutils is a multi-program binary that changes its operation based on the name it is\ninvoked with. The following programs are included:\n\n  chronic\n  combine\n  errno\n  ifdata\n  ifne\n  isutf8\n  mispipe\n  pee\n  parallel\n  sponge\n  ts\n  vipe\n  vidir\n  zrun\n\n"
}

} // verus!
