//! Copying the standard input to several commands at once.

use crate::arguments::{
    error_of, lexed, missing, next_argument, parser_for, read_all, strings, unexpected,
    unexpected_view, unread, upcoming, weight, Argument, ArgumentView, ArgumentsError,
    ArgumentsErrorView, Reaction, Reading,
};
use crate::status::{signal_status, MAX_SIGNAL};
use vstd::prelude::*;

verus! {

/// What a command line asks for.
#[derive(Clone, Debug, PartialEq, Eq)]
pub struct Args {
    /// Whether a broken pipe is passed over.
    pub ignore_sigpipe: bool,
    /// Whether a failed write to a command is passed over.
    pub ignore_write_errors: bool,
    /// The commands, each a line for the shell.
    pub commands: Vec<String>,
}

/// The mathematical value of [`Args`].
pub struct ArgsView {
    pub ignore_sigpipe: bool,
    pub ignore_write_errors: bool,
    pub commands: Seq<Seq<char>>,
}

impl View for Args {
    type V = ArgsView;

    open spec fn view(&self) -> ArgsView {
        ArgsView {
            ignore_sigpipe: self.ignore_sigpipe,
            ignore_write_errors: self.ignore_write_errors,
            commands: strings(self.commands@),
        }
    }
}

/// What one argument does: the four long options switch the two settings
/// on and off, a value is one more command, and anything else is refused.
pub open spec fn accepted(args: ArgsView, argument: ArgumentView) -> (ArgsView, Reaction) {
    if argument.is_long("ignore-sigpipe"@) {
        (ArgsView { ignore_sigpipe: true, ..args }, Reaction::Taken)
    } else if argument.is_long("no-ignore-sigpipe"@) {
        (ArgsView { ignore_sigpipe: false, ..args }, Reaction::Taken)
    } else if argument.is_long("ignore-write-errors"@) {
        (ArgsView { ignore_write_errors: true, ..args }, Reaction::Taken)
    } else if argument.is_long("no-ignore-write-errors"@) {
        (ArgsView { ignore_write_errors: false, ..args }, Reaction::Taken)
    } else {
        match argument {
            ArgumentView::Value(command) => (
                ArgsView { commands: args.commands.push(command), ..args },
                Reaction::Taken,
            ),
            _ => (args, Reaction::Unexpected),
        }
    }
}

impl Args {
    /// The settings of a command line without arguments: both kinds of
    /// failure are passed over.
    pub fn new() -> (args: Args)
        ensures
            args@ == (ArgsView {
                ignore_sigpipe: true,
                ignore_write_errors: true,
                commands: Seq::empty(),
            }),
    {
        let args = Args { ignore_sigpipe: true, ignore_write_errors: true, commands: Vec::new() };
        assert(args@.commands =~= Seq::<Seq<char>>::empty());
        args
    }

    /// Takes in one argument.
    pub fn accept(&mut self, argument: &Argument) -> (reaction: Reaction)
        ensures
            (final(self)@, reaction) == accepted(old(self)@, argument@),
    {
        if argument.is_long("ignore-sigpipe") {
            self.ignore_sigpipe = true;
            Reaction::Taken
        } else if argument.is_long("no-ignore-sigpipe") {
            self.ignore_sigpipe = false;
            Reaction::Taken
        } else if argument.is_long("ignore-write-errors") {
            self.ignore_write_errors = true;
            Reaction::Taken
        } else if argument.is_long("no-ignore-write-errors") {
            self.ignore_write_errors = false;
            Reaction::Taken
        } else {
            match argument {
                Argument::Value(command) => {
                    self.commands.push(command.clone());
                    assert(self@.commands =~= old(self)@.commands.push(command@));
                    Reaction::Taken
                },
                _ => Reaction::Unexpected,
            }
        }
    }
}

/// How the reading of the arguments of the program ends: every argument
/// that `lexopt` hands out is taken in as [`accepted`] says.
pub open spec fn parsed(arguments: Seq<Seq<char>>) -> Reading<ArgsView> {
    read_all(
        ArgsView { ignore_sigpipe: true, ignore_write_errors: true, commands: Seq::empty() },
        |state: ArgsView, argument: ArgumentView| accepted(state, argument),
        lexed(arguments),
    )
}

/// Reads the arguments of the program, without its name.
///
/// The arguments are split by `lexopt`; every option or value it hands out
/// is taken in by [`Args::accept`], and the first one that is refused ends the
/// reading with an error that names it.
pub fn parse_args(arguments: &Vec<String>) -> (result: Result<Args, ArgumentsError>)
    ensures
        match parsed(strings(arguments@)) {
            Reading::Done(read) => if read.commands.len() > 0 {
                result matches Ok(args) && args@ == read
            } else {
                result matches Err(error) && error@ == ArgumentsErrorView::Custom(
                    "expected COMMAND"@,
                )
            },
            Reading::Help => false,
            Reading::Refused(argument) => result matches Err(error) && error@ == unexpected_view(
                argument,
            ),
            Reading::Paused(_, argument, _, _) => result matches Err(error) && error@
                == unexpected_view(argument),
            Reading::Failed(refused) => result matches Err(error) && error@ == refused,
        },
{
    let mut args = Args::new();
    let mut parser = parser_for(arguments);
    let ghost step = |state: ArgsView, argument: ArgumentView| accepted(state, argument);
    loop
        invariant
            step == |state: ArgsView, argument: ArgumentView| accepted(state, argument),
            parsed(strings(arguments@)) == read_all(args@, step, upcoming(parser)),
        decreases weight(unread(parser)),
    {
        let argument = match next_argument(&mut parser) {
            Err(error) => {
                return Err(error_of(error));
            },
            Ok(None) => {
                if args.commands.len() == 0 {
                    return Err(missing("expected COMMAND"));
                }
                return Ok(args);
            },
            Ok(Some(argument)) => argument,
        };
        match args.accept(&argument) {
            Reaction::Taken => {},
            _ => {
                return Err(unexpected(&argument));
            },
        }
    }
}

/// What is done after the input was offered to every command.
#[derive(Clone, Copy, Debug, PartialEq, Eq, Structural)]
pub enum Next {
    /// Read on.
    Continue,
    /// No command takes input any more: stop reading.
    Stop,
    /// A write failed and failures count: end every command and fail.
    Abort,
}

/// What one write to a command came to.
#[derive(Clone, Copy, Debug, PartialEq, Eq, Structural)]
pub enum Write {
    /// The command has no input to write to.
    Closed,
    /// The write went through.
    Done,
    /// The write failed.
    Failed,
}

/// Whether any of the first `n` writes went through.
pub open spec fn any_done(writes: Seq<Write>, n: int) -> bool {
    exists|i: int| 0 <= i < n && writes[i] == Write::Done
}

/// Whether any write failed.
pub open spec fn any_failed(writes: Seq<Write>) -> bool {
    exists|i: int| 0 <= i < writes.len() && writes[i] == Write::Failed
}

/// Whether a write ends the round: a failed write does, unless failures are
/// passed over. The commands behind it are not written to.
pub open spec fn ends_round(written: Write, ignore_write_errors: bool) -> bool {
    written == Write::Failed && !ignore_write_errors
}

/// Decides whether a write ends the round.
pub fn is_fatal(written: Write, ignore_write_errors: bool) -> (fatal: bool)
    ensures
        fatal == ends_round(written, ignore_write_errors),
{
    match written {
        Write::Failed => !ignore_write_errors,
        _ => false,
    }
}

/// A round that a write has ended ends everything.
pub proof fn lemma_ended_round_aborts(writes: Seq<Write>, ignore_write_errors: bool)
    requires
        writes.len() > 0,
        ends_round(writes.last(), ignore_write_errors),
    ensures
        next_of(writes, ignore_write_errors) == Next::Abort,
{
    assert(writes[writes.len() - 1] == Write::Failed);
}

/// What is done after one piece of input was written: a failed write ends
/// everything unless failures are passed over; else reading goes on as long
/// as one command took the input.
pub open spec fn next_of(writes: Seq<Write>, ignore_write_errors: bool) -> Next {
    if any_failed(writes) && !ignore_write_errors {
        Next::Abort
    } else if any_done(writes, writes.len() as int) {
        Next::Continue
    } else {
        Next::Stop
    }
}

/// Decides what is done after one piece of input was written.
pub fn next(writes: &Vec<Write>, ignore_write_errors: bool) -> (decision: Next)
    ensures
        decision == next_of(writes@, ignore_write_errors),
{
    let mut peed = false;
    let mut i: usize = 0;
    while i < writes.len()
        invariant
            i <= writes.len(),
            peed == any_done(writes@, i as int),
            ignore_write_errors || forall|j: int| 0 <= j < i ==> writes@[j] != Write::Failed,
        decreases writes.len() - i,
    {
        match writes[i] {
            Write::Failed => {
                if !ignore_write_errors {
                    assert(writes@[i as int] == Write::Failed);
                    return Next::Abort;
                }
                proof {
                    if any_done(writes@, i + 1) {
                        let k = choose|k: int| 0 <= k < i + 1 && writes@[k] == Write::Done;
                        assert(k < i);
                    }
                }
            },
            Write::Done => {
                peed = true;
                assert(writes@[i as int] == Write::Done);
            },
            Write::Closed => {
                proof {
                    if any_done(writes@, i + 1) {
                        let k = choose|k: int| 0 <= k < i + 1 && writes@[k] == Write::Done;
                        assert(k < i);
                    }
                }
            },
        }
        proof {
            if peed && writes[i as int] != Write::Done {
                let k = choose|k: int| 0 <= k < i && writes@[k] == Write::Done;
                assert(0 <= k < i + 1 && writes@[k] == Write::Done);
            }
        }
        i += 1;
    }
    if peed {
        Next::Continue
    } else {
        Next::Stop
    }
}

/// The exit status of the program after the signal `signal` was caught.
pub fn signal_exit(signal: i32) -> (status: i32)
    requires
        0 <= signal <= MAX_SIGNAL,
    ensures
        status == signal_status(signal),
{
    128 + signal
}

/// The text that explains the command line.
pub open spec fn usage_text() -> Seq<char> {
    "Usage: pee [--[no-]ignore-sigpipe] [--[no-]ignore-write-errors] [\"command\"...]\n"@
}

/// The usage message.
pub fn usage() -> (text: &'static str)
    ensures
        text@ == usage_text(),
{
    "Usage: pee [--[no-]ignore-sigpipe] [--[no-]ignore-write-errors] [\"command\"...]\n"
}

} // verus!
