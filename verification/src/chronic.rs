//! Running a command quietly: its output is shown only if it fails.

use crate::arguments::{
    condition, error_of, lexed, missing, next_argument, optional_text, parser_for, read_all,
    remaining_arguments, strings, unexpected, unexpected_view, unread, upcoming, weight,
    Argument, ArgumentView, ArgumentsError, ArgumentsErrorView, Reaction, Reading,
};
use crate::status::{signal_fits, status_of, termination_status};
use vstd::prelude::*;

verus! {

/// The exit status of the program where the command could not be started.
pub const SPAWN_FAILURE: i32 = 2;

/// What is done once the command has ended.
#[derive(Clone, Copy, Debug, PartialEq, Eq, Structural)]
pub struct Verdict {
    /// Whether the captured output of the command is shown.
    pub show: bool,
    /// The status that is reported with the output.
    pub reported: i32,
    /// The exit status of the program itself.
    pub exit: i32,
}

/// What is done once the command has ended.
///
/// A command that exits with 0 is passed over in silence, unless
/// `trigger_stderr` is set and it wrote to its standard error. A command
/// that exits with another code has its output shown, and the program exits
/// with the same code. A command that did not exit on its own has its output
/// shown with the status that stands for the signal, and the program exits
/// with 1.
pub open spec fn verdict_of(
    code: Option<i32>,
    signal: Option<i32>,
    trigger_stderr: bool,
    stderr_len: u64,
) -> Verdict {
    match code {
        Some(code) => if code == 0 {
            Verdict { show: trigger_stderr && stderr_len > 0, reported: 0, exit: 0 }
        } else {
            Verdict { show: true, reported: code, exit: code }
        },
        None => Verdict { show: true, reported: status_of(code, signal) as i32, exit: 1 },
    }
}

/// Decides what is done once the command has ended.
pub fn verdict(code: Option<i32>, signal: Option<i32>, trigger_stderr: bool, stderr_len: u64) -> (v:
    Verdict)
    requires
        signal_fits(signal),
    ensures
        v == verdict_of(code, signal, trigger_stderr, stderr_len),
{
    match code {
        Some(0) => Verdict { show: trigger_stderr && stderr_len > 0, reported: 0, exit: 0 },
        Some(code) => Verdict { show: true, reported: code, exit: code },
        None => Verdict { show: true, reported: termination_status(code, signal), exit: 1 },
    }
}

/// What a command line asks for.
#[derive(Clone, Debug, PartialEq, Eq)]
pub struct Args {
    /// Whether the output is shown with headings and the status.
    pub verbose: bool,
    /// Whether output on the standard error counts as a failure.
    pub trigger_stderr: bool,
    pub command: String,
    pub arguments: Vec<String>,
}

/// What the options read so far ask for.
#[derive(Clone, Debug, PartialEq, Eq)]
pub struct Reader {
    pub verbose: bool,
    pub trigger_stderr: bool,
    pub command: Option<String>,
}

/// The mathematical value of a [`Reader`].
pub struct ReaderView {
    pub verbose: bool,
    pub trigger_stderr: bool,
    pub command: Option<Seq<char>>,
}

impl View for Reader {
    type V = ReaderView;

    open spec fn view(&self) -> ReaderView {
        ReaderView {
            verbose: self.verbose,
            trigger_stderr: self.trigger_stderr,
            command: optional_text(self.command),
        }
    }
}

/// What one argument does: `-v` and `-e` set their flags, the first value is
/// the command, behind which nothing is read as an option, and anything else
/// is refused.
pub open spec fn accepted(reader: ReaderView, argument: ArgumentView) -> (ReaderView, Reaction) {
    if argument.is_short('v') {
        (ReaderView { verbose: true, ..reader }, Reaction::Taken)
    } else if argument.is_short('e') {
        (ReaderView { trigger_stderr: true, ..reader }, Reaction::Taken)
    } else {
        match argument {
            ArgumentView::Value(command) => (
                ReaderView { command: Some(command), ..reader },
                Reaction::WantsRest,
            ),
            _ => (reader, Reaction::Unexpected),
        }
    }
}

impl Reader {
    /// A reader that has read nothing yet.
    pub fn new() -> (reader: Reader)
        ensures
            reader@ == (ReaderView { verbose: false, trigger_stderr: false, command: None }),
    {
        Reader { verbose: false, trigger_stderr: false, command: None }
    }

    /// Takes in one argument.
    pub fn accept(&mut self, argument: &Argument) -> (reaction: Reaction)
        ensures
            (final(self)@, reaction) == accepted(old(self)@, argument@),
    {
        if argument.is_short('v') {
            self.verbose = true;
            Reaction::Taken
        } else if argument.is_short('e') {
            self.trigger_stderr = true;
            Reaction::Taken
        } else {
            match argument {
                Argument::Value(command) => {
                    self.command = Some(command.clone());
                    Reaction::WantsRest
                },
                _ => Reaction::Unexpected,
            }
        }
    }

    /// What the whole command line asks for, with `arguments` for the
    /// command; `None` where no command was named.
    pub fn finish(self, arguments: Vec<String>) -> (args: Option<Args>)
        ensures
            match args {
                Some(args) => self@.command == Some(args.command@) && args.verbose == self.verbose
                    && args.trigger_stderr == self.trigger_stderr && args.arguments == arguments,
                None => self@.command is None,
            },
    {
        match self.command {
            Some(command) => Some(
                Args {
                    verbose: self.verbose,
                    trigger_stderr: self.trigger_stderr,
                    command,
                    arguments,
                },
            ),
            None => None,
        }
    }
}

/// How the reading of the options of the program ends: every argument that
/// `lexopt` hands out is taken in as [`accepted`] says, up to the command.
pub open spec fn parsed(arguments: Seq<Seq<char>>) -> Reading<ReaderView> {
    read_all(
        ReaderView { verbose: false, trigger_stderr: false, command: None },
        |state: ReaderView, argument: ArgumentView| accepted(state, argument),
        lexed(arguments),
    )
}

/// Reads the arguments of the program, without its name.
///
/// The arguments are split by `lexopt`; every option or value it hands out
/// is taken in by [`Reader::accept`], and the first one that is refused ends
/// the reading with an error that names it. What follows the command is
/// taken as it stands, options and all.
pub fn parse_args(arguments: &Vec<String>) -> (result: Result<Args, ArgumentsError>)
    ensures
        match parsed(strings(arguments@)) {
            Reading::Done(_) => result matches Err(error) && error@ == ArgumentsErrorView::Custom(
                "missing argument COMMAND"@,
            ),
            Reading::Help => false,
            Reading::Refused(argument) => result matches Err(error) && error@ == unexpected_view(
                argument,
            ),
            Reading::Paused(reader, _, _, behind) => result matches Ok(args) && args.verbose
                == reader.verbose && args.trigger_stderr == reader.trigger_stderr && Some(
                args.command@,
            ) == reader.command && strings(args.arguments@) == behind.left,
            Reading::Failed(refused) => result matches Err(error) && error@ == refused,
        },
{
    let mut reader = Reader::new();
    let mut parser = parser_for(arguments);
    let ghost step = |state: ReaderView, argument: ArgumentView| accepted(state, argument);
    loop
        invariant_except_break
            step == |state: ReaderView, argument: ArgumentView| accepted(state, argument),
            reader@.command is None,
            parsed(strings(arguments@)) == read_all(reader@, step, upcoming(parser)),
        ensures
            match parsed(strings(arguments@)) {
                Reading::Done(end) => end == reader@ && reader@.command is None,
                Reading::Paused(end, _, _, behind) => end == reader@ && reader@.command is Some
                    && behind == condition(parser) && behind.attached is None,
                _ => false,
            },
        decreases weight(unread(parser)),
    {
        let argument = match next_argument(&mut parser) {
            Err(error) => {
                return Err(error_of(error));
            },
            Ok(None) => {
                break ;
            },
            Ok(Some(argument)) => argument,
        };
        match reader.accept(&argument) {
            Reaction::Taken => {},
            Reaction::WantsRest => {
                break ;
            },
            _ => {
                return Err(unexpected(&argument));
            },
        }
    }
    if reader.command.is_none() {
        return Err(missing("missing argument COMMAND"));
    }
    let rest = match remaining_arguments(&mut parser) {
        Ok(rest) => rest,
        Err(error) => {
            return Err(error_of(error));
        },
    };
    match reader.finish(rest) {
        Some(args) => Ok(args),
        None => Err(missing("missing argument COMMAND")),
    }
}

/// The text that explains the command line.
pub open spec fn usage_text() -> Seq<char> {
    "Usage: chronic [-ev] COMMAND...\n"@
}

/// The usage message.
pub fn usage() -> (text: &'static str)
    ensures
        text@ == usage_text(),
{
    "Usage: chronic [-ev] COMMAND...\n"
}

} // verus!
