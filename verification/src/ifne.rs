//! Running a command only if the standard input is not empty.

use crate::arguments::{
    error_of, lexed, missing, next_argument, optional_text, parser_for, read_all, strings,
    unexpected, unexpected_view, unread, upcoming, weight, Argument, ArgumentView, ArgumentsError,
    ArgumentsErrorView, Reaction, Reading,
};
use vstd::prelude::*;

verus! {

/// What a command line asks for.
#[derive(Clone, Debug, PartialEq, Eq)]
pub struct Args {
    /// Whether the command runs where the input is empty, not where it is
    /// not.
    pub invert: bool,
    pub command: String,
    pub arguments: Vec<String>,
}

/// What the arguments read so far ask for.
#[derive(Clone, Debug, PartialEq, Eq)]
pub struct Reader {
    pub invert: bool,
    pub command: Option<String>,
    pub arguments: Vec<String>,
}

/// The mathematical value of a [`Reader`].
pub struct ReaderView {
    pub invert: bool,
    pub command: Option<Seq<char>>,
    pub arguments: Seq<Seq<char>>,
}

impl View for Reader {
    type V = ReaderView;

    open spec fn view(&self) -> ReaderView {
        ReaderView {
            invert: self.invert,
            command: optional_text(self.command),
            arguments: strings(self.arguments@),
        }
    }
}

/// What one argument does. Before the command, `-n` inverts the condition
/// and the first value is the command; behind it, every value is an argument
/// of the command. Anything else is refused, an option behind the command
/// too.
pub open spec fn accepted(reader: ReaderView, argument: ArgumentView) -> (ReaderView, Reaction) {
    match argument {
        ArgumentView::Value(value) => if reader.command is None {
            (ReaderView { command: Some(value), ..reader }, Reaction::Taken)
        } else {
            (ReaderView { arguments: reader.arguments.push(value), ..reader }, Reaction::Taken)
        },
        _ => if argument.is_short('n') && reader.command is None {
            (ReaderView { invert: true, ..reader }, Reaction::Taken)
        } else {
            (reader, Reaction::Unexpected)
        },
    }
}

impl Reader {
    /// A reader that has read nothing yet.
    pub fn new() -> (reader: Reader)
        ensures
            reader@ == (ReaderView { invert: false, command: None, arguments: Seq::empty() }),
    {
        let reader = Reader { invert: false, command: None, arguments: Vec::new() };
        assert(reader@.arguments =~= Seq::<Seq<char>>::empty());
        reader
    }

    /// Takes in one argument.
    pub fn accept(&mut self, argument: &Argument) -> (reaction: Reaction)
        ensures
            (final(self)@, reaction) == accepted(old(self)@, argument@),
    {
        match argument {
            Argument::Value(value) => {
                if self.command.is_none() {
                    self.command = Some(value.clone());
                } else {
                    self.arguments.push(value.clone());
                    assert(self@.arguments =~= old(self)@.arguments.push(value@));
                }
                Reaction::Taken
            },
            _ => {
                if argument.is_short('n') && self.command.is_none() {
                    self.invert = true;
                    Reaction::Taken
                } else {
                    Reaction::Unexpected
                }
            },
        }
    }

    /// What the whole command line asks for; `None` where no command was
    /// named.
    pub fn finish(self) -> (args: Option<Args>)
        ensures
            match args {
                Some(args) => self@.command == Some(args.command@) && args.invert == self.invert
                    && strings(args.arguments@) == self@.arguments,
                None => self@.command is None,
            },
    {
        match self.command {
            Some(command) => Some(
                Args { invert: self.invert, command, arguments: self.arguments },
            ),
            None => None,
        }
    }
}

/// How the reading of the arguments of the program ends: every argument
/// that `lexopt` hands out is taken in as [`accepted`] says.
pub open spec fn parsed(arguments: Seq<Seq<char>>) -> Reading<ReaderView> {
    read_all(
        ReaderView { invert: false, command: None, arguments: Seq::empty() },
        |state: ReaderView, argument: ArgumentView| accepted(state, argument),
        lexed(arguments),
    )
}

/// Reads the arguments of the program, without its name.
///
/// The arguments are split by `lexopt`; every option or value it hands out
/// is taken in by [`Reader::accept`], and the first one that is refused ends the
/// reading with an error that names it.
pub fn parse_args(arguments: &Vec<String>) -> (result: Result<Args, ArgumentsError>)
    ensures
        match parsed(strings(arguments@)) {
            Reading::Done(reader) => match reader.command {
                Some(command) => result matches Ok(args) && args.invert == reader.invert
                    && args.command@ == command && strings(args.arguments@) == reader.arguments,
                None => result matches Err(error) && error@ == ArgumentsErrorView::Custom(
                    "missing argument COMMAND"@,
                ),
            },
            Reading::Help => false,
            Reading::Refused(argument) => result matches Err(error) && error@ == unexpected_view(
                argument,
            ),
            Reading::Paused(_, argument, _, _) => result matches Err(error) && error@
                == unexpected_view(argument),
            Reading::Failed(refused) => result matches Err(error) && error@ == refused,
        },
{
    let mut reader = Reader::new();
    let mut parser = parser_for(arguments);
    let ghost step = |state: ReaderView, argument: ArgumentView| accepted(state, argument);
    loop
        invariant
            step == |state: ReaderView, argument: ArgumentView| accepted(state, argument),
            parsed(strings(arguments@)) == read_all(reader@, step, upcoming(parser)),
        decreases weight(unread(parser)),
    {
        let argument = match next_argument(&mut parser) {
            Err(error) => {
                return Err(error_of(error));
            },
            Ok(None) => {
                return match reader.finish() {
                    Some(args) => Ok(args),
                    None => Err(missing("missing argument COMMAND")),
                };
            },
            Ok(Some(argument)) => argument,
        };
        match reader.accept(&argument) {
            Reaction::Taken => {},
            _ => {
                return Err(unexpected(&argument));
            },
        }
    }
}

/// What is done once the first byte of the input was asked for.
#[derive(Clone, Copy, Debug, PartialEq, Eq, Structural)]
pub enum Action {
    /// Run the command and feed it the input, the first byte included.
    RunWithInput,
    /// Run the command on the input as it stands, which is empty.
    RunOnEmptyInput,
    /// Copy the input to the standard output, the first byte included.
    PassThrough,
    /// Do nothing.
    Nothing,
}

/// What is done: without `-n` the command runs only where the input has
/// content; with `-n` it runs only where the input is empty, and content is
/// copied to the output.
pub open spec fn action_of(invert: bool, has_content: bool) -> Action {
    if invert {
        if has_content {
            Action::PassThrough
        } else {
            Action::RunOnEmptyInput
        }
    } else if has_content {
        Action::RunWithInput
    } else {
        Action::Nothing
    }
}

/// Decides what is done once the first byte of the input was asked for.
pub fn action(invert: bool, has_content: bool) -> (action: Action)
    ensures
        action == action_of(invert, has_content),
{
    if invert {
        if has_content {
            Action::PassThrough
        } else {
            Action::RunOnEmptyInput
        }
    } else if has_content {
        Action::RunWithInput
    } else {
        Action::Nothing
    }
}

/// The text that explains the command line.
pub open spec fn usage_text() -> Seq<char> {
    "Usage: ifne [-n] command\n"@
}

/// The usage message.
pub fn usage() -> (text: &'static str)
    ensures
        text@ == usage_text(),
{
    "Usage: ifne [-n] command\n"
}

} // verus!
