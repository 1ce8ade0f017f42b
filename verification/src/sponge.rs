//! Soaking up the standard input before it is written to a file.

use crate::arguments::{
    error_of, lexed, missing, next_argument, optional_text, parser_for, read_all, strings,
    unexpected, unexpected_view, unread, upcoming, weight, Argument, ArgumentView, ArgumentsError,
    ArgumentsErrorView, Reaction, Reading,
};
use vstd::prelude::*;

verus! {

/// What a command line asks for.
#[derive(Clone, Debug, PartialEq, Eq)]
pub struct Args {
    /// Whether the input is added to the end of the file; the file is
    /// emptied first where it is not.
    pub append: bool,
    /// The file to write.
    pub file: String,
}

/// What the arguments read so far ask for.
#[derive(Clone, Debug, PartialEq, Eq)]
pub struct Reader {
    pub append: bool,
    pub file: Option<String>,
}

/// The mathematical value of a [`Reader`].
pub struct ReaderView {
    pub append: bool,
    pub file: Option<Seq<char>>,
}

impl View for Reader {
    type V = ReaderView;

    open spec fn view(&self) -> ReaderView {
        ReaderView { append: self.append, file: optional_text(self.file) }
    }
}

/// What one argument does: `-a` asks to append, the first value names the
/// file, and anything else is refused.
pub open spec fn accepted(reader: ReaderView, argument: ArgumentView) -> (ReaderView, Reaction) {
    if argument.is_short('a') {
        (ReaderView { append: true, ..reader }, Reaction::Taken)
    } else {
        match argument {
            ArgumentView::Value(file) => if reader.file is None {
                (ReaderView { file: Some(file), ..reader }, Reaction::Taken)
            } else {
                (reader, Reaction::Unexpected)
            },
            _ => (reader, Reaction::Unexpected),
        }
    }
}

impl Reader {
    /// A reader that has read nothing yet.
    pub fn new() -> (reader: Reader)
        ensures
            reader@ == (ReaderView { append: false, file: None }),
    {
        Reader { append: false, file: None }
    }

    /// Takes in one argument.
    pub fn accept(&mut self, argument: &Argument) -> (reaction: Reaction)
        ensures
            (final(self)@, reaction) == accepted(old(self)@, argument@),
    {
        if argument.is_short('a') {
            self.append = true;
            return Reaction::Taken;
        }
        match argument {
            Argument::Value(file) => {
                if self.file.is_none() {
                    self.file = Some(file.clone());
                    Reaction::Taken
                } else {
                    Reaction::Unexpected
                }
            },
            _ => Reaction::Unexpected,
        }
    }

    /// What the whole command line asks for; `None` where no file was named.
    pub fn finish(self) -> (args: Option<Args>)
        ensures
            match args {
                Some(args) => self@.file == Some(args.file@) && args.append == self.append,
                None => self@.file is None,
            },
    {
        match self.file {
            Some(file) => Some(Args { append: self.append, file }),
            None => None,
        }
    }
}

/// How the reading of the arguments of the program ends: every argument
/// that `lexopt` hands out is taken in as [`accepted`] says.
pub open spec fn parsed(arguments: Seq<Seq<char>>) -> Reading<ReaderView> {
    read_all(
        ReaderView { append: false, file: None },
        |state: ReaderView, argument: ArgumentView| accepted(state, argument),
        lexed(arguments),
    )
}

/// Reads the arguments of the program, without its name.
///
/// The arguments are split by `lexopt`; every option or value it hands out
/// is taken in by [`Reader::accept`], and the first one that is refused ends the
/// reading with an error that names it.
pub fn parse_args(arguments: &Vec<String>) -> (result: Result<Args, ArgumentsError>)
    ensures
        match parsed(strings(arguments@)) {
            Reading::Done(reader) => match reader.file {
                Some(file) => result matches Ok(args) && args.append == reader.append && args.file@
                    == file,
                None => result matches Err(error) && error@ == ArgumentsErrorView::Custom(
                    "missing argument FILE"@,
                ),
            },
            Reading::Help => false,
            Reading::Refused(argument) => result matches Err(error) && error@ == unexpected_view(
                argument,
            ),
            Reading::Paused(_, argument, _, _) => result matches Err(error) && error@
                == unexpected_view(argument),
            Reading::Failed(refused) => result matches Err(error) && error@ == refused,
        },
{
    let mut reader = Reader::new();
    let mut parser = parser_for(arguments);
    let ghost step = |state: ReaderView, argument: ArgumentView| accepted(state, argument);
    loop
        invariant
            step == |state: ReaderView, argument: ArgumentView| accepted(state, argument),
            parsed(strings(arguments@)) == read_all(reader@, step, upcoming(parser)),
        decreases weight(unread(parser)),
    {
        let argument = match next_argument(&mut parser) {
            Err(error) => {
                return Err(error_of(error));
            },
            Ok(None) => {
                return match reader.finish() {
                    Some(args) => Ok(args),
                    None => Err(missing("missing argument FILE")),
                };
            },
            Ok(Some(argument)) => argument,
        };
        match reader.accept(&argument) {
            Reaction::Taken => {},
            _ => {
                return Err(unexpected(&argument));
            },
        }
    }
}

/// The text that explains the command line.
pub open spec fn usage_text() -> Seq<char> {
    "Usage: sponge [-a] FILE\n"@
}

/// The usage message.
pub fn usage() -> (text: &'static str)
    ensures
        text@ == usage_text(),
{
    "Usage: sponge [-a] FILE\n"
}

} // verus!
