//! Editing what flows through a pipe.

use crate::arguments::{
    condition, error_of, last_option, lemma_value_takes, next_argument, option_value, optional_text,
    parser_for, read_arguments, read_whole, strings, unexpected, unexpected_view, unread,
    upcoming, weight, Argument, ArgumentView, ArgumentsError, Reaction, Reading,
};
use vstd::prelude::*;

verus! {

/// What one argument does: `--suffix` takes a value, and anything else is
/// refused.
pub open spec fn accepted(argument: ArgumentView) -> Reaction {
    if argument.is_long("suffix"@) {
        Reaction::WantsValue
    } else {
        Reaction::Unexpected
    }
}

/// Decides what one argument does.
pub fn accept(argument: &Argument) -> (reaction: Reaction)
    ensures
        reaction == accepted(argument@),
{
    if argument.is_long("suffix") {
        Reaction::WantsValue
    } else {
        Reaction::Unexpected
    }
}

/// How the reading of the arguments of the program ends, with the extension
/// that was read: every option that `lexopt` hands out is judged as
/// [`accepted`] says, and the value of the last `--suffix` counts.
pub open spec fn parsed(arguments: Seq<Seq<char>>) -> Reading<Option<Seq<char>>> {
    read_arguments(
        None,
        |suffix: Option<Seq<char>>, argument: ArgumentView| (suffix, accepted(argument)),
        |suffix: Option<Seq<char>>, value: Seq<char>| Some(value),
        arguments,
    )
}

/// Reads the arguments of the program, without its name: the extension of
/// the temporary file, where `--suffix` gives one. The last `--suffix`
/// counts.
///
/// The arguments are split by `lexopt`; every option it hands out is judged
/// by [`accept`], and the first one that is refused ends the reading with
/// an error that names it. A `--suffix` without a value ends it with an
/// error too.
pub fn parse_args(arguments: &Vec<String>) -> (result: Result<Option<String>, ArgumentsError>)
    ensures
        match parsed(strings(arguments@)) {
            Reading::Done(suffix) => result matches Ok(read) && optional_text(read) == suffix,
            Reading::Help => false,
            Reading::Refused(argument) => result matches Err(error) && error@ == unexpected_view(
                argument,
            ),
            Reading::Paused(_, argument, _, _) => result matches Err(error) && error@
                == unexpected_view(argument),
            Reading::Failed(refused) => result matches Err(error) && error@ == refused,
        },
{
    let mut suffix: Option<String> = None;
    let mut parser = parser_for(arguments);
    let ghost step = |suffix: Option<Seq<char>>, argument: ArgumentView|
        (suffix, accepted(argument));
    let ghost give = |suffix: Option<Seq<char>>, value: Seq<char>| Some(value);
    let ghost mut bound: nat = weight(strings(arguments@)) + 1;
    loop
        invariant
            step == |suffix: Option<Seq<char>>, argument: ArgumentView|
                (suffix, accepted(argument)),
            give == |suffix: Option<Seq<char>>, value: Seq<char>| Some(value),
            weight(unread(parser)) < bound,
            parsed(strings(arguments@)) == read_whole(
                optional_text(suffix),
                step,
                give,
                upcoming(parser),
                bound,
                last_option(parser),
            ),
        decreases weight(unread(parser)),
    {
        let argument = match next_argument(&mut parser) {
            Err(error) => {
                return Err(error_of(error));
            },
            Ok(None) => {
                return Ok(suffix);
            },
            Ok(Some(argument)) => argument,
        };
        match accept(&argument) {
            Reaction::WantsValue => {
                proof {
                    lemma_value_takes(condition(parser));
                }
                match option_value(&mut parser) {
                    Ok(value) => {
                        proof {
                            bound = weight(unread(parser)) + 1;
                        }
                        suffix = Some(value);
                    },
                    Err(error) => {
                        return Err(error_of(error));
                    },
                }
            },
            _ => {
                return Err(unexpected(&argument));
            },
        }
    }
}

/// The text that explains the command line.
pub open spec fn usage_text() -> Seq<char> {
    "Usage: vipe [--suffix=EXTENSION]\n"@
}

/// The usage message.
pub fn usage() -> (text: &'static str)
    ensures
        text@ == usage_text(),
{
    "Usage: vipe [--suffix=EXTENSION]\n"
}

} // verus!
