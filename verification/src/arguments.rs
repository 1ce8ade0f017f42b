//! Reading a command line with the `lexopt` crate.
//!
//! The parser of `lexopt` splits the arguments of a program into options
//! and values. What a tool makes of them is decided, argument by argument,
//! in the module of the tool.

use crate::text::{push_char, same_text};
use vstd::prelude::*;
use vstd::string::StringExecFns;

verus! {

/// The parser of the `lexopt` crate. Nothing is known of what it holds but
/// what [`condition`], [`last_option`] and [`upcoming`] name.
#[verifier::external_type_specification]
#[verifier::external_body]
pub struct ExParser(lexopt::Parser);

/// The error of the `lexopt` crate. Nothing is known of what it holds but
/// what [`refusal`] names; [`error_of`] turns it into an error of this
/// library.
#[verifier::external_type_specification]
#[verifier::external_body]
pub struct ExError(lexopt::Error);

/// One argument as the parser hands it out.
#[derive(Clone, Debug, PartialEq, Eq)]
pub enum Argument {
    /// A short option, such as `q` for `-q`.
    Short(char),
    /// A long option, such as `verbose` for `--verbose`.
    Long(String),
    /// An argument that is no option.
    Value(String),
}

/// The mathematical value of an [`Argument`].
pub enum ArgumentView {
    Short(char),
    Long(Seq<char>),
    Value(Seq<char>),
}

impl View for Argument {
    type V = ArgumentView;

    open spec fn view(&self) -> ArgumentView {
        match self {
            Argument::Short(c) => ArgumentView::Short(*c),
            Argument::Long(name) => ArgumentView::Long(name@),
            Argument::Value(value) => ArgumentView::Value(value@),
        }
    }
}

/// What a parser has yet to hand out.
pub struct Condition {
    /// The value that is attached to the option that was handed out last
    /// and that was not taken: what stands behind the `=` of a long option,
    /// or what is left of a group of short options, without the `=` that
    /// may lead it.
    pub attached: Option<Seq<char>>,
    /// The arguments that the parser has not reached yet.
    pub left: Seq<Seq<char>>,
    /// Whether the parser has passed `--`: what is left is handed out as
    /// values, whatever it looks like.
    pub values_only: bool,
}

/// What a parser has yet to hand out: the fields `state` and `source` of
/// `lexopt::Parser`, as texts.
pub uninterp spec fn condition(parser: lexopt::Parser) -> Condition;

/// The condition of a parser that was made for `arguments` and has handed
/// out nothing.
pub open spec fn fresh(arguments: Seq<Seq<char>>) -> Condition {
    Condition { attached: None, left: arguments, values_only: false }
}

/// The arguments that a parser in this condition has not passed yet; a
/// value that is attached counts as one argument.
pub open spec fn pending(condition: Condition) -> Seq<Seq<char>> {
    match condition.attached {
        Some(value) => seq![value] + condition.left,
        None => condition.left,
    }
}

/// The arguments that a parser has not passed yet.
pub open spec fn unread(parser: lexopt::Parser) -> Seq<Seq<char>> {
    pending(condition(parser))
}

/// The option that a parser has handed out last, with its dashes: the
/// field `last_option` of `lexopt::Parser`, as `lexopt` words it in its
/// errors.
pub uninterp spec fn last_option(parser: lexopt::Parser) -> Option<Seq<char>>;

/// What an error of `lexopt` says: its variant, and its fields as texts.
pub uninterp spec fn refusal(error: lexopt::Error) -> ArgumentsErrorView;

/// The option that was handed out last once `argument` is handed out
/// behind `last`: an option takes the place, a value leaves it.
pub open spec fn named_last(last: Option<Seq<char>>, argument: ArgumentView) -> Option<
    Seq<char>,
> {
    match argument {
        ArgumentView::Short(c) => Some(seq!['-', c]),
        ArgumentView::Long(name) => Some(seq!['-', '-'] + name),
        ArgumentView::Value(_) => last,
    }
}

/// One step of the reading of a command line: an argument with the
/// condition of the parser behind it, or the failure that ends the reading,
/// with what it says.
pub enum Lexeme {
    Item(ArgumentView, Condition),
    Failure(ArgumentsErrorView),
}

/// What the parser will hand out from now on, call by call, as long as it
/// is only asked for the next argument: the arguments up to the end of the
/// command line, or up to the first failure and with it.
pub uninterp spec fn upcoming(parser: lexopt::Parser) -> Seq<Lexeme>;

/// What a parser hands out, call by call, that was made for `arguments`
/// and is only asked for the next argument.
pub uninterp spec fn lexed(arguments: Seq<Seq<char>>) -> Seq<Lexeme>;

/// How the reading of a command line ends where every argument is taken in
/// by one rule.
pub enum Reading<S> {
    /// The command line was read to its end, with this result.
    Done(S),
    /// An argument asked for the usage.
    Help,
    /// This argument was refused.
    Refused(ArgumentView),
    /// This argument asked for more than the next argument: for its value,
    /// or for the rest of the command line. What was read up to and with it
    /// comes first, then the argument and its reaction, and last the
    /// condition of the parser behind the argument.
    Paused(S, ArgumentView, Reaction, Condition),
    /// The parser failed, with this error.
    Failed(ArgumentsErrorView),
}

/// How the reading of `lexemes` ends where it starts from `start` and takes
/// in every argument as `step` says: the first argument that is not simply
/// taken ends it, and so does a failure of the parser.
pub open spec fn read_all<S>(
    start: S,
    step: spec_fn(S, ArgumentView) -> (S, Reaction),
    lexemes: Seq<Lexeme>,
) -> Reading<S>
    decreases lexemes.len(),
{
    if lexemes.len() == 0 {
        Reading::Done(start)
    } else {
        match lexemes[0] {
            Lexeme::Failure(error) => Reading::Failed(error),
            Lexeme::Item(argument, behind) => {
                let (next, reaction) = step(start, argument);
                match reaction {
                    Reaction::Taken => read_all(next, step, lexemes.skip(1)),
                    Reaction::Help => Reading::Help,
                    Reaction::Unexpected => Reading::Refused(argument),
                    _ => Reading::Paused(next, argument, reaction, behind),
                }
            },
        }
    }
}

/// What a parser in this condition hands out as the value of the option
/// that it handed out last, and its condition then: the value that is
/// attached where there is one, and else the next argument, whatever it
/// looks like; `None` where there is neither.
pub open spec fn value_behind(condition: Condition) -> Option<(Seq<char>, Condition)> {
    match condition.attached {
        Some(value) => Some((value, Condition { attached: None, ..condition })),
        None => if condition.left.len() > 0 {
            Some((condition.left[0], Condition { left: condition.left.skip(1), ..condition }))
        } else {
            None
        },
    }
}

/// The arguments that a parser in this condition has not reached yet, as
/// it hands them out in one piece; `None` where a value is attached that
/// was not taken.
pub open spec fn rest_behind(condition: Condition) -> Option<Seq<Seq<char>>> {
    if condition.attached is Some {
        None
    } else {
        Some(condition.left)
    }
}

/// What is handed out of the arguments `left` by a parser that has passed
/// `--`: each of them as a value.
pub open spec fn values(left: Seq<Seq<char>>) -> Seq<Lexeme> {
    Seq::new(
        left.len(),
        |i: int|
            Lexeme::Item(
                ArgumentView::Value(left[i]),
                Condition { attached: None, left: left.skip(i + 1), values_only: true },
            ),
    )
}

/// What a parser hands out, call by call, from a condition in which no
/// value is attached.
pub open spec fn resumed(condition: Condition) -> Seq<Lexeme> {
    if condition.values_only {
        values(condition.left)
    } else {
        lexed(condition.left)
    }
}

/// How the reading of `lexemes` ends where it starts from `start`, takes in
/// every argument as `step` says, and hands every option that asks for its
/// value that value, as `give` says; the reading goes on behind the value.
/// An option that finds no value ends the reading with the error that names
/// the option that was handed out last; `last` is that option before the
/// reading.
///
/// `bound` is more than the weight of what the parser has not passed; it
/// serves to show that the reading ends.
pub open spec fn read_whole<S>(
    start: S,
    step: spec_fn(S, ArgumentView) -> (S, Reaction),
    give: spec_fn(S, Seq<char>) -> S,
    lexemes: Seq<Lexeme>,
    bound: nat,
    last: Option<Seq<char>>,
) -> Reading<S>
    decreases bound, lexemes.len(),
{
    if lexemes.len() == 0 {
        Reading::Done(start)
    } else {
        match lexemes[0] {
            Lexeme::Failure(error) => Reading::Failed(error),
            Lexeme::Item(argument, behind) => {
                let (next, reaction) = step(start, argument);
                let named = named_last(last, argument);
                match reaction {
                    Reaction::Taken => read_whole(
                        next,
                        step,
                        give,
                        lexemes.skip(1),
                        bound,
                        named,
                    ),
                    Reaction::Help => Reading::Help,
                    Reaction::Unexpected => Reading::Refused(argument),
                    Reaction::WantsValue => match value_behind(behind) {
                        Some((value, after)) => if weight(pending(after)) + 1 < bound {
                            read_whole(
                                give(next, value),
                                step,
                                give,
                                resumed(after),
                                weight(pending(after)) + 1,
                                named,
                            )
                        } else {
                            Reading::Failed(ArgumentsErrorView::MissingValue { option: named })
                        },
                        None => Reading::Failed(
                            ArgumentsErrorView::MissingValue { option: named },
                        ),
                    },
                    Reaction::WantsRest => Reading::Paused(next, argument, reaction, behind),
                }
            },
        }
    }
}

/// How the reading of the arguments of a program ends where options are
/// handed their values.
pub open spec fn read_arguments<S>(
    start: S,
    step: spec_fn(S, ArgumentView) -> (S, Reaction),
    give: spec_fn(S, Seq<char>) -> S,
    arguments: Seq<Seq<char>>,
) -> Reading<S> {
    read_whole(start, step, give, lexed(arguments), weight(arguments) + 1, None)
}

/// The characters of a list of arguments, with one more for each argument.
pub open spec fn weight(arguments: Seq<Seq<char>>) -> nat
    decreases arguments.len(),
{
    if arguments.len() == 0 {
        0
    } else {
        arguments[0].len() + 1 + weight(arguments.skip(1))
    }
}

/// Taking the value of an option leaves less to read.
pub proof fn lemma_value_takes(condition: Condition)
    ensures
        value_behind(condition) matches Some((_, after)) ==> weight(pending(after)) < weight(
            pending(condition),
        ),
{
    match condition.attached {
        Some(value) => {
            assert((seq![value] + condition.left).skip(1) =~= condition.left);
        },
        None => {},
    }
}

/// The texts of a list of strings.
pub open spec fn strings(arguments: Seq<String>) -> Seq<Seq<char>> {
    arguments.map_values(|argument: String| argument@)
}

/// A parser for the arguments of a program, without its name.
///
/// Trusted: this is `lexopt::Parser::from_args`, which keeps the arguments
/// it is given and has passed none of them yet, so that it has handed out
/// no option. What it will hand out is named by [`lexed`].
#[verifier::external_body]
pub(crate) fn parser_for(arguments: &Vec<String>) -> (parser: lexopt::Parser)
    ensures
        condition(parser) == fresh(strings(arguments@)),
        upcoming(parser) == lexed(strings(arguments@)),
        last_option(parser) is None,
{
    lexopt::Parser::from_args(arguments.iter().map(|argument| argument.as_str()))
}

/// The next option or value of the command line, or `None` at its end.
///
/// Trusted: this is `lexopt::Parser::next`. Every argument that it hands
/// out takes at least one character or one whole argument from what is
/// unread. What it hands out is the first of what [`upcoming`] names for the
/// parser, which tells the condition of the parser behind it too, and the
/// rest is what is upcoming then; at the end of the command line nothing is
/// upcoming, before or after. Only an option can have a value attached. An
/// option that is handed out is the one handed out last from then on. The
/// only failure is that of an option with a value attached that was not
/// taken.
#[verifier::external_body]
pub(crate) fn next_argument(parser: &mut lexopt::Parser) -> (result: Result<
    Option<Argument>,
    lexopt::Error,
>)
    ensures
        result matches Ok(Some(_)) ==> weight(unread(*final(parser))) < weight(
            unread(*old(parser)),
        ),
        result matches Ok(Some(Argument::Value(_))) ==> condition(*final(parser)).attached is None,
        match result {
            Ok(Some(argument)) => upcoming(*old(parser)).len() > 0 && upcoming(*old(parser))[0]
                == Lexeme::Item(argument@, condition(*final(parser))) && upcoming(*final(parser))
                == upcoming(*old(parser)).skip(1),
            Ok(None) => upcoming(*old(parser)).len() == 0 && upcoming(*final(parser)).len() == 0,
            Err(error) => upcoming(*old(parser)).len() > 0 && upcoming(*old(parser))[0]
                == Lexeme::Failure(refusal(error)) && refusal(error) is UnexpectedValue,
        },
        result matches Ok(Some(argument)) ==> last_option(*final(parser)) == named_last(
            last_option(*old(parser)),
            argument@,
        ),
{
    Ok(
        match parser.next()? {
            Some(lexopt::Arg::Short(c)) => Some(Argument::Short(c)),
            Some(lexopt::Arg::Long(name)) => Some(Argument::Long(name.to_string())),
            Some(lexopt::Arg::Value(value)) => Some(
                Argument::Value(value.to_string_lossy().into_owned()),
            ),
            None => None,
        },
    )
}

/// The value that belongs to the option that was handed out last.
///
/// Trusted: this is `lexopt::Parser::value`. It hands out the value that is
/// attached to the option where there is one, and else the next argument,
/// whatever it looks like; it fails where there is neither, with the error
/// that names the option that was handed out last. Behind the value nothing
/// is attached, and the parser goes on with the arguments it has not
/// reached, as [`resumed`] says.
#[verifier::external_body]
pub(crate) fn option_value(parser: &mut lexopt::Parser) -> (result: Result<String, lexopt::Error>)
    ensures
        match result {
            Ok(value) => value_behind(condition(*old(parser))) == Some(
                (value@, condition(*final(parser))),
            ),
            Err(error) => value_behind(condition(*old(parser))) is None && refusal(error) == (
            ArgumentsErrorView::MissingValue { option: last_option(*old(parser)) }),
        },
        result is Ok ==> upcoming(*final(parser)) == resumed(condition(*final(parser))),
        result is Ok ==> last_option(*final(parser)) == last_option(*old(parser)),
{
    Ok(parser.value()?.to_string_lossy().into_owned())
}

/// All arguments that the parser has not reached, as they stand.
///
/// Trusted: this is `lexopt::Parser::raw_args`, read to its end. It fails
/// where an option has a value attached that was not taken, and else hands
/// out the arguments that were not reached.
#[verifier::external_body]
pub(crate) fn remaining_arguments(parser: &mut lexopt::Parser) -> (result: Result<
    Vec<String>,
    lexopt::Error,
>)
    ensures
        match result {
            Ok(rest) => rest_behind(condition(*old(parser))) == Some(strings(rest@)),
            Err(error) => rest_behind(condition(*old(parser))) is None && refusal(error)
                is UnexpectedValue,
        },
{
    Ok(parser.raw_args()?.map(|argument| argument.to_string_lossy().into_owned()).collect())
}

/// What a tool makes of one argument.
#[derive(Clone, Copy, Debug, PartialEq, Eq, Structural)]
pub enum Reaction {
    /// The argument was taken in; the next one is read.
    Taken,
    /// The argument asks for the usage: nothing else is read.
    Help,
    /// The argument is refused.
    Unexpected,
    /// The argument is an option whose value is read next.
    WantsValue,
    /// The argument is the command: all that follows is read as it stands.
    WantsRest,
}

impl ArgumentView {
    /// Whether the argument is the short option `short`.
    pub open spec fn is_short(self, short: char) -> bool {
        self == ArgumentView::Short(short)
    }

    /// Whether the argument is the long option `long`.
    pub open spec fn is_long(self, long: Seq<char>) -> bool {
        self == ArgumentView::Long(long)
    }
}

impl Argument {
    /// Whether the argument is the short option `short`.
    pub fn is_short(&self, short: char) -> (same: bool)
        ensures
            same == self@.is_short(short),
    {
        match self {
            Argument::Short(c) => *c == short,
            _ => false,
        }
    }

    /// Whether the argument is the long option `long`.
    pub fn is_long(&self, long: &str) -> (same: bool)
        ensures
            same == self@.is_long(long@),
    {
        match self {
            Argument::Long(name) => same_text(name.as_str(), long),
            _ => false,
        }
    }
}

/// The text of a string that may be missing.
pub open spec fn optional_text(text: Option<String>) -> Option<Seq<char>> {
    match text {
        Some(text) => Some(text@),
        None => None,
    }
}

/// Why a command line was refused.
#[derive(Clone, Debug, PartialEq, Eq)]
pub enum ArgumentsError {
    /// An option is not followed by the value it needs.
    MissingValue { option: Option<String> },
    /// An option is not one that the tool knows.
    UnexpectedOption(String),
    /// A value stands where none is taken.
    UnexpectedArgument(String),
    /// An option has a value attached and takes none.
    UnexpectedValue { option: String, value: String },
    /// Something else is wrong; the text says what.
    Custom(String),
}

/// The mathematical value of an [`ArgumentsError`].
pub enum ArgumentsErrorView {
    MissingValue { option: Option<Seq<char>> },
    UnexpectedOption(Seq<char>),
    UnexpectedArgument(Seq<char>),
    UnexpectedValue { option: Seq<char>, value: Seq<char> },
    Custom(Seq<char>),
}

impl View for ArgumentsError {
    type V = ArgumentsErrorView;

    open spec fn view(&self) -> ArgumentsErrorView {
        match self {
            ArgumentsError::MissingValue { option } => ArgumentsErrorView::MissingValue {
                option: optional_text(*option),
            },
            ArgumentsError::UnexpectedOption(option) => ArgumentsErrorView::UnexpectedOption(
                option@,
            ),
            ArgumentsError::UnexpectedArgument(value) => ArgumentsErrorView::UnexpectedArgument(
                value@,
            ),
            ArgumentsError::UnexpectedValue { option, value } => ArgumentsErrorView::UnexpectedValue {
                option: option@,
                value: value@,
            },
            ArgumentsError::Custom(text) => ArgumentsErrorView::Custom(text@),
        }
    }
}

/// The error of this library that stands for an error of `lexopt`.
///
/// Trusted: the variants of `lexopt::Error` are told apart and their fields
/// are handed on as text; an error that no reading of options gives is
/// handed on as the sentence that `lexopt` words it with. The result is
/// what [`refusal`] names for the error.
#[verifier::external_body]
pub(crate) fn error_of(error: lexopt::Error) -> (told: ArgumentsError)
    ensures
        told@ == refusal(error),
{
    match error {
        lexopt::Error::MissingValue { option } => ArgumentsError::MissingValue { option },
        lexopt::Error::UnexpectedOption(option) => ArgumentsError::UnexpectedOption(option),
        lexopt::Error::UnexpectedArgument(value) => ArgumentsError::UnexpectedArgument(
            value.to_string_lossy().into_owned(),
        ),
        lexopt::Error::UnexpectedValue { option, value } => ArgumentsError::UnexpectedValue {
            option,
            value: value.to_string_lossy().into_owned(),
        },
        other => ArgumentsError::Custom(other.to_string()),
    }
}

/// The error that says that `argument` was not expected: an option is
/// named with its dashes, a value as it stands.
pub open spec fn unexpected_view(argument: ArgumentView) -> ArgumentsErrorView {
    match argument {
        ArgumentView::Short(c) => ArgumentsErrorView::UnexpectedOption(seq!['-', c]),
        ArgumentView::Long(name) => ArgumentsErrorView::UnexpectedOption(seq!['-', '-'] + name),
        ArgumentView::Value(value) => ArgumentsErrorView::UnexpectedArgument(value),
    }
}

/// The error that says that `argument` was not expected.
pub fn unexpected(argument: &Argument) -> (error: ArgumentsError)
    ensures
        error@ == unexpected_view(argument@),
{
    match argument {
        Argument::Short(c) => {
            let mut option = String::new();
            push_char(&mut option, '-');
            push_char(&mut option, *c);
            assert(option@ =~= seq!['-', *c]);
            ArgumentsError::UnexpectedOption(option)
        },
        Argument::Long(name) => {
            let mut option = String::new();
            push_char(&mut option, '-');
            push_char(&mut option, '-');
            option.append(name.as_str());
            assert(option@ =~= seq!['-', '-'] + name@);
            ArgumentsError::UnexpectedOption(option)
        },
        Argument::Value(value) => ArgumentsError::UnexpectedArgument(value.clone()),
    }
}

/// The error that says what the tool is missing.
pub fn missing(text: &str) -> (error: ArgumentsError)
    ensures
        error@ == ArgumentsErrorView::Custom(text@),
{
    ArgumentsError::Custom(String::from_str(text))
}

} // verus!
