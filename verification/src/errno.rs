//! Looking up the names and the descriptions of the error numbers of the
//! system.

use crate::arguments::{
    condition, error_of, last_option, lemma_value_takes, missing, next_argument, option_value, parser_for,
    read_arguments, read_whole, strings, unexpected, unexpected_view, unread, upcoming, weight,
    Argument, ArgumentView, ArgumentsError, ArgumentsErrorView, Reaction, Reading,
};
use crate::text::{
    ascii_bytes, ascii_string, ascii_text, contains_text, is_part, lowercased, parse_signed,
    same_text, signed_decimal, signed_digits, signed_value, to_lower_text, to_upper_text,
    uppercased,
};
use crate::patterns::{compile, first_match_removed, well_formed, without_first_match};
use vstd::prelude::*;
use vstd::string::StringExecFns;

verus! {

/// What is looked up.
#[derive(Clone, Debug, PartialEq, Eq)]
pub enum Mode {
    /// The error with this name, in any mix of cases.
    LookupName(String),
    /// The errors with this number.
    LookupCode(i32),
    /// All errors.
    List,
    /// The errors whose description holds this text, in any mix of cases.
    Search(String),
    /// As `Search`, in the descriptions of all languages.
    SearchAllLocale(String),
}

/// The mathematical value of a [`Mode`].
pub enum ModeView {
    LookupName(Seq<char>),
    LookupCode(i32),
    List,
    Search(Seq<char>),
    SearchAllLocale(Seq<char>),
}

impl View for Mode {
    type V = ModeView;

    open spec fn view(&self) -> ModeView {
        match self {
            Mode::LookupName(name) => ModeView::LookupName(name@),
            Mode::LookupCode(code) => ModeView::LookupCode(*code),
            Mode::List => ModeView::List,
            Mode::Search(text) => ModeView::Search(text@),
            Mode::SearchAllLocale(text) => ModeView::SearchAllLocale(text@),
        }
    }
}

/// The mode that may be missing, as a mathematical value.
pub open spec fn optional_mode(mode: Option<Mode>) -> Option<ModeView> {
    match mode {
        Some(mode) => Some(mode@),
        None => None,
    }
}

/// The option whose value is read next.
#[derive(Clone, Copy, Debug, PartialEq, Eq, Structural)]
pub enum Wanted {
    Search,
    SearchAllLocale,
}

/// What the arguments read so far ask for.
#[derive(Clone, Debug, PartialEq, Eq)]
pub struct Reader {
    pub mode: Option<Mode>,
    /// The option that waits for its value.
    pub wanted: Option<Wanted>,
}

/// The mathematical value of a [`Reader`].
pub struct ReaderView {
    pub mode: Option<ModeView>,
    pub wanted: Option<Wanted>,
}

impl View for Reader {
    type V = ReaderView;

    open spec fn view(&self) -> ReaderView {
        ReaderView { mode: optional_mode(self.mode), wanted: self.wanted }
    }
}

/// Whether every character of a text is an ASCII character.
pub open spec fn all_ascii(text: Seq<char>) -> bool {
    forall|i: int| 0 <= i < text.len() ==> ((#[trigger] text[i]) as u32) < 0x80
}

/// The number that a text of ASCII characters writes, if it writes one.
pub open spec fn code_of(text: Seq<char>) -> Option<i32> {
    if all_ascii(text) {
        signed_value(text.map_values(|c: char| c as u8))
    } else {
        None
    }
}

/// What a value that stands alone asks for: the errors of a number where it
/// writes one, and else the error of a name.
pub open spec fn lookup_of(value: Seq<char>) -> ModeView {
    match code_of(value) {
        Some(code) => ModeView::LookupCode(code),
        None => ModeView::LookupName(value),
    }
}

/// What one argument does: `-l` asks for the list, `-s` and `-S` take a
/// value to search for, the first value that stands alone is looked up, and
/// anything else is refused.
pub open spec fn accepted(reader: ReaderView, argument: ArgumentView) -> (ReaderView, Reaction) {
    if argument.is_short('l') || argument.is_long("list"@) {
        (ReaderView { mode: Some(ModeView::List), wanted: None }, Reaction::Taken)
    } else if argument.is_short('s') || argument.is_long("search"@) {
        (ReaderView { wanted: Some(Wanted::Search), ..reader }, Reaction::WantsValue)
    } else if argument.is_short('S') || argument.is_long("search-all-locales"@) {
        (ReaderView { wanted: Some(Wanted::SearchAllLocale), ..reader }, Reaction::WantsValue)
    } else {
        match argument {
            ArgumentView::Value(value) => if reader.mode is None {
                (ReaderView { mode: Some(lookup_of(value)), wanted: None }, Reaction::Taken)
            } else {
                (reader, Reaction::Unexpected)
            },
            _ => (reader, Reaction::Unexpected),
        }
    }
}

/// What the value of an option does: it is the text to search for.
pub open spec fn valued(reader: ReaderView, value: Seq<char>) -> ReaderView {
    match reader.wanted {
        Some(Wanted::Search) => ReaderView { mode: Some(ModeView::Search(value)), wanted: None },
        Some(Wanted::SearchAllLocale) => ReaderView {
            mode: Some(ModeView::SearchAllLocale(value)),
            wanted: None,
        },
        None => reader,
    }
}

/// Reads the number that a text writes, if it writes one.
pub fn read_code(text: &str) -> (code: Option<i32>)
    ensures
        code == code_of(text@),
{
    match ascii_bytes(text) {
        Some(bytes) => {
            proof {
                assert(text@.map_values(|c: char| c as u8) =~= bytes@) by {
                    assert forall|i: int| 0 <= i < bytes@.len() implies text@[i] as u8
                        == bytes@[i] by {
                        assert(ascii_text(bytes@)[i] == text@[i]);
                    }
                }
                assert forall|i: int| 0 <= i < text@.len() implies ((#[trigger] text@[i]) as u32)
                    < 0x80 by {
                    assert(ascii_text(bytes@)[i] == text@[i]);
                    assert(bytes@[i] < 0x80);
                }
            }
            parse_signed(&bytes)
        },
        None => None,
    }
}

impl Reader {
    /// A reader that has read nothing yet.
    pub fn new() -> (reader: Reader)
        ensures
            reader@ == (ReaderView { mode: None, wanted: None }),
    {
        Reader { mode: None, wanted: None }
    }

    /// Takes in one argument.
    pub fn accept(&mut self, argument: &Argument) -> (reaction: Reaction)
        ensures
            (final(self)@, reaction) == accepted(old(self)@, argument@),
    {
        if argument.is_short('l') || argument.is_long("list") {
            self.mode = Some(Mode::List);
            self.wanted = None;
            Reaction::Taken
        } else if argument.is_short('s') || argument.is_long("search") {
            self.wanted = Some(Wanted::Search);
            Reaction::WantsValue
        } else if argument.is_short('S') || argument.is_long("search-all-locales") {
            self.wanted = Some(Wanted::SearchAllLocale);
            Reaction::WantsValue
        } else {
            match argument {
                Argument::Value(value) => {
                    if self.mode.is_none() {
                        let mode = match read_code(value.as_str()) {
                            Some(code) => Mode::LookupCode(code),
                            None => Mode::LookupName(value.clone()),
                        };
                        self.mode = Some(mode);
                        self.wanted = None;
                        Reaction::Taken
                    } else {
                        Reaction::Unexpected
                    }
                },
                _ => Reaction::Unexpected,
            }
        }
    }

    /// Takes in the value of the option that waits for one.
    pub fn accept_value(&mut self, value: String)
        ensures
            final(self)@ == valued(old(self)@, value@),
    {
        match self.wanted {
            Some(Wanted::Search) => {
                self.mode = Some(Mode::Search(value));
                self.wanted = None;
            },
            Some(Wanted::SearchAllLocale) => {
                self.mode = Some(Mode::SearchAllLocale(value));
                self.wanted = None;
            },
            None => {},
        }
    }
}

/// How the reading of the arguments of the program ends: every argument
/// that `lexopt` hands out is taken in as [`accepted`] says, and `-s` and
/// `-S` are handed their values as [`valued`] says.
pub open spec fn parsed(arguments: Seq<Seq<char>>) -> Reading<ReaderView> {
    read_arguments(
        ReaderView { mode: None, wanted: None },
        |state: ReaderView, argument: ArgumentView| accepted(state, argument),
        |state: ReaderView, value: Seq<char>| valued(state, value),
        arguments,
    )
}

/// Reads the arguments of the program, without its name. A command line
/// that asks for nothing is refused.
///
/// The arguments are split by `lexopt`; every option or value it hands out
/// is taken in by [`Reader::accept`], and the first one that is refused ends
/// the reading with an error that names it. `-s` and `-S` take the value
/// that is attached to them, or else the next argument; without a value
/// they end the reading with an error too.
pub fn parse_args(arguments: &Vec<String>) -> (result: Result<Mode, ArgumentsError>)
    ensures
        match parsed(strings(arguments@)) {
            Reading::Done(reader) => match reader.mode {
                Some(mode) => result matches Ok(read) && read@ == mode,
                None => result matches Err(error) && error@ == ArgumentsErrorView::Custom(
                    "expected argument"@,
                ),
            },
            Reading::Help => false,
            Reading::Refused(argument) => result matches Err(error) && error@ == unexpected_view(
                argument,
            ),
            Reading::Paused(_, argument, _, _) => result matches Err(error) && error@
                == unexpected_view(argument),
            Reading::Failed(refused) => result matches Err(error) && error@ == refused,
        },
{
    let mut reader = Reader::new();
    let mut parser = parser_for(arguments);
    let ghost step = |state: ReaderView, argument: ArgumentView| accepted(state, argument);
    let ghost give = |state: ReaderView, value: Seq<char>| valued(state, value);
    let ghost mut bound: nat = weight(strings(arguments@)) + 1;
    loop
        invariant
            step == |state: ReaderView, argument: ArgumentView| accepted(state, argument),
            give == |state: ReaderView, value: Seq<char>| valued(state, value),
            weight(unread(parser)) < bound,
            parsed(strings(arguments@)) == read_whole(
                reader@,
                step,
                give,
                upcoming(parser),
                bound,
                last_option(parser),
            ),
        decreases weight(unread(parser)),
    {
        let argument = match next_argument(&mut parser) {
            Err(error) => {
                return Err(error_of(error));
            },
            Ok(None) => {
                return match reader.mode {
                    Some(mode) => Ok(mode),
                    None => Err(missing("expected argument")),
                };
            },
            Ok(Some(argument)) => argument,
        };
        match reader.accept(&argument) {
            Reaction::Taken => {},
            Reaction::WantsValue => {
                proof {
                    lemma_value_takes(condition(parser));
                }
                match option_value(&mut parser) {
                    Ok(value) => {
                        proof {
                            bound = weight(unread(parser)) + 1;
                        }
                        reader.accept_value(value);
                    },
                    Err(error) => {
                        return Err(error_of(error));
                    },
                }
            },
            _ => {
                return Err(unexpected(&argument));
            },
        }
    }
}

/// One error number of the system.
#[derive(Clone, Debug, PartialEq, Eq)]
pub struct Errno {
    /// Its name, in upper case.
    pub name: String,
    /// Its number.
    pub id: i32,
}

/// The place of the first error of `table` with the name `name`, if there
/// is one.
pub open spec fn named(table: Seq<Errno>, name: Seq<char>, found: Option<usize>) -> bool {
    match found {
        Some(i) => i < table.len() && table[i as int].name@ == name && forall|j: int|
            0 <= j < i ==> (#[trigger] table[j]).name@ != name,
        None => forall|j: int| 0 <= j < table.len() ==> (#[trigger] table[j]).name@ != name,
    }
}

/// Finds the error whose name is `name` in upper case.
pub fn find_name(table: &Vec<Errno>, name: &str) -> (found: Option<usize>)
    ensures
        named(table@, uppercased(name@), found),
{
    let upper = to_upper_text(name);
    let mut i: usize = 0;
    while i < table.len()
        invariant
            i <= table.len(),
            upper@ == uppercased(name@),
            forall|j: int| 0 <= j < i ==> (#[trigger] table@[j]).name@ != upper@,
        decreases table.len() - i,
    {
        if same_text(table[i].name.as_str(), upper.as_str()) {
            return Some(i);
        }
        i += 1;
    }
    None
}

/// The places among the first `n` for which `wanted` holds, in rising
/// order.
pub open spec fn places(n: int, wanted: spec_fn(int) -> bool) -> Seq<usize>
    decreases n,
{
    if n <= 0 {
        Seq::empty()
    } else if wanted(n - 1) {
        places(n - 1, wanted).push((n - 1) as usize)
    } else {
        places(n - 1, wanted)
    }
}

/// Finds the errors with the number `code`.
pub fn find_code(table: &Vec<Errno>, code: i32) -> (found: Vec<usize>)
    ensures
        found@ == places(table.len() as int, |i: int| table@[i].id == code),
{
    let ghost wanted = |i: int| table@[i].id == code;
    let mut found: Vec<usize> = Vec::new();
    let mut i: usize = 0;
    while i < table.len()
        invariant
            i <= table.len(),
            wanted == |i: int| table@[i].id == code,
            found@ == places(i as int, wanted),
        decreases table.len() - i,
    {
        if table[i].id == code {
            found.push(i);
        }
        i += 1;
    }
    found
}

/// Finds the descriptions that hold `needle`, in any mix of cases.
pub fn search(descriptions: &Vec<String>, needle: &str) -> (found: Vec<usize>)
    ensures
        found@ == places(
            descriptions.len() as int,
            |i: int| is_part(lowercased(descriptions@[i]@), lowercased(needle@)),
        ),
{
    let lower = to_lower_text(needle);
    let ghost wanted = |i: int| is_part(lowercased(descriptions@[i]@), lowercased(needle@));
    let mut found: Vec<usize> = Vec::new();
    let mut i: usize = 0;
    while i < descriptions.len()
        invariant
            i <= descriptions.len(),
            lower@ == lowercased(needle@),
            wanted == |i: int| is_part(lowercased(descriptions@[i]@), lowercased(needle@)),
            found@ == places(i as int, wanted),
        decreases descriptions.len() - i,
    {
        let description = to_lower_text(descriptions[i].as_str());
        if contains_text(description.as_str(), lower.as_str()) {
            found.push(i);
        }
        i += 1;
    }
    found
}

/// The pattern of the note on the number that the system adds to its
/// descriptions.
pub open spec fn note_pattern_text() -> Seq<char> {
    r" \(os error \d+\)"@
}

/// The pattern of the note on the number that the system adds to its
/// descriptions.
pub fn note_pattern() -> (text: &'static str)
    ensures
        text@ == note_pattern_text(),
{
    r" \(os error \d+\)"
}

/// The description of an error as the system words it, without the note on
/// the number; `None` where the pattern of the note cannot be compiled.
pub fn description(worded: &str) -> (plain: Option<String>)
    ensures
        plain is Some <==> well_formed(note_pattern_text()),
        plain matches Some(text) ==> text@ == first_match_removed(note_pattern_text(), worded@),
{
    match compile(note_pattern()) {
        Some(pattern) => Some(without_first_match(&pattern, worded)),
        None => None,
    }
}

/// One line of output: the name, the number and the description, with a
/// space between them.
pub open spec fn line_text(name: Seq<char>, id: int, description: Seq<char>) -> Seq<char> {
    name + " "@ + ascii_text(signed_digits(id)) + " "@ + description
}

/// Writes one line of output.
pub fn line(errno: &Errno, description: &str) -> (text: String)
    ensures
        text@ == line_text(errno.name@, errno.id as int, description@),
{
    let mut text = errno.name.clone();
    text.append(" ");
    text.append(ascii_string(&signed_decimal(errno.id)).as_str());
    text.append(" ");
    text.append(description);
    text
}

/// The text that explains the command line.
pub open spec fn usage_text() -> Seq<char> {
    "Usage: errno [-lsS] [--list] [--search] [--search-all-locales] [keyword]\n"@
}

/// The usage message.
pub fn usage() -> (text: &'static str)
    ensures
        text@ == usage_text(),
{
    "Usage: errno [-lsS] [--list] [--search] [--search-all-locales] [keyword]\n"
}

} // verus!
