//! Putting a time in front of every line, or rewriting the times that the
//! lines hold.

use crate::arguments::{
    error_of, lexed, next_argument, optional_text, parser_for, read_all, strings, unexpected,
    unexpected_view, unread, upcoming, weight, Argument, ArgumentView, ArgumentsError, Reaction,
    Reading,
};
use crate::patterns::{compile, compiled_from, cut_at, locate, well_formed, Located};
use crate::text::{ascii_string, ascii_text, decimal, decimal_digits, push_char};
use std::fmt::Write;
use vstd::prelude::*;
use vstd::string::{StrSliceExecFns, StringExecFns};

verus! {

/// Which time is put in front of a line.
#[derive(Clone, Copy, Debug, PartialEq, Eq, Structural)]
pub enum TimeMode {
    /// The time of day.
    Absolute,
    /// The time since the line before.
    Incremental,
    /// The time since the program started.
    SinceStart,
}

/// What a command line asks for.
#[derive(Clone, Debug, PartialEq, Eq)]
pub struct Args {
    /// Whether the times in the lines are rewritten.
    pub relative: bool,
    pub time_mode: TimeMode,
    /// Whether the clock that never goes back is used.
    pub monotonic: bool,
    pub format_arg: Option<String>,
}

/// The mathematical value of [`Args`].
pub struct ArgsView {
    pub relative: bool,
    pub time_mode: TimeMode,
    pub monotonic: bool,
    pub format_arg: Option<Seq<char>>,
}

impl View for Args {
    type V = ArgsView;

    open spec fn view(&self) -> ArgsView {
        ArgsView {
            relative: self.relative,
            time_mode: self.time_mode,
            monotonic: self.monotonic,
            format_arg: optional_text(self.format_arg),
        }
    }
}

/// What one argument does: `-r`, `-i`, `-s` and `-m` set their modes, the
/// first value is the format, and anything else is refused.
pub open spec fn accepted(args: ArgsView, argument: ArgumentView) -> (ArgsView, Reaction) {
    if argument.is_short('r') {
        (ArgsView { relative: true, ..args }, Reaction::Taken)
    } else if argument.is_short('i') {
        (ArgsView { time_mode: TimeMode::Incremental, ..args }, Reaction::Taken)
    } else if argument.is_short('s') {
        (ArgsView { time_mode: TimeMode::SinceStart, ..args }, Reaction::Taken)
    } else if argument.is_short('m') {
        (ArgsView { monotonic: true, ..args }, Reaction::Taken)
    } else {
        match argument {
            ArgumentView::Value(format) => if args.format_arg is None {
                (ArgsView { format_arg: Some(format), ..args }, Reaction::Taken)
            } else {
                (args, Reaction::Unexpected)
            },
            _ => (args, Reaction::Unexpected),
        }
    }
}

impl Args {
    /// The settings of a command line without arguments.
    pub fn new() -> (args: Args)
        ensures
            args@ == (ArgsView {
                relative: false,
                time_mode: TimeMode::Absolute,
                monotonic: false,
                format_arg: None,
            }),
    {
        Args { relative: false, time_mode: TimeMode::Absolute, monotonic: false, format_arg: None }
    }

    /// Takes in one argument.
    pub fn accept(&mut self, argument: &Argument) -> (reaction: Reaction)
        ensures
            (final(self)@, reaction) == accepted(old(self)@, argument@),
    {
        if argument.is_short('r') {
            self.relative = true;
            Reaction::Taken
        } else if argument.is_short('i') {
            self.time_mode = TimeMode::Incremental;
            Reaction::Taken
        } else if argument.is_short('s') {
            self.time_mode = TimeMode::SinceStart;
            Reaction::Taken
        } else if argument.is_short('m') {
            self.monotonic = true;
            Reaction::Taken
        } else {
            match argument {
                Argument::Value(format) => {
                    if self.format_arg.is_none() {
                        self.format_arg = Some(format.clone());
                        Reaction::Taken
                    } else {
                        Reaction::Unexpected
                    }
                },
                _ => Reaction::Unexpected,
            }
        }
    }
}

/// How the reading of the arguments of the program ends: every argument
/// that `lexopt` hands out is taken in as [`accepted`] says.
pub open spec fn parsed(arguments: Seq<Seq<char>>) -> Reading<ArgsView> {
    read_all(
        ArgsView {
            relative: false,
            time_mode: TimeMode::Absolute,
            monotonic: false,
            format_arg: None,
        },
        |state: ArgsView, argument: ArgumentView| accepted(state, argument),
        lexed(arguments),
    )
}

/// Reads the arguments of the program, without its name.
///
/// The arguments are split by `lexopt`; every option or value it hands out
/// is taken in by [`Args::accept`], and the first one that is refused ends the
/// reading with an error that names it.
pub fn parse_args(arguments: &Vec<String>) -> (result: Result<Args, ArgumentsError>)
    ensures
        match parsed(strings(arguments@)) {
            Reading::Done(read) => result matches Ok(args) && args@ == read,
            Reading::Help => false,
            Reading::Refused(argument) => result matches Err(error) && error@ == unexpected_view(
                argument,
            ),
            Reading::Paused(_, argument, _, _) => result matches Err(error) && error@
                == unexpected_view(argument),
            Reading::Failed(refused) => result matches Err(error) && error@ == refused,
        },
{
    let mut args = Args::new();
    let mut parser = parser_for(arguments);
    let ghost step = |state: ArgsView, argument: ArgumentView| accepted(state, argument);
    loop
        invariant
            step == |state: ArgsView, argument: ArgumentView| accepted(state, argument),
            parsed(strings(arguments@)) == read_all(args@, step, upcoming(parser)),
        decreases weight(unread(parser)),
    {
        let argument = match next_argument(&mut parser) {
            Err(error) => {
                return Err(error_of(error));
            },
            Ok(None) => {
                return Ok(args);
            },
            Ok(Some(argument)) => argument,
        };
        match args.accept(&argument) {
            Reaction::Taken => {},
            _ => {
                return Err(unexpected(&argument));
            },
        }
    }
}

/// The format of the time where the command line gives none: the date and
/// the time of day for the absolute time, the time of day alone for the
/// others.
pub open spec fn default_format(mode: TimeMode) -> Seq<char> {
    match mode {
        TimeMode::Absolute => "%b %d %H:%M:%S"@,
        _ => "%H:%M:%S"@,
    }
}

/// The format of the time that is put in front of the lines.
pub fn format_for(args: &Args) -> (format: String)
    ensures
        format@ == match args@.format_arg {
            Some(format) => format,
            None => default_format(args.time_mode),
        },
{
    match &args.format_arg {
        Some(format) => format.clone(),
        None => match args.time_mode {
            TimeMode::Absolute => String::from_str("%b %d %H:%M:%S"),
            _ => String::from_str("%H:%M:%S"),
        },
    }
}

/// The number of seconds in a minute.
pub const MINUTE: i64 = 60;

/// The number of seconds in an hour.
pub const HOUR: i64 = 3600;

/// The number of seconds in a day.
pub const DAY: i64 = 86400;

/// A number and its unit, with a space behind: `3d `.
pub open spec fn term(n: int, unit: char) -> Seq<char> {
    ascii_text(decimal_digits(n as nat)) + seq![unit, ' ']
}

/// `term(n, unit)` where `shown` holds, nothing where it does not.
pub open spec fn term_if(shown: bool, n: int, unit: char) -> Seq<char> {
    if shown {
        term(n, unit)
    } else {
        Seq::empty()
    }
}

/// How long ago a time was that lies `seconds` whole seconds back.
///
/// Days and hours are named where they are not zero. Minutes and seconds
/// are named where they are not zero, unless both days and hours are. A time
/// less than a second back, or ahead, is `just now`.
pub open spec fn ago_text(seconds: int) -> Seq<char> {
    if seconds <= 0 {
        "just now"@
    } else {
        let days = seconds / (DAY as int);
        let in_day = seconds % (DAY as int);
        let hours = in_day / (HOUR as int);
        let in_hour = in_day % (HOUR as int);
        let minutes = in_hour / (MINUTE as int);
        let both = days > 0 && hours > 0;
        let last = if minutes > 0 {
            in_hour % (MINUTE as int)
        } else {
            in_hour
        };
        term_if(days > 0, days, 'd') + term_if(hours > 0, hours, 'h') + term_if(
            !both && minutes > 0,
            minutes,
            'm',
        ) + term_if(!both && last > 0, last, 's') + "ago"@
    }
}

/// Adds `n` and its unit to `text` where `shown` holds.
fn push_term(text: &mut String, shown: bool, n: i64, unit: &str, Ghost(c): Ghost<char>)
    requires
        n >= 0,
        unit@ == seq![c, ' '],
    ensures
        final(text)@ == old(text)@ + term_if(shown, n as int, c),
{
    if shown {
        text.append(ascii_string(&decimal(n as u64)).as_str());
        text.append(unit);
        assert(text@ =~= old(text)@ + term(n as int, c));
    } else {
        assert(text@ =~= old(text)@ + Seq::<char>::empty());
    }
}

/// Says how long ago a time was that lies `seconds` whole seconds back.
pub fn time_ago(seconds: i64) -> (text: String)
    ensures
        text@ == ago_text(seconds as int),
{
    if seconds <= 0 {
        return String::from_str("just now");
    }
    let days = seconds / DAY;
    let in_day = seconds % DAY;
    let hours = in_day / HOUR;
    let in_hour = in_day % HOUR;
    let minutes = in_hour / MINUTE;
    let both = days > 0 && hours > 0;
    let last = if minutes > 0 {
        in_hour % MINUTE
    } else {
        in_hour
    };
    let mut text = String::new();
    proof {
        reveal_strlit("d ");
        reveal_strlit("h ");
        reveal_strlit("m ");
        reveal_strlit("s ");
        assert("d "@ =~= seq!['d', ' ']);
        assert("h "@ =~= seq!['h', ' ']);
        assert("m "@ =~= seq!['m', ' ']);
        assert("s "@ =~= seq!['s', ' ']);
    }
    push_term(&mut text, days > 0, days, "d ", Ghost('d'));
    push_term(&mut text, hours > 0, hours, "h ", Ghost('h'));
    push_term(&mut text, !both && minutes > 0, minutes, "m ", Ghost('m'));
    push_term(&mut text, !both && last > 0, last, "s ", Ghost('s'));
    text.append("ago");
    assert(text@ =~= ago_text(seconds as int));
    text
}

/// A moment and the offset of the clock that shows it.
#[derive(Clone, Copy, Debug, PartialEq, Eq, Structural)]
pub struct Timestamp {
    /// Whole seconds since the start of 1970 in universal time.
    pub seconds: i64,
    /// The nanoseconds behind the whole seconds.
    pub nanoseconds: u32,
    /// How far the clock is ahead of universal time, in seconds.
    pub offset: i32,
}

impl Timestamp {
    /// What holds of every moment that a clock of `chrono` shows: the
    /// nanoseconds stay below two seconds, which leaves room for a leap
    /// second, and the clock is less than a day ahead or behind.
    pub open spec fn wf(self) -> bool {
        self.nanoseconds < 2 * NANOSECONDS && -DAY < self.offset < DAY
    }
}

/// The moment that a triple of seconds, nanoseconds and offset stands for.
pub open spec fn moment(fields: Option<(i64, u32, i32)>) -> Option<Timestamp> {
    match fields {
        Some((seconds, nanoseconds, offset)) => Some(Timestamp { seconds, nanoseconds, offset }),
        None => None,
    }
}

/// The moment that `text` writes in the notation of RFC 3339, as
/// `chrono::DateTime::parse_from_rfc3339` reads it.
pub uninterp spec fn rfc3339_time(text: Seq<char>) -> Option<(i64, u32, i32)>;

/// The moment that `text` writes in the notation of RFC 2822, as
/// `chrono::DateTime::parse_from_rfc2822` reads it.
pub uninterp spec fn rfc2822_time(text: Seq<char>) -> Option<(i64, u32, i32)>;

/// The moment that `text` writes in the notation that `format` describes,
/// as `chrono::DateTime::parse_from_str` reads it.
pub uninterp spec fn formatted_time(text: Seq<char>, format: Seq<char>) -> Option<(i64, u32, i32)>;

/// The text of a moment in the notation that `format` describes, as
/// `chrono::DateTime::format` writes it; `None` where the format cannot be
/// written.
pub uninterp spec fn time_text(seconds: i64, nanoseconds: u32, offset: i32, format: Seq<char>)
    -> Option<Seq<char>>;

/// The year of a moment on a clock with the given offset, as
/// `chrono::Datelike::year` gives it; `None` where the moment is out of the
/// range of `chrono`.
pub uninterp spec fn year_at(seconds: i64, nanoseconds: u32, offset: i32) -> Option<i32>;

/// The moment with the same month, day and time of day in another year, as
/// `chrono::Datelike::with_year` gives it; `None` also where the moment is
/// out of the range of `chrono`.
pub uninterp spec fn in_year(seconds: i64, nanoseconds: u32, offset: i32, year: i32) -> Option<
    (i64, u32, i32),
>;

/// The whole seconds and the nanoseconds behind them from one moment to
/// another, as the difference of two `chrono::DateTime` values gives them;
/// `None` where one of the moments is out of the range of `chrono`.
pub uninterp spec fn span(from: (i64, u32), to: (i64, u32)) -> Option<(i64, i32)>;

/// Reads a moment in the notation of RFC 3339.
///
/// Trusted: this is `chrono::DateTime::parse_from_rfc3339`; the moment it
/// returns is named by [`rfc3339_time`].
#[verifier::external_body]
pub(crate) fn parse_rfc3339(text: &str) -> (time: Option<Timestamp>)
    ensures
        time == moment(rfc3339_time(text@)),
{
    chrono::DateTime::parse_from_rfc3339(text).ok().map(
        |t| Timestamp {
            seconds: t.timestamp(),
            nanoseconds: t.timestamp_subsec_nanos(),
            offset: t.offset().local_minus_utc(),
        },
    )
}

/// Reads a moment in the notation of RFC 2822.
///
/// Trusted: this is `chrono::DateTime::parse_from_rfc2822`; the moment it
/// returns is named by [`rfc2822_time`].
#[verifier::external_body]
pub(crate) fn parse_rfc2822(text: &str) -> (time: Option<Timestamp>)
    ensures
        time == moment(rfc2822_time(text@)),
{
    chrono::DateTime::parse_from_rfc2822(text).ok().map(
        |t| Timestamp {
            seconds: t.timestamp(),
            nanoseconds: t.timestamp_subsec_nanos(),
            offset: t.offset().local_minus_utc(),
        },
    )
}

/// Reads a moment in the notation that `format` describes.
///
/// Trusted: this is `chrono::DateTime::parse_from_str`; the moment it
/// returns is named by [`formatted_time`].
#[verifier::external_body]
pub(crate) fn parse_formatted(text: &str, format: &str) -> (time: Option<Timestamp>)
    ensures
        time == moment(formatted_time(text@, format@)),
{
    chrono::DateTime::parse_from_str(text, format).ok().map(
        |t| Timestamp {
            seconds: t.timestamp(),
            nanoseconds: t.timestamp_subsec_nanos(),
            offset: t.offset().local_minus_utc(),
        },
    )
}

/// Writes a moment in the notation that `format` describes.
///
/// Trusted: this is `chrono::DateTime::format`, written out into a string;
/// the text is named by [`time_text`]. A moment out of the range of
/// `chrono`, or a format that it cannot write, gives `None`.
#[verifier::external_body]
pub(crate) fn format_time(time: Timestamp, format: &str) -> (text: Option<String>)
    ensures
        optional_text(text) == time_text(time.seconds, time.nanoseconds, time.offset, format@),
{
    let zone = chrono::FixedOffset::east_opt(time.offset)?;
    let utc = chrono::DateTime::from_timestamp(time.seconds, time.nanoseconds)?;
    let mut text = String::new();
    write!(text, "{}", utc.with_timezone(&zone).format(format)).ok()?;
    Some(text)
}

/// The current moment on the clock of this machine.
///
/// Trusted: this is `chrono::Local::now`. Which moment it gives is left
/// open; like every moment of `chrono` it has fewer than two thousand million
/// nanoseconds behind its whole seconds, and an offset of less than a day.
#[verifier::external_body]
pub(crate) fn local_now() -> (now: Timestamp)
    ensures
        now.wf(),
{
    let t = chrono::Local::now();
    Timestamp {
        seconds: t.timestamp(),
        nanoseconds: t.timestamp_subsec_nanos(),
        offset: t.offset().local_minus_utc(),
    }
}

/// The year of a moment on its clock.
///
/// Trusted: this is `chrono::Datelike::year`; the year is named by
/// [`year_at`]. A moment out of the range of `chrono` gives `None`.
#[verifier::external_body]
pub(crate) fn year_of(time: Timestamp) -> (year: Option<i32>)
    ensures
        year == year_at(time.seconds, time.nanoseconds, time.offset),
{
    let zone = chrono::FixedOffset::east_opt(time.offset)?;
    let utc = chrono::DateTime::from_timestamp(time.seconds, time.nanoseconds)?;
    Some(chrono::Datelike::year(&utc.with_timezone(&zone)))
}

/// The moment with the same month, day and time of day in another year.
///
/// Trusted: this is `chrono::Datelike::with_year`; the moment is named by
/// [`in_year`]. A moment out of the range of `chrono` gives `None`, as does
/// a day that the year does not have.
#[verifier::external_body]
pub(crate) fn with_year(time: Timestamp, year: i32) -> (moved: Option<Timestamp>)
    ensures
        moved == moment(in_year(time.seconds, time.nanoseconds, time.offset, year)),
{
    let zone = chrono::FixedOffset::east_opt(time.offset)?;
    let utc = chrono::DateTime::from_timestamp(time.seconds, time.nanoseconds)?;
    chrono::Datelike::with_year(&utc.with_timezone(&zone), year).map(
        |t| Timestamp {
            seconds: t.timestamp(),
            nanoseconds: t.timestamp_subsec_nanos(),
            offset: t.offset().local_minus_utc(),
        },
    )
}

/// The nanoseconds from one moment to another, where neither lies in a
/// leap second.
pub open spec fn nanoseconds_between(from: Timestamp, to: Timestamp) -> int {
    (to.seconds - from.seconds) * NANOSECONDS + (to.nanoseconds - from.nanoseconds)
}

/// The whole seconds of a span of nanoseconds, counted towards zero.
pub open spec fn whole_seconds(total: int) -> int {
    if total >= 0 {
        total / (NANOSECONDS as int)
    } else {
        -((-total) / (NANOSECONDS as int))
    }
}

/// The nanoseconds of a span behind its whole seconds, with the sign of the
/// span.
pub open spec fn odd_nanoseconds(total: int) -> int {
    if total >= 0 {
        total % (NANOSECONDS as int)
    } else {
        -((-total) % (NANOSECONDS as int))
    }
}

/// The whole seconds and the nanoseconds behind them from `from` to `to`.
///
/// Trusted: this is the difference of two `chrono::DateTime` values, read
/// with `chrono::TimeDelta::num_seconds` and `subsec_nanos`; it is named by
/// [`span`]. A moment out of the range of `chrono` gives `None`. Where
/// neither moment lies in a leap second, the difference is that of the
/// seconds and the nanoseconds, in whole seconds counted towards zero and
/// nanoseconds of the same sign.
#[verifier::external_body]
pub(crate) fn elapsed(from: Timestamp, to: Timestamp) -> (delta: Option<(i64, i32)>)
    ensures
        delta == span((from.seconds, from.nanoseconds), (to.seconds, to.nanoseconds)),
        delta matches Some((seconds, nanoseconds)) ==> (from.nanoseconds < NANOSECONDS
            && to.nanoseconds < NANOSECONDS ==> seconds == whole_seconds(
            nanoseconds_between(from, to),
        ) && nanoseconds == odd_nanoseconds(nanoseconds_between(from, to))),
{
    let start = chrono::DateTime::from_timestamp(from.seconds, from.nanoseconds)?;
    let end = chrono::DateTime::from_timestamp(to.seconds, to.nanoseconds)?;
    let delta = end - start;
    Some((delta.num_seconds(), delta.subsec_nanos()))
}

/// The fields of a date and a time that `chrono` has read so far. Nothing
/// is known of what it holds but what [`held`] names.
#[verifier::external_type_specification]
#[verifier::external_body]
pub struct ExParsed(chrono::format::Parsed);

/// The fields of a record that hold a value, each under the name that
/// `chrono::format::Parsed` gives it, with its value; a day of the week
/// stands as its number of days from Monday.
pub uninterp spec fn held(fields: chrono::format::Parsed) -> Map<Seq<char>, i64>;

/// What becomes of a record that holds `before` when the start of `text` is
/// read into it in `format`, as `chrono::format::parse_and_remainder` does
/// it: the fields that the record holds then, and what is left of the text;
/// `None` where the start cannot be read.
pub uninterp spec fn start_read(before: Map<Seq<char>, i64>, text: Seq<char>, format: Seq<char>)
    -> Option<(Map<Seq<char>, i64>, Seq<char>)>;

/// The moment that a record gives that holds `all`, as
/// `chrono::format::Parsed::to_datetime` says; `None` where it gives none.
pub uninterp spec fn fields_moment(all: Map<Seq<char>, i64>) -> Option<(i64, u32, i32)>;

/// What a record holds of which no field has a value.
pub open spec fn no_fields() -> Map<Seq<char>, i64> {
    Map::empty()
}

/// The name of the field that holds the year.
pub open spec fn year_field() -> Seq<char> {
    "year"@
}

/// The name of the field that holds the offset from universal time.
pub open spec fn offset_field() -> Seq<char> {
    "offset"@
}

/// What a record that holds `before` holds once `value` was set for the
/// field `field`, one that holds a number of 32 bits; `None` where the
/// value is out of that range, or the field holds another value already.
pub open spec fn field_set(before: Map<Seq<char>, i64>, field: Seq<char>, value: i64) -> Option<
    Map<Seq<char>, i64>,
> {
    if i32::MIN <= value <= i32::MAX && (before.contains_key(field) ==> before[field] == value) {
        Some(before.insert(field, value))
    } else {
        None
    }
}

/// The year and the offset are two fields.
pub proof fn lemma_fields_differ()
    ensures
        year_field() != offset_field(),
{
    reveal_strlit("year");
    reveal_strlit("offset");
    assert(year_field().len() == 4);
    assert(offset_field().len() == 6);
}

/// A record without any field.
///
/// Trusted: this is `chrono::format::Parsed::new`; no field of what it
/// returns holds a value.
#[verifier::external_body]
fn new_fields() -> (fields: chrono::format::Parsed)
    ensures
        held(fields) == no_fields(),
{
    chrono::format::Parsed::new()
}

/// Sets the year; says whether the record took it.
///
/// Trusted: this is `chrono::format::Parsed::set_year`. It takes a year
/// that fits in 32 bits where the field holds none or the same, and sets
/// the field to it; else it refuses and leaves the record as it was.
#[verifier::external_body]
fn set_year(fields: &mut chrono::format::Parsed, year: i64) -> (taken: bool)
    ensures
        taken == field_set(held(*old(fields)), year_field(), year) is Some,
        held(*final(fields)) == match field_set(held(*old(fields)), year_field(), year) {
            Some(after) => after,
            None => held(*old(fields)),
        },
{
    fields.set_year(year).is_ok()
}

/// Sets the offset from universal time; says whether the record took it.
///
/// Trusted: this is `chrono::format::Parsed::set_offset`. It takes an
/// offset that fits in 32 bits where the field holds none or the same, and
/// sets the field to it; else it refuses and leaves the record as it was.
#[verifier::external_body]
fn set_offset(fields: &mut chrono::format::Parsed, offset: i64) -> (taken: bool)
    ensures
        taken == field_set(held(*old(fields)), offset_field(), offset) is Some,
        held(*final(fields)) == match field_set(held(*old(fields)), offset_field(), offset) {
            Some(after) => after,
            None => held(*old(fields)),
        },
{
    fields.set_offset(offset).is_ok()
}

/// Reads `text`, all of it, into the record; says whether it could be read.
///
/// Trusted: this is `chrono::format::parse` with the items of `format`. It
/// reads as `chrono::format::parse_and_remainder` does, which
/// [`start_read`] names, and accepts where nothing of the text is left.
/// Where the start cannot be read, nothing is said of the record.
#[verifier::external_body]
fn read_fields(fields: &mut chrono::format::Parsed, text: &str, format: &str) -> (taken: bool)
    ensures
        match start_read(held(*old(fields)), text@, format@) {
            Some((after, rest)) => taken == (rest.len() == 0) && held(*final(fields)) == after,
            None => !taken,
        },
{
    chrono::format::parse(fields, text, chrono::format::StrftimeItems::new(format)).is_ok()
}

/// Reads the start of `text` into the record and returns what is left of
/// the text, or `None` where the start could not be read.
///
/// Trusted: this is `chrono::format::parse_and_remainder` with the items of
/// `format`. What the record holds then and what is left depend on what the
/// record held, on the text and on the format alone, and are named by
/// [`start_read`]. Where the start cannot be read, nothing is said of the
/// record.
#[verifier::external_body]
fn read_leading_fields(fields: &mut chrono::format::Parsed, text: &str, format: &str) -> (left:
    Option<String>)
    ensures
        match left {
            Some(rest) => start_read(held(*old(fields)), text@, format@) == Some(
                (held(*final(fields)), rest@),
            ),
            None => start_read(held(*old(fields)), text@, format@) is None,
        },
{
    chrono::format::parse_and_remainder(fields, text, chrono::format::StrftimeItems::new(format))
        .ok().map(|rest| rest.to_string())
}

/// The moment that the fields of the record give, if they give one.
///
/// Trusted: this is `chrono::format::Parsed::to_datetime`. The moment
/// depends on what the record holds alone, and is named by
/// [`fields_moment`].
#[verifier::external_body]
fn fields_time(fields: &chrono::format::Parsed) -> (time: Option<Timestamp>)
    ensures
        time == moment(fields_moment(held(*fields))),
{
    fields.to_datetime().ok().map(
        |t| Timestamp {
            seconds: t.timestamp(),
            nanoseconds: t.timestamp_subsec_nanos(),
            offset: t.offset().local_minus_utc(),
        },
    )
}

/// A notation of time that is looked for in the lines.
#[derive(Clone, Copy, Debug, PartialEq, Eq, Structural)]
pub enum Notation {
    /// `Apr 14 21:02:00`, as the system log writes it, without a year.
    Rfc3164,
    /// `2025-04-14T21:02:00Z`.
    Rfc3339,
    /// `Mon, 14 Apr 2025 21:02:00 +0000`.
    Rfc2822,
    /// `Tue Apr  1 21:02:00 +0000 2025`, as the list of logins writes it.
    Lastlog,
    /// Ten digits: the seconds since the start of 1970.
    UnixSeconds,
}

impl Notation {
    /// The name of the group of the pattern that matches this notation.
    pub open spec fn group_text(self) -> Seq<char> {
        match self {
            Notation::Rfc3164 => "rfc3164"@,
            Notation::Rfc3339 => "rfc3339"@,
            Notation::Rfc2822 => "rfc2822"@,
            Notation::Lastlog => "lastlog"@,
            Notation::UnixSeconds => "unixsec"@,
        }
    }

    /// The name of the group of the pattern that matches this notation.
    pub fn group(self) -> (name: &'static str)
        ensures
            name@ == self.group_text(),
    {
        match self {
            Notation::Rfc3164 => "rfc3164",
            Notation::Rfc3339 => "rfc3339",
            Notation::Rfc2822 => "rfc2822",
            Notation::Lastlog => "lastlog",
            Notation::UnixSeconds => "unixsec",
        }
    }
}

/// The pattern that finds a time in a line: one group for each notation.
pub open spec fn pattern_text() -> Seq<char> {
    r"\b(?<rfc3164>\w{3}(\s\d|\s\s)\d\s\d\d:\d\d:\d\d)|(?<rfc3339>\d\d\d\d-\d\d-\d\d[tT ]\d\d:\d\d:\d\d(\.\d+)?(Z|[+-]\d\d:?\d\d)?)|(?<lastlog>\w{3}\s\w{3}\s{1,2}\d{1,2}\s\d\d:\d\d:\d\d [+-]\d{4}\s\d{4})|(?<rfc2822>(\w{3},?\s+)?\d{1,2}\s+\w{3}\s+\d{4}\s+\d\d:\d\d(:\d\d)?(\s+[+-]\d{4}|\s+\w{3}))|(?<unixsec>[1-9]\d{9})\b"@
}

/// The pattern that finds a time in a line.
pub fn pattern() -> (text: &'static str)
    ensures
        text@ == pattern_text(),
{
    r"\b(?<rfc3164>\w{3}(\s\d|\s\s)\d\s\d\d:\d\d:\d\d)|(?<rfc3339>\d\d\d\d-\d\d-\d\d[tT ]\d\d:\d\d:\d\d(\.\d+)?(Z|[+-]\d\d:?\d\d)?)|(?<lastlog>\w{3}\s\w{3}\s{1,2}\d{1,2}\s\d\d:\d\d:\d\d [+-]\d{4}\s\d{4})|(?<rfc2822>(\w{3},?\s+)?\d{1,2}\s+\w{3}\s+\d{4}\s+\d\d:\d\d(:\d\d)?(\s+[+-]\d{4}|\s+\w{3}))|(?<unixsec>[1-9]\d{9})\b"
}

/// The format of a time without a year.
pub open spec fn rfc3164_format() -> Seq<char> {
    "%b %e %H:%M:%S"@
}

/// The format of a time in the list of logins.
pub open spec fn lastlog_format() -> Seq<char> {
    "%a %b %e %H:%M:%S %z %Y"@
}

/// The format of the seconds since the start of 1970.
pub open spec fn unix_format() -> Seq<char> {
    "%s"@
}

/// Whether the first moment is later than the second.
pub open spec fn later(first: Timestamp, second: Timestamp) -> bool {
    first.seconds > second.seconds || (first.seconds == second.seconds && first.nanoseconds
        > second.nanoseconds)
}

/// Whether the first moment is later than the second.
pub fn is_later(first: Timestamp, second: Timestamp) -> (answer: bool)
    ensures
        answer == later(first, second),
{
    first.seconds > second.seconds || (first.seconds == second.seconds && first.nanoseconds
        > second.nanoseconds)
}

/// The moment of a time that was written without a year and read in the
/// year `year` of the moment `now`: where it would lie ahead, it is taken
/// for the same day of the year before.
pub open spec fn settled(read: Timestamp, now: Timestamp, year: i32) -> Option<Timestamp> {
    if later(read, now) {
        if year > i32::MIN {
            moment(in_year(read.seconds, read.nanoseconds, read.offset, (year - 1) as i32))
        } else {
            None
        }
    } else {
        Some(read)
    }
}

/// Settles the year of a time that was written without one.
pub fn settle(read: Timestamp, now: Timestamp, year: i32) -> (time: Option<Timestamp>)
    ensures
        time == settled(read, now, year),
{
    if is_later(read, now) {
        if year > i32::MIN {
            with_year(read, year - 1)
        } else {
            None
        }
    } else {
        Some(read)
    }
}

/// `text` without its first character; `None` where it has none.
pub fn without_first(text: &str) -> (rest: Option<String>)
    ensures
        match rest {
            Some(rest) => text@.len() > 0 && rest@ == text@.skip(1),
            None => text@.len() == 0,
        },
{
    let len = text.unicode_len();
    if len == 0 {
        return None;
    }
    let mut rest = String::new();
    let mut i: usize = 1;
    while i < len
        invariant
            1 <= i <= len,
            len == text@.len(),
            rest@ == text@.subrange(1, i as int),
        decreases len - i,
    {
        push_char(&mut rest, text.get_char(i));
        assert(text@.subrange(1, i + 1) =~= text@.subrange(1, i as int).push(text@[i as int]));
        i += 1;
    }
    assert(text@.subrange(1, len as int) =~= text@.skip(1));
    Some(rest)
}

/// The moment of a time that is written without a year, read in the year
/// `year` on a clock with the offset `offset`: the text is read, all of it,
/// into a record that holds the year and the offset, and the record gives
/// the moment.
pub open spec fn year_less_moment(text: Seq<char>, year: i32, offset: i32) -> Option<Timestamp> {
    let given = no_fields().insert(year_field(), year as i64).insert(
        offset_field(),
        offset as i64,
    );
    match start_read(given, text, rfc3164_format()) {
        Some((all, rest)) => if rest.len() == 0 {
            moment(fields_moment(all))
        } else {
            None
        },
        None => None,
    }
}

/// The moment of a time that is written without a year, as it is read at
/// the moment `now`: in the year and with the offset of `now`, and in the
/// year before where it would lie ahead.
pub open spec fn rfc3164_moment(text: Seq<char>, now: Timestamp) -> Option<Timestamp> {
    match year_at(now.seconds, now.nanoseconds, now.offset) {
        Some(year) => match year_less_moment(text, year, now.offset) {
            Some(read) => settled(read, now, year),
            None => None,
        },
        None => None,
    }
}

/// The format of a date in the notation of RFC 3339.
pub open spec fn date_format() -> Seq<char> {
    "%Y-%m-%d"@
}

/// The format of a time of day with an offset that has no colon.
pub open spec fn time_format() -> Seq<char> {
    "%H:%M:%S%z"@
}

/// The moment of a time in the notation of RFC 3339 whose offset has no
/// colon: the date is read from the start of the text, the character behind
/// it is passed over, and the time with its offset is read from the start
/// of what follows, into the same record, which gives the moment.
pub open spec fn loose_rfc3339_moment(text: Seq<char>) -> Option<Timestamp> {
    match start_read(no_fields(), text, date_format()) {
        None => None,
        Some((dated, rest)) => if rest.len() == 0 {
            None
        } else {
            match start_read(dated, rest.skip(1), time_format()) {
                Some((all, _)) => moment(fields_moment(all)),
                None => None,
            }
        },
    }
}

/// Reads a time without a year: it is read in the year and with the offset
/// of `now`, and moved to the year before where it would lie ahead.
fn read_rfc3164(text: &str, now: Timestamp) -> (time: Option<Timestamp>)
    ensures
        time == rfc3164_moment(text@, now),
{
    let year = match year_of(now) {
        Some(year) => year,
        None => {
            return None;
        },
    };
    let mut fields = new_fields();
    proof {
        lemma_fields_differ();
    }
    if !set_year(&mut fields, year as i64) || !set_offset(&mut fields, now.offset as i64) {
        return None;
    }
    if !read_fields(&mut fields, text, "%b %e %H:%M:%S") {
        return None;
    }
    match fields_time(&fields) {
        Some(read) => settle(read, now, year),
        None => None,
    }
}

/// Reads a time in the notation of RFC 3339 whose offset has no colon: the
/// date, one separating character, and the time with its offset.
fn read_rfc3339_without_colon(text: &str) -> (time: Option<Timestamp>)
    ensures
        time == loose_rfc3339_moment(text@),
{
    let mut fields = new_fields();
    let behind_date = match read_leading_fields(&mut fields, text, "%Y-%m-%d") {
        Some(rest) => rest,
        None => {
            return None;
        },
    };
    let time = match without_first(behind_date.as_str()) {
        Some(time) => time,
        None => {
            return None;
        },
    };
    match read_leading_fields(&mut fields, time.as_str(), "%H:%M:%S%z") {
        Some(_) => fields_time(&fields),
        None => None,
    }
}

/// The moment that `text` writes in `notation`, as it is read at the moment
/// `now`. The notation of RFC 3339 is tried with and without a colon in the
/// offset.
pub open spec fn read_moment(notation: Notation, text: Seq<char>, now: Timestamp) -> Option<
    Timestamp,
> {
    match notation {
        Notation::Rfc3164 => rfc3164_moment(text, now),
        Notation::Rfc3339 => match rfc3339_time(text) {
            Some(fields) => moment(Some(fields)),
            None => loose_rfc3339_moment(text),
        },
        Notation::Rfc2822 => moment(rfc2822_time(text)),
        Notation::Lastlog => moment(formatted_time(text, lastlog_format())),
        Notation::UnixSeconds => moment(formatted_time(text, unix_format())),
    }
}

/// Reads the moment that `text` writes in `notation`; `now` gives the year
/// and the offset where the notation has none.
pub fn read_time(notation: Notation, text: &str, now: Timestamp) -> (time: Option<Timestamp>)
    ensures
        time == read_moment(notation, text@, now),
{
    match notation {
        Notation::Rfc3164 => read_rfc3164(text, now),
        Notation::Rfc3339 => match parse_rfc3339(text) {
            Some(time) => Some(time),
            None => read_rfc3339_without_colon(text),
        },
        Notation::Rfc2822 => parse_rfc2822(text),
        Notation::Lastlog => parse_formatted(text, "%a %b %e %H:%M:%S %z %Y"),
        Notation::UnixSeconds => parse_formatted(text, "%s"),
    }
}

/// What a time that was found in a line is replaced with.
///
/// A text that could not be read as a time stays as it is. A time that was
/// read is written in the format, where there is one that can be written,
/// and else as the time that has passed since.
pub open spec fn replaced(
    found: Seq<char>,
    time: Option<Timestamp>,
    format: Option<Seq<char>>,
    now: Timestamp,
    passed: Option<(i64, i32)>,
) -> Seq<char> {
    match time {
        None => found,
        Some(time) => match format {
            Some(format) => match time_text(time.seconds, time.nanoseconds, time.offset, format) {
                Some(text) => text,
                None => found,
            },
            None => match passed {
                Some((seconds, nanoseconds)) => if nanoseconds < 0 {
                    "just now"@
                } else {
                    ago_text(seconds as int)
                },
                None => found,
            },
        },
    }
}

/// Writes what a time that was found in a line is replaced with; `passed`
/// is the time from it to `now`.
pub fn replacement(
    found: &str,
    time: Option<Timestamp>,
    format: &Option<String>,
    now: Timestamp,
    passed: Option<(i64, i32)>,
) -> (text: String)
    ensures
        text@ == replaced(found@, time, optional_text(*format), now, passed),
{
    match time {
        None => String::from_str(found),
        Some(time) => match format {
            Some(format) => match format_time(time, format.as_str()) {
                Some(text) => text,
                None => String::from_str(found),
            },
            None => match passed {
                Some((seconds, nanoseconds)) => {
                    if nanoseconds < 0 {
                        String::from_str("just now")
                    } else {
                        time_ago(seconds)
                    }
                },
                None => String::from_str(found),
            },
        },
    }
}

/// The line with `text` in the place of what was found.
pub fn splice(parts: &Located, text: &str) -> (line: String)
    ensures
        line@ == parts.before@ + text@ + parts.after@,
{
    let mut line = parts.before.clone();
    line.append(text);
    line.append(parts.after.as_str());
    line
}

/// The first time that `pattern` finds in `line`, with its notation and
/// with the cut of the line at it: the notations are asked for in the order
/// in which they are listed, and the first whose group has a part in the
/// match counts.
pub open spec fn first_time(pattern: Seq<char>, line: Seq<char>) -> Option<
    (Notation, (Seq<char>, Seq<char>, Seq<char>)),
> {
    if cut_at(pattern, line, Notation::Rfc3164.group_text()) is Some {
        Some((Notation::Rfc3164, cut_at(pattern, line, Notation::Rfc3164.group_text()).unwrap()))
    } else if cut_at(pattern, line, Notation::Rfc3339.group_text()) is Some {
        Some((Notation::Rfc3339, cut_at(pattern, line, Notation::Rfc3339.group_text()).unwrap()))
    } else if cut_at(pattern, line, Notation::Rfc2822.group_text()) is Some {
        Some((Notation::Rfc2822, cut_at(pattern, line, Notation::Rfc2822.group_text()).unwrap()))
    } else if cut_at(pattern, line, Notation::Lastlog.group_text()) is Some {
        Some((Notation::Lastlog, cut_at(pattern, line, Notation::Lastlog.group_text()).unwrap()))
    } else if cut_at(pattern, line, Notation::UnixSeconds.group_text()) is Some {
        Some(
            (
                Notation::UnixSeconds,
                cut_at(pattern, line, Notation::UnixSeconds.group_text()).unwrap(),
            ),
        )
    } else {
        None
    }
}

/// The first time in `line`, with its notation.
pub fn find_time(pattern: &regex::Regex, line: &str) -> (hit: Option<(Notation, Located)>)
    ensures
        hit matches Some((_, parts)) ==> line@ == parts.before@ + parts.found@ + parts.after@,
        compiled_from(*pattern) matches Some(text) ==> match hit {
            Some((notation, parts)) => first_time(text, line@) == Some(
                (notation, (parts.before@, parts.found@, parts.after@)),
            ),
            None => first_time(text, line@) is None,
        },
{
    if let Some(parts) = locate(pattern, line, Notation::Rfc3164.group()) {
        return Some((Notation::Rfc3164, parts));
    }
    if let Some(parts) = locate(pattern, line, Notation::Rfc3339.group()) {
        return Some((Notation::Rfc3339, parts));
    }
    if let Some(parts) = locate(pattern, line, Notation::Rfc2822.group()) {
        return Some((Notation::Rfc2822, parts));
    }
    if let Some(parts) = locate(pattern, line, Notation::Lastlog.group()) {
        return Some((Notation::Lastlog, parts));
    }
    if let Some(parts) = locate(pattern, line, Notation::UnixSeconds.group()) {
        return Some((Notation::UnixSeconds, parts));
    }
    None
}

/// A line cut into three parts, with the middle part replaced as
/// [`replaced`] says.
pub open spec fn respliced(
    before: Seq<char>,
    found: Seq<char>,
    after: Seq<char>,
    time: Option<Timestamp>,
    format: Option<Seq<char>>,
    now: Timestamp,
    passed: Option<(i64, i32)>,
) -> Seq<char> {
    before + replaced(found, time, format, now, passed) + after
}

/// The time from one moment to another, in whole seconds counted towards
/// zero and nanoseconds of the same sign; `None` where one of the moments
/// is out of the range of `chrono`. Only for a moment in a leap second does
/// it rest on what `chrono` makes of it.
pub open spec fn passed_between(from: Timestamp, to: Timestamp) -> Option<(i64, i32)> {
    match span((from.seconds, from.nanoseconds), (to.seconds, to.nanoseconds)) {
        Some(named) => if from.nanoseconds < NANOSECONDS && to.nanoseconds < NANOSECONDS {
            Some(
                (
                    whole_seconds(nanoseconds_between(from, to)) as i64,
                    odd_nanoseconds(nanoseconds_between(from, to)) as i32,
                ),
            )
        } else {
            Some(named)
        },
        None => None,
    }
}

/// The time from one moment to another.
pub fn time_passed(from: Timestamp, to: Timestamp) -> (passed: Option<(i64, i32)>)
    ensures
        passed == passed_between(from, to),
{
    elapsed(from, to)
}

/// A line that is cut into three parts, with the middle part read as a time
/// in `notation` at the moment `now` and replaced as [`replaced`] says.
pub open spec fn rewritten_at(
    notation: Notation,
    before: Seq<char>,
    found: Seq<char>,
    after: Seq<char>,
    format: Option<Seq<char>>,
    now: Timestamp,
) -> Seq<char> {
    let time = read_moment(notation, found, now);
    let passed = match time {
        Some(time) => passed_between(time, now),
        None => None,
    };
    respliced(before, found, after, time, format, now, passed)
}

/// The line with the first time that `pattern` finds in it rewritten; a
/// line in which it finds none stays as it is.
pub open spec fn relative_text(
    pattern: Seq<char>,
    line: Seq<char>,
    format: Option<Seq<char>>,
    now: Timestamp,
) -> Seq<char> {
    match first_time(pattern, line) {
        None => line,
        Some((notation, (before, found, after))) => rewritten_at(
            notation,
            before,
            found,
            after,
            format,
            now,
        ),
    }
}

/// The line with its first time rewritten: in `format` where one is given,
/// and else as the time that has passed until `now`. A line without a time
/// stays as it is, and so does a time that cannot be read.
///
/// Where the time stands in the line is for the pattern to say. For the
/// pattern of [`compile_pattern`], and any other that was compiled with the
/// settings of `regex::Regex::new`, the result is [`relative_text`]. For
/// every pattern the line is either left as it is, or cut into three parts
/// of which the middle one is read as a time and replaced.
pub fn relative_line(pattern: &regex::Regex, line: &str, format: &Option<String>, now: Timestamp)
    -> (rewritten: String)
    ensures
        compiled_from(*pattern) matches Some(text) ==> rewritten@ == relative_text(
            text,
            line@,
            optional_text(*format),
            now,
        ),
        rewritten@ == line@ || exists|
            notation: Notation,
            before: Seq<char>,
            found: Seq<char>,
            after: Seq<char>,
        |
            line@ == before + found + after && rewritten@ == #[trigger] rewritten_at(
                notation,
                before,
                found,
                after,
                optional_text(*format),
                now,
            ),
{
    match find_time(pattern, line) {
        None => String::from_str(line),
        Some((notation, parts)) => {
            let time = read_time(notation, parts.found.as_str(), now);
            let passed = match time {
                Some(time) => time_passed(time, now),
                None => None,
            };
            let text = replacement(parts.found.as_str(), time, format, now, passed);
            let rewritten = splice(&parts, text.as_str());
            assert(rewritten@ == rewritten_at(
                notation,
                parts.before@,
                parts.found@,
                parts.after@,
                optional_text(*format),
                now,
            ));
            rewritten
        },
    }
}

/// The number of nanoseconds in a second.
pub const NANOSECONDS: i32 = 1_000_000_000;

/// The moment that lies a span behind the start of 1970, on the clock of
/// universal time; `None` where the span has no valid nanoseconds or is out
/// of range.
pub open spec fn since_epoch(seconds: i64, nanoseconds: i32) -> Option<Timestamp> {
    if 0 <= nanoseconds < NANOSECONDS {
        Some(Timestamp { seconds, nanoseconds: nanoseconds as u32, offset: 0 })
    } else if -NANOSECONDS < nanoseconds < 0 && seconds > i64::MIN {
        Some(
            Timestamp {
                seconds: (seconds - 1) as i64,
                nanoseconds: (nanoseconds + NANOSECONDS) as u32,
                offset: 0,
            },
        )
    } else {
        None
    }
}

/// The start of 1970 moved by a span of whole seconds and nanoseconds of
/// the same sign.
pub fn epoch_plus(seconds: i64, nanoseconds: i32) -> (time: Option<Timestamp>)
    ensures
        time == since_epoch(seconds, nanoseconds),
{
    if 0 <= nanoseconds && nanoseconds < NANOSECONDS {
        Some(Timestamp { seconds, nanoseconds: nanoseconds as u32, offset: 0 })
    } else if -NANOSECONDS < nanoseconds && nanoseconds < 0 && seconds > i64::MIN {
        Some(
            Timestamp {
                seconds: seconds - 1,
                nanoseconds: (nanoseconds + NANOSECONDS) as u32,
                offset: 0,
            },
        )
    } else {
        None
    }
}

/// The time that is put in front of a line: the moment `now` itself, or
/// the time from `reference` to `now`, shown as a moment behind the start of
/// 1970. `reference` is the moment of the line before, or of the start.
pub open spec fn shown(mode: TimeMode, now: Timestamp, passed: Option<(i64, i32)>) -> Option<
    Timestamp,
> {
    match mode {
        TimeMode::Absolute => Some(now),
        _ => match passed {
            Some((seconds, nanoseconds)) => since_epoch(seconds, nanoseconds),
            None => None,
        },
    }
}

/// The time that is put in front of a line.
pub fn shown_time(mode: TimeMode, now: Timestamp, passed: Option<(i64, i32)>) -> (time: Option<
    Timestamp,
>)
    ensures
        time == shown(mode, now, passed),
{
    match mode {
        TimeMode::Absolute => Some(now),
        _ => match passed {
            Some((seconds, nanoseconds)) => epoch_plus(seconds, nanoseconds),
            None => None,
        },
    }
}

/// The line with the time in front: the time in `format`, a space and the
/// line; `None` where the time cannot be written.
pub open spec fn stamped_text(time: Timestamp, format: Seq<char>, line: Seq<char>) -> Option<
    Seq<char>,
> {
    match time_text(time.seconds, time.nanoseconds, time.offset, format) {
        Some(prefix) => Some(prefix + " "@ + line),
        None => None,
    }
}

/// Puts the time in front of a line.
pub fn stamped(time: Timestamp, format: &str, line: &str) -> (text: Option<String>)
    ensures
        optional_text(text) == stamped_text(time, format@, line@),
{
    match format_time(time, format) {
        Some(prefix) => {
            let mut text = prefix;
            text.append(" ");
            text.append(line);
            Some(text)
        },
        None => None,
    }
}

/// The line with the time in front that the mode asks for, as it is stamped
/// at the moment `now`: the moment itself in the absolute mode, and else the
/// time from `reference` to `now`; `None` where the time cannot be written.
pub open spec fn stamp_text(
    mode: TimeMode,
    reference: Timestamp,
    now: Timestamp,
    format: Seq<char>,
    line: Seq<char>,
) -> Option<Seq<char>> {
    let passed = match mode {
        TimeMode::Absolute => None,
        _ => passed_between(reference, now),
    };
    match shown(mode, now, passed) {
        Some(time) => stamped_text(time, format, line),
        None => None,
    }
}

/// Puts the time in front of a line, on the clock of this machine:
/// `reference` is the moment of the line before in the incremental mode and
/// the moment of the start in the mode that counts from the start. Returns
/// the line and the moment it was stamped at. Which moment that is, is for
/// the clock to say.
pub fn stamp_line(mode: TimeMode, reference: Timestamp, format: &str, line: &str) -> (result: (
    Option<String>,
    Timestamp,
))
    ensures
        result.1.wf(),
        optional_text(result.0) == stamp_text(mode, reference, result.1, format@, line@),
{
    let now = local_now();
    let passed = match mode {
        TimeMode::Absolute => None,
        _ => time_passed(reference, now),
    };
    match shown_time(mode, now, passed) {
        Some(time) => (stamped(time, format, line), now),
        None => (None, now),
    }
}

/// The moment that lies a span behind `time`, on the same clock; `None`
/// where the seconds do not fit.
pub open spec fn advanced(time: Timestamp, seconds: i64, nanoseconds: u32) -> Option<Timestamp> {
    let carry: int = if time.nanoseconds + nanoseconds >= NANOSECONDS {
        1
    } else {
        0
    };
    if time.nanoseconds < NANOSECONDS && nanoseconds < NANOSECONDS && i64::MIN <= time.seconds
        + seconds + carry <= i64::MAX {
        Some(
            Timestamp {
                seconds: (time.seconds + seconds + carry) as i64,
                nanoseconds: (time.nanoseconds + nanoseconds - carry * NANOSECONDS) as u32,
                offset: time.offset,
            },
        )
    } else {
        None
    }
}

/// Moves a moment by a span, as the clock that never goes back measures it.
pub fn advance(time: Timestamp, seconds: i64, nanoseconds: u32) -> (moved: Option<Timestamp>)
    ensures
        moved == advanced(time, seconds, nanoseconds),
{
    if time.nanoseconds >= NANOSECONDS as u32 || nanoseconds >= NANOSECONDS as u32 {
        return None;
    }
    let sum = time.nanoseconds + nanoseconds;
    let (carry, rest): (i128, u32) = if sum >= NANOSECONDS as u32 {
        (1, sum - NANOSECONDS as u32)
    } else {
        (0, sum)
    };
    let total: i128 = time.seconds as i128 + seconds as i128 + carry;
    if i64::MIN as i128 <= total && total <= i64::MAX as i128 {
        Some(Timestamp { seconds: total as i64, nanoseconds: rest, offset: time.offset })
    } else {
        None
    }
}

/// The moment of the start of the program, on the clock of this machine.
/// Which moment that is, is for the clock to say; it is a moment as every
/// clock shows it.
pub fn start() -> (now: Timestamp)
    ensures
        now.wf(),
{
    local_now()
}

/// Compiles the pattern that finds a time in a line; `None` where the
/// pattern is not well-formed.
pub fn compile_pattern() -> (compiled: Option<regex::Regex>)
    ensures
        compiled is Some <==> well_formed(pattern_text()),
        compiled matches Some(made) ==> compiled_from(made) == Some(pattern_text()),
{
    compile(pattern())
}

/// The text that explains the command line.
pub open spec fn usage_text() -> Seq<char> {
    "Usage: ts [-r] [-i|-s] [-m] [FORMAT]\n"@
}

/// The usage message.
pub fn usage() -> (text: &'static str)
    ensures
        text@ == usage_text(),
{
    "Usage: ts [-r] [-i|-s] [-m] [FORMAT]\n"
}

} // verus!
