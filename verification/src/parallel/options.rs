//! The options that precede the command: `-h`, `-i`, `-n COUNT`, `-l LOAD`
//! and `-j JOBS`.

use crate::ascii::{
    all_digits, copy_bytes, is_digit, lowered, lowered_text, same_lowered, texts, to_lower,
    DIGIT_0, DIGIT_9, DOT, LETTER_E, LETTER_H, LETTER_I, LETTER_J, LETTER_L, LETTER_N, MINUS, PLUS,
};
use crate::text::{parse_unsigned, unsigned_value};
use vstd::prelude::*;

verus! {

/// The positive count that `text` writes, if it writes one that fits.
pub open spec fn count_value(text: Seq<u8>) -> Option<usize> {
    match unsigned_value(text) {
        Some(value) => if value > 0 {
            Some(value)
        } else {
            None
        },
        None => None,
    }
}

/// Reads a positive decimal count, as `-n` and `-j` take it: an optional
/// `+`, then decimal digits and nothing else. A count of zero, one too large
/// for the machine, or any other text gives `None`.
pub fn parse_count(text: &Vec<u8>) -> (count: Option<usize>)
    ensures
        count == count_value(text@),
{
    match parse_unsigned(text) {
        Some(value) => if value > 0 {
            Some(value)
        } else {
            None
        },
        None => None,
    }
}

/// Whether `byte` is a sign, `+` or `-`.
pub open spec fn is_sign(byte: u8) -> bool {
    byte == PLUS || byte == MINUS
}

/// The index just past the run of digits of `text` that starts at `from`.
pub open spec fn digits_end(text: Seq<u8>, from: int) -> int
    decreases text.len() - from,
{
    if 0 <= from < text.len() && is_digit(text[from]) {
        digits_end(text, from + 1)
    } else {
        from
    }
}

/// An exponent: `e` or `E`, an optional sign, then digits and nothing else.
pub open spec fn is_exponent(text: Seq<u8>) -> bool {
    &&& text.len() > 0
    &&& lowered(text[0]) == LETTER_E
    &&& {
        let digits = if text.len() > 1 && is_sign(text[1]) {
            text.skip(2)
        } else {
            text.skip(1)
        };
        digits.len() > 0 && all_digits(digits)
    }
}

/// A decimal number: digits with at most one `.` among them or beside them,
/// at least one digit in all, and an optional exponent behind.
pub open spec fn is_decimal_number(text: Seq<u8>) -> bool {
    let whole_end = digits_end(text, 0);
    let has_dot = whole_end < text.len() && text[whole_end] == DOT;
    let mantissa_end = if has_dot {
        digits_end(text, whole_end + 1)
    } else {
        whole_end
    };
    let digit_count = if has_dot {
        mantissa_end - 1
    } else {
        mantissa_end
    };
    &&& digit_count > 0
    &&& (mantissa_end == text.len() || is_exponent(text.skip(mantissa_end)))
}

/// The bytes of `inf`.
pub open spec fn word_inf() -> Seq<u8> {
    seq![0x69u8, 0x6eu8, 0x66u8]
}

/// The bytes of `infinity`.
pub open spec fn word_infinity() -> Seq<u8> {
    seq![0x69u8, 0x6eu8, 0x66u8, 0x69u8, 0x6eu8, 0x69u8, 0x74u8, 0x79u8]
}

/// The bytes of `nan`.
pub open spec fn word_nan() -> Seq<u8> {
    seq![0x6eu8, 0x61u8, 0x6eu8]
}

/// One of the names `inf`, `infinity` and `nan`, in any mix of cases.
pub open spec fn is_special_number(text: Seq<u8>) -> bool {
    let lower = lowered_text(text);
    lower == word_inf() || lower == word_infinity() || lower == word_nan()
}

/// Whether `text` writes a floating-point number as `-l` takes it: an
/// optional sign, then a decimal number or one of the special names.
pub open spec fn is_load_literal(text: Seq<u8>) -> bool {
    let body = if text.len() > 0 && is_sign(text[0]) {
        text.skip(1)
    } else {
        text
    };
    is_decimal_number(body) || is_special_number(body)
}

/// Walks over the run of digits that starts at `from`.
fn skip_digits(text: &Vec<u8>, from: usize) -> (end: usize)
    requires
        from <= text.len(),
    ensures
        end == digits_end(text@, from as int),
        from <= end <= text.len(),
        forall|i: int| from <= i < end ==> is_digit(#[trigger] text[i]),
{
    let mut i: usize = from;
    while i < text.len() && DIGIT_0 <= text[i] && text[i] <= DIGIT_9
        invariant
            from <= i <= text.len(),
            digits_end(text@, from as int) == digits_end(text@, i as int),
            forall|j: int| from <= j < i ==> is_digit(#[trigger] text[j]),
        decreases text.len() - i,
    {
        i += 1;
    }
    i
}

/// A run of digits ends at the end of the text exactly when everything from
/// its start on is a digit.
proof fn lemma_digits_end_all(text: Seq<u8>, from: int)
    requires
        0 <= from <= text.len(),
    ensures
        from <= digits_end(text, from) <= text.len(),
        digits_end(text, from) == text.len() <==> all_digits(text.skip(from)),
    decreases text.len() - from,
{
    if from < text.len() && is_digit(text[from]) {
        lemma_digits_end_all(text, from + 1);
        if all_digits(text.skip(from + 1)) {
            assert forall|i: int| 0 <= i < text.skip(from).len() implies is_digit(
                #[trigger] text.skip(from)[i],
            ) by {
                if i > 0 {
                    assert(text.skip(from)[i] == text.skip(from + 1)[i - 1]);
                }
            }
        } else {
            let i = choose|i: int|
                0 <= i < text.skip(from + 1).len() && !is_digit(#[trigger] text.skip(from + 1)[i]);
            assert(text.skip(from)[i + 1] == text.skip(from + 1)[i]);
        }
    } else if from < text.len() {
        assert(text.skip(from)[0] == text[from]);
    }
}

/// The run of digits that starts at `from` is the same in `text` and in what
/// is left of `text` after its first `cut` bytes.
proof fn lemma_digits_end_skip(text: Seq<u8>, cut: int, from: int)
    requires
        0 <= cut <= text.len(),
        0 <= from <= text.len() - cut,
    ensures
        digits_end(text.skip(cut), from) + cut == digits_end(text, from + cut),
    decreases text.len() - cut - from,
{
    if from < text.len() - cut {
        assert(text.skip(cut)[from] == text[from + cut]);
        if is_digit(text[from + cut]) {
            lemma_digits_end_skip(text, cut, from + 1);
        }
    }
}

/// Whether `text` from `from` on is an exponent.
fn check_exponent(text: &Vec<u8>, from: usize) -> (valid: bool)
    requires
        from < text.len(),
    ensures
        valid == is_exponent(text@.skip(from as int)),
{
    let ghost tail = text@.skip(from as int);
    assert(tail[0] == text[from as int]);
    if to_lower(text[from]) != LETTER_E {
        return false;
    }
    let start: usize = if from + 1 < text.len() && (text[from + 1] == PLUS || text[from + 1]
        == MINUS) {
        from + 2
    } else {
        from + 1
    };
    proof {
        if tail.len() > 1 {
            assert(tail[1] == text[from + 1]);
        }
        assert(tail.skip(start - from) =~= text@.skip(start as int));
        lemma_digits_end_all(text@, start as int);
    }
    let end = skip_digits(text, start);
    end > start && end == text.len()
}

/// Whether `text` from `from` on is a decimal number.
fn check_decimal_number(text: &Vec<u8>, from: usize) -> (valid: bool)
    requires
        from <= text.len(),
    ensures
        valid == is_decimal_number(text@.skip(from as int)),
{
    let ghost tail = text@.skip(from as int);
    let whole_end = skip_digits(text, from);
    proof {
        lemma_digits_end_skip(text@, from as int, 0);
        if whole_end < text.len() {
            assert(tail[whole_end - from] == text[whole_end as int]);
        }
    }
    let has_dot = whole_end < text.len() && text[whole_end] == DOT;
    let mantissa_end = if has_dot {
        proof {
            lemma_digits_end_skip(text@, from as int, whole_end - from + 1);
        }
        skip_digits(text, whole_end + 1)
    } else {
        whole_end
    };
    let digit_count = if has_dot {
        mantissa_end - from - 1
    } else {
        mantissa_end - from
    };
    if digit_count == 0 {
        return false;
    }
    if mantissa_end == text.len() {
        return true;
    }
    assert(tail.skip(mantissa_end - from) =~= text@.skip(mantissa_end as int));
    check_exponent(text, mantissa_end)
}

/// Whether `text` writes a load ceiling.
pub fn is_load(text: &Vec<u8>) -> (valid: bool)
    ensures
        valid == is_load_literal(text@),
{
    let from: usize = if text.len() > 0 && (text[0] == PLUS || text[0] == MINUS) {
        1
    } else {
        0
    };
    assert(text@.skip(0) =~= text@);
    if check_decimal_number(text, from) {
        return true;
    }
    let mut body: Vec<u8> = Vec::new();
    let mut i: usize = from;
    while i < text.len()
        invariant
            from <= i <= text.len(),
            body@ == text@.subrange(from as int, i as int),
        decreases text.len() - i,
    {
        body.push(text[i]);
        assert(text@.subrange(from as int, i + 1) =~= text@.subrange(from as int, i as int).push(
            text[i as int],
        ));
        i += 1;
    }
    assert(text@.subrange(from as int, i as int) =~= text@.skip(from as int));
    let inf: Vec<u8> = vec![0x69u8, 0x6eu8, 0x66u8];
    let infinity: Vec<u8> = vec![0x69u8, 0x6eu8, 0x66u8, 0x69u8, 0x6eu8, 0x69u8, 0x74u8, 0x79u8];
    let nan: Vec<u8> = vec![0x6eu8, 0x61u8, 0x6eu8];
    assert(inf@ =~= word_inf());
    assert(infinity@ =~= word_infinity());
    assert(nan@ =~= word_nan());
    same_lowered(&body, &inf) || same_lowered(&body, &infinity) || same_lowered(&body, &nan)
}

/// Why a command line was refused.
#[derive(Clone, Copy, Debug, PartialEq, Eq, Structural)]
pub enum ArgumentError {
    /// The token at `position` starts with `-` and is no known option.
    UnknownOption { position: usize },
    /// The `-n` at `position` is not followed by a positive integer.
    InvalidCount { position: usize },
    /// The `-l` at `position` is not followed by a number.
    InvalidLoad { position: usize },
    /// The `-j` at `position` is not followed by a positive integer.
    InvalidJobs { position: usize },
    /// Neither a command nor `--` follows the options.
    MissingCommand,
}

impl ArgumentError {
    /// The sentence that reports a value that is missing or malformed;
    /// `None` for the other errors, which the usage explains.
    pub open spec fn message_text(self) -> Option<Seq<char>> {
        match self {
            ArgumentError::InvalidCount { .. } => Some(
                "parallel: -n requires a positive integer argument"@,
            ),
            ArgumentError::InvalidLoad { .. } => Some("parallel: -l requires a number argument"@),
            ArgumentError::InvalidJobs { .. } => Some(
                "parallel: -j requires a positive integer argument"@,
            ),
            _ => None,
        }
    }

    /// The sentence that reports a value that is missing or malformed.
    pub fn message(self) -> (text: Option<&'static str>)
        ensures
            match text {
                Some(text) => self.message_text() == Some(text@),
                None => self.message_text() is None,
            },
    {
        match self {
            ArgumentError::InvalidCount { .. } => Some(
                "parallel: -n requires a positive integer argument",
            ),
            ArgumentError::InvalidLoad { .. } => Some("parallel: -l requires a number argument"),
            ArgumentError::InvalidJobs { .. } => Some(
                "parallel: -j requires a positive integer argument",
            ),
            _ => None,
        }
    }
}

/// What the options of one command line ask for.
#[derive(Clone, Debug, PartialEq, Eq)]
pub struct Settings {
    /// `-i` was given.
    pub interpolate: bool,
    /// How many variable arguments each job of a template gets.
    pub n_args: usize,
    /// The text of the load ceiling, where `-l` was given.
    pub max_load: Option<Vec<u8>>,
    /// How many jobs may run at once.
    pub max_jobs: usize,
}

/// The mathematical value of [`Settings`].
pub struct SettingsView {
    pub interpolate: bool,
    pub n_args: usize,
    pub max_load: Option<Seq<u8>>,
    pub max_jobs: usize,
}

impl View for Settings {
    type V = SettingsView;

    open spec fn view(&self) -> SettingsView {
        SettingsView {
            interpolate: self.interpolate,
            n_args: self.n_args,
            max_load: match self.max_load {
                Some(text) => Some(text@),
                None => None,
            },
            max_jobs: self.max_jobs,
        }
    }
}

impl SettingsView {
    /// Both counts are positive.
    pub open spec fn wf(self) -> bool {
        self.n_args > 0 && self.max_jobs > 0
    }
}

impl Settings {
    /// Whether new jobs are held back while the load is high: they are
    /// exactly where `-l` has set a ceiling.
    pub fn gated(&self) -> (gated: bool)
        ensures
            gated == (self@.max_load is Some),
    {
        self.max_load.is_some()
    }
}

/// Where the scan of the options ended.
#[derive(Clone, Debug, PartialEq, Eq)]
pub enum Scan {
    /// `-h` was met: nothing is to be run.
    Help,
    /// The options ended before the token at `rest`.
    Options { settings: Settings, rest: usize },
}

/// The mathematical value of [`Scan`].
pub enum ScanView {
    Help,
    Options { settings: SettingsView, rest: usize },
}

impl View for Scan {
    type V = ScanView;

    open spec fn view(&self) -> ScanView {
        match self {
            Scan::Help => ScanView::Help,
            Scan::Options { settings, rest } => ScanView::Options {
                settings: settings@,
                rest: *rest,
            },
        }
    }
}

/// The two bytes of the option `-` `letter`.
pub open spec fn flag(letter: u8) -> Seq<u8> {
    seq![MINUS, letter]
}

/// The separator `--`.
pub open spec fn separator() -> Seq<u8> {
    seq![MINUS, MINUS]
}

/// Whether a token is read as an option: it starts with `-` and is not the
/// separator.
pub open spec fn is_option(token: Seq<u8>) -> bool {
    token.len() > 0 && token[0] == MINUS && token != separator()
}

/// The number of jobs to run at once where `-j` is not given: what the host
/// reports as its parallelism, and 1 where it reports nothing of use.
pub open spec fn default_jobs(host_parallelism: Option<usize>) -> usize {
    match host_parallelism {
        Some(n) => if n > 0 {
            n
        } else {
            1
        },
        None => 1,
    }
}

/// The settings of a command line without options.
pub open spec fn initial_settings(host_parallelism: Option<usize>) -> SettingsView {
    SettingsView {
        interpolate: false,
        n_args: 1,
        max_load: None,
        max_jobs: default_jobs(host_parallelism),
    }
}

/// The scan of `args` from the token at `at` on, with `so_far` gathered from
/// the options before it.
///
/// An option is consumed together with its value, whatever the value looks
/// like; `-h` ends the scan at once; the first token that is no option ends it
/// and is left for the job builder.
pub open spec fn scan_from(args: Seq<Seq<u8>>, at: int, so_far: SettingsView) -> Result<
    ScanView,
    ArgumentError,
>
    decreases args.len() - at,
{
    if at < 0 || at >= args.len() || !is_option(args[at]) {
        Ok(ScanView::Options { settings: so_far, rest: at as usize })
    } else if args[at] == flag(LETTER_H) {
        Ok(ScanView::Help)
    } else if args[at] == flag(LETTER_I) {
        scan_from(args, at + 1, SettingsView { interpolate: true, ..so_far })
    } else if args[at] == flag(LETTER_N) {
        if at + 1 < args.len() && count_value(args[at + 1]) is Some {
            scan_from(
                args,
                at + 2,
                SettingsView { n_args: count_value(args[at + 1]).unwrap(), ..so_far },
            )
        } else {
            Err(ArgumentError::InvalidCount { position: at as usize })
        }
    } else if args[at] == flag(LETTER_L) {
        if at + 1 < args.len() && is_load_literal(args[at + 1]) {
            scan_from(args, at + 2, SettingsView { max_load: Some(args[at + 1]), ..so_far })
        } else {
            Err(ArgumentError::InvalidLoad { position: at as usize })
        }
    } else if args[at] == flag(LETTER_J) {
        if at + 1 < args.len() && count_value(args[at + 1]) is Some {
            scan_from(
                args,
                at + 2,
                SettingsView { max_jobs: count_value(args[at + 1]).unwrap(), ..so_far },
            )
        } else {
            Err(ArgumentError::InvalidJobs { position: at as usize })
        }
    } else {
        Err(ArgumentError::UnknownOption { position: at as usize })
    }
}

/// What the options at the head of `args` ask for.
pub open spec fn scanned(args: Seq<Seq<u8>>, host_parallelism: Option<usize>) -> Result<
    ScanView,
    ArgumentError,
> {
    scan_from(args, 0, initial_settings(host_parallelism))
}

/// A scan that ends in settings ends at a token of `args` or at its end, and
/// with positive counts if it began with them.
pub proof fn lemma_scan_ends_inside(args: Seq<Seq<u8>>, at: int, so_far: SettingsView)
    requires
        0 <= at <= args.len(),
        args.len() <= usize::MAX,
        so_far.wf(),
    ensures
        scan_from(args, at, so_far) matches Ok(ScanView::Options { settings, rest }) ==> at <= rest
            <= args.len() && settings.wf() && (rest < args.len() ==> !is_option(
            args[rest as int],
        )),
    decreases args.len() - at,
{
    if at < args.len() && is_option(args[at]) {
        if args[at] == flag(LETTER_H) {
        } else if args[at] == flag(LETTER_I) {
            lemma_scan_ends_inside(args, at + 1, SettingsView { interpolate: true, ..so_far });
        } else if args[at] == flag(LETTER_N) {
            if at + 1 < args.len() && count_value(args[at + 1]) is Some {
                lemma_scan_ends_inside(
                    args,
                    at + 2,
                    SettingsView { n_args: count_value(args[at + 1]).unwrap(), ..so_far },
                );
            }
        } else if args[at] == flag(LETTER_L) {
            if at + 1 < args.len() && is_load_literal(args[at + 1]) {
                lemma_scan_ends_inside(
                    args,
                    at + 2,
                    SettingsView { max_load: Some(args[at + 1]), ..so_far },
                );
            }
        } else if args[at] == flag(LETTER_J) {
            if at + 1 < args.len() && count_value(args[at + 1]) is Some {
                lemma_scan_ends_inside(
                    args,
                    at + 2,
                    SettingsView { max_jobs: count_value(args[at + 1]).unwrap(), ..so_far },
                );
            }
        }
    }
}

/// Whether `token` is the option `-` `letter`.
pub fn is_flag(token: &Vec<u8>, letter: u8) -> (same: bool)
    ensures
        same == (token@ == flag(letter)),
{
    if token.len() == 2 && token[0] == MINUS && token[1] == letter {
        assert(token@ =~= flag(letter));
        true
    } else {
        false
    }
}

/// Whether `token` is the separator `--`.
pub fn is_separator(token: &Vec<u8>) -> (same: bool)
    ensures
        same == (token@ == separator()),
{
    is_flag(token, MINUS)
}

/// The number of jobs to run at once where `-j` is not given.
pub fn jobs_by_default(host_parallelism: Option<usize>) -> (jobs: usize)
    ensures
        jobs == default_jobs(host_parallelism),
        jobs > 0,
{
    match host_parallelism {
        Some(n) => if n > 0 {
            n
        } else {
            1
        },
        None => 1,
    }
}

/// Reads the options at the head of `args`.
///
/// `host_parallelism` is what the host reports as the number of jobs it can
/// run at once, if it reports anything.
pub fn scan_options(args: &Vec<Vec<u8>>, host_parallelism: Option<usize>) -> (result: Result<
    Scan,
    ArgumentError,
>)
    ensures
        match result {
            Ok(scan) => scanned(texts(args@), host_parallelism) == Ok::<ScanView, ArgumentError>(
                scan@,
            ),
            Err(error) => scanned(texts(args@), host_parallelism) == Err::<ScanView, ArgumentError>(
                error,
            ),
        },
        result matches Ok(Scan::Options { settings, rest }) ==> rest <= args.len() && settings@.wf()
            && (rest < args.len() ==> !is_option(args[rest as int]@)),
{
    let mut settings = Settings {
        interpolate: false,
        n_args: 1,
        max_load: None,
        max_jobs: jobs_by_default(host_parallelism),
    };
    let ghost tokens = texts(args@);
    let mut at: usize = 0;
    while at < args.len()
        invariant
            at <= args.len(),
            tokens == texts(args@),
            settings@.wf(),
            scanned(tokens, host_parallelism) == scan_from(tokens, at as int, settings@),
        decreases args.len() - at,
    {
        let token = &args[at];
        assert(tokens[at as int] == token@);
        if token.len() == 0 || token[0] != MINUS || is_separator(token) {
            return Ok(Scan::Options { settings, rest: at });
        }
        if is_flag(token, LETTER_H) {
            return Ok(Scan::Help);
        } else if is_flag(token, LETTER_I) {
            settings.interpolate = true;
            at += 1;
        } else if is_flag(token, LETTER_N) {
            if at + 1 >= args.len() {
                return Err(ArgumentError::InvalidCount { position: at });
            }
            assert(tokens[at + 1] == args[at + 1]@);
            match parse_count(&args[at + 1]) {
                Some(count) => {
                    settings.n_args = count;
                },
                None => {
                    return Err(ArgumentError::InvalidCount { position: at });
                },
            }
            at += 2;
        } else if is_flag(token, LETTER_L) {
            if at + 1 >= args.len() {
                return Err(ArgumentError::InvalidLoad { position: at });
            }
            assert(tokens[at + 1] == args[at + 1]@);
            if !is_load(&args[at + 1]) {
                return Err(ArgumentError::InvalidLoad { position: at });
            }
            settings.max_load = Some(copy_bytes(&args[at + 1]));
            at += 2;
        } else if is_flag(token, LETTER_J) {
            if at + 1 >= args.len() {
                return Err(ArgumentError::InvalidJobs { position: at });
            }
            assert(tokens[at + 1] == args[at + 1]@);
            match parse_count(&args[at + 1]) {
                Some(count) => {
                    settings.max_jobs = count;
                },
                None => {
                    return Err(ArgumentError::InvalidJobs { position: at });
                },
            }
            at += 2;
        } else {
            return Err(ArgumentError::UnknownOption { position: at });
        }
    }
    Ok(Scan::Options { settings, rest: at })
}

} // verus!
