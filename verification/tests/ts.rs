use chrono::{DateTime, FixedOffset, TimeZone};
use moreutils::arguments::{Argument, ArgumentsError, Reaction};
use moreutils::ts::{
    advance, compile_pattern, epoch_plus, find_time, format_for, is_later, parse_args, pattern,
    read_time, relative_line, replacement, settle, shown_time, splice, stamp_line, stamped, start,
    time_ago, time_passed, usage, without_first, Args, Notation, TimeMode, Timestamp,
};
use moreutils::patterns::Located;


trait Told {
    fn told(self) -> String;
}

impl Told for ArgumentsError {
    fn told(self) -> String {
        match self {
            ArgumentsError::MissingValue { option: None } => "missing argument".to_string(),
            ArgumentsError::MissingValue { option: Some(option) } => {
                format!("missing argument for option '{}'", option)
            }
            ArgumentsError::UnexpectedOption(option) => format!("invalid option '{}'", option),
            ArgumentsError::UnexpectedArgument(value) => format!("unexpected argument {:?}", value),
            ArgumentsError::UnexpectedValue { option, value } => {
                format!("unexpected argument for option '{}': {:?}", option, value)
            }
            ArgumentsError::Custom(text) => text,
        }
    }
}

fn moment(time: DateTime<FixedOffset>) -> Timestamp {
    Timestamp {
        seconds: time.timestamp(),
        nanoseconds: time.timestamp_subsec_nanos(),
        offset: time.offset().local_minus_utc(),
    }
}

fn utc(year: i32, month: u32, day: u32, hour: u32, minute: u32, second: u32) -> Timestamp {
    moment(
        FixedOffset::east_opt(0)
            .unwrap()
            .with_ymd_and_hms(year, month, day, hour, minute, second)
            .unwrap(),
    )
}

fn same_moment(expected: DateTime<FixedOffset>, read: Option<Timestamp>) {
    let read = read.expect("the text is read as a time");
    assert_eq!(expected.timestamp(), read.seconds);
    assert_eq!(expected.timestamp_subsec_nanos(), read.nanoseconds);
}

#[test]
fn lastlog() {
    let year = 2025;
    let day = 1;
    let hour = 21;
    let minute = 2;
    let second = 0;
    let month_name = "Apr";
    let day_name = "Tue";
    let formats = vec![format!(
        "{day_name} {month_name} {day} {hour:02}:{minute:02}:{second:02} +0000 {year}"
    )];
    let expected =
        FixedOffset::east_opt(0).unwrap().with_ymd_and_hms(2025, 4, 1, 21, 2, 0).unwrap();
    for f in formats {
        same_moment(expected, read_time(Notation::Lastlog, &f, utc(2025, 6, 1, 0, 0, 0)));
    }
}

#[test]
fn rfc2822() {
    let year = 2025;
    let day = 14;
    let hour = 21;
    let minute = 2;
    let second = 0;
    let month_name = "Apr";
    let day_name = "Mon";
    let formats = vec![
        format!("{day_name}, {day} {month_name} {year} {hour:02}:{minute:02}:{second:02} +0000"),
        format!("{day_name}, {day} {month_name} {year} {hour:02}:{minute:02}:{second:02} GMT"),
        format!("{day} {month_name} {year} {hour:02}:{minute:02}:{second:02} GMT"),
    ];
    let expected =
        FixedOffset::east_opt(0).unwrap().with_ymd_and_hms(2025, 4, 14, 21, 2, 0).unwrap();
    for f in formats {
        same_moment(expected, read_time(Notation::Rfc2822, &f, utc(2025, 6, 1, 0, 0, 0)));
    }
}

#[test]
fn rfc3339() {
    let year = 2025;
    let month = 4;
    let day = 14;
    let hour = 21;
    let minute = 2;
    let second = 0;
    let formats = vec![
        format!("{year}-{month:02}-{day:02}T{hour:02}:{minute:02}:{second:02}Z"),
        format!("{year}-{month:02}-{day:02}t{hour:02}:{minute:02}:{second:02}Z"),
        format!("{year}-{month:02}-{day:02} {hour:02}:{minute:02}:{second:02}Z"),
        format!("{year}-{month:02}-{day:02} {hour:02}:{minute:02}:{second:02}z"),
        format!("{year}-{month:02}-{day:02} {hour:02}:{minute:02}:{second:02}z"),
        format!("{year}-{month:02}-{day:02} {hour:02}:{minute:02}:{second:02}-00:00"),
        format!("{year}-{month:02}-{day:02} {hour:02}:{minute:02}:{second:02}+00:00"),
    ];
    let expected =
        FixedOffset::east_opt(0).unwrap().with_ymd_and_hms(2025, 4, 14, 21, 2, 0).unwrap();
    for f in formats {
        same_moment(expected, read_time(Notation::Rfc3339, &f, utc(2025, 6, 1, 0, 0, 0)));
    }
}

#[test]
fn rfc3339_with_an_offset_without_colon() {
    let expected =
        FixedOffset::east_opt(7200).unwrap().with_ymd_and_hms(2025, 4, 14, 21, 2, 0).unwrap();
    let read = read_time(Notation::Rfc3339, "2025-04-14T21:02:00+0200", utc(2025, 6, 1, 0, 0, 0));
    assert_eq!(read, Some(moment(expected)));
    assert_eq!(read.unwrap().offset, 7200);
    assert_eq!(read_time(Notation::Rfc3339, "2025-04-14", utc(2025, 6, 1, 0, 0, 0)), None);
    assert_eq!(read_time(Notation::Rfc3339, "2025-13-14T21:02:00Z", utc(2025, 6, 1, 0, 0, 0)), None);
}

#[test]
fn unix_seconds_are_read() {
    assert_eq!(
        read_time(Notation::UnixSeconds, "1744664520", utc(2025, 6, 1, 0, 0, 0)),
        Some(Timestamp { seconds: 1744664520, nanoseconds: 0, offset: 0 })
    );
    assert_eq!(read_time(Notation::UnixSeconds, "soon", utc(2025, 6, 1, 0, 0, 0)), None);
}

#[test]
fn time_without_a_year_is_read_in_the_current_year() {
    let now = utc(2025, 4, 15, 0, 0, 0);
    assert_eq!(read_time(Notation::Rfc3164, "Apr 14 21:02:00", now), Some(utc(2025, 4, 14, 21, 2, 0)));
    assert_eq!(read_time(Notation::Rfc3164, "Apr  4 01:02:03", now), Some(utc(2025, 4, 4, 1, 2, 3)));
}

#[test]
fn time_without_a_year_that_lies_ahead_is_of_last_year() {
    let now = utc(2025, 4, 14, 0, 0, 0);
    assert_eq!(read_time(Notation::Rfc3164, "Apr 14 21:02:00", now), Some(utc(2024, 4, 14, 21, 2, 0)));
    assert_eq!(read_time(Notation::Rfc3164, "Dec 31 23:59:59", now), Some(utc(2024, 12, 31, 23, 59, 59)));
}

#[test]
fn time_without_a_year_uses_the_offset_of_now() {
    let now = moment(
        FixedOffset::east_opt(3600).unwrap().with_ymd_and_hms(2025, 4, 15, 0, 0, 0).unwrap(),
    );
    let expected =
        FixedOffset::east_opt(3600).unwrap().with_ymd_and_hms(2025, 4, 14, 21, 2, 0).unwrap();
    assert_eq!(read_time(Notation::Rfc3164, "Apr 14 21:02:00", now), Some(moment(expected)));
}

#[test]
fn words_that_only_look_like_a_time_are_not_read() {
    let now = utc(2025, 4, 15, 0, 0, 0);
    assert_eq!(read_time(Notation::Rfc3164, "Xyz 14 21:02:00", now), None);
    assert_eq!(read_time(Notation::Rfc3164, "Apr 14 25:02:00", now), None);
    assert_eq!(read_time(Notation::Rfc2822, "14 Xyz 2025 21:02:00 GMT", now), None);
    assert_eq!(read_time(Notation::Lastlog, "Tue Apr  1 21:02:00 +0000", now), None);
}

#[test]
fn settle_moves_only_times_that_lie_ahead() {
    let now = utc(2025, 4, 14, 0, 0, 0);
    let before = utc(2025, 1, 1, 0, 0, 0);
    let ahead = utc(2025, 5, 1, 0, 0, 0);
    assert_eq!(settle(before, now, 2025), Some(before));
    assert_eq!(settle(now, now, 2025), Some(now));
    assert_eq!(settle(ahead, now, 2025), Some(utc(2024, 5, 1, 0, 0, 0)));
    let leap_day = utc(2024, 2, 29, 12, 0, 0);
    assert_eq!(settle(leap_day, utc(2024, 1, 1, 0, 0, 0), 2024), None);
    assert_eq!(settle(ahead, now, i32::MIN), None);
}

#[test]
fn later_compares_seconds_first() {
    let a = Timestamp { seconds: 10, nanoseconds: 5, offset: 0 };
    let b = Timestamp { seconds: 10, nanoseconds: 6, offset: 3600 };
    let c = Timestamp { seconds: 11, nanoseconds: 0, offset: -3600 };
    assert!(!is_later(a, b));
    assert!(is_later(b, a));
    assert!(is_later(c, b));
    assert!(!is_later(a, a));
}

#[test]
fn time_ago_names_at_most_days_and_hours_together() {
    assert_eq!(time_ago(-5), "just now");
    assert_eq!(time_ago(0), "just now");
    assert_eq!(time_ago(1), "1s ago");
    assert_eq!(time_ago(59), "59s ago");
    assert_eq!(time_ago(60), "1m ago");
    assert_eq!(time_ago(61), "1m 1s ago");
    assert_eq!(time_ago(3599), "59m 59s ago");
    assert_eq!(time_ago(3600), "1h ago");
    assert_eq!(time_ago(3661), "1h 1m 1s ago");
    assert_eq!(time_ago(86399), "23h 59m 59s ago");
    assert_eq!(time_ago(86400), "1d ago");
    assert_eq!(time_ago(86401), "1d 1s ago");
    assert_eq!(time_ago(86400 + 61), "1d 1m 1s ago");
    assert_eq!(time_ago(86400 + 3600), "1d 1h ago");
    assert_eq!(time_ago(90061), "1d 1h ago");
    assert_eq!(time_ago(10 * 86400 + 5 * 3600 + 59 * 60 + 59), "10d 5h ago");
    assert_eq!(time_ago(i64::MAX), "106751991167300d 15h ago");
}

#[test]
fn pattern_compiles_and_finds_every_notation() {
    let compiled = compile_pattern().expect("the pattern is well-formed");
    let cases = [
        ("x Apr 14 21:02:00 y", Notation::Rfc3164, "Apr 14 21:02:00"),
        ("x 2025-04-14T21:02:00Z y", Notation::Rfc3339, "2025-04-14T21:02:00Z"),
        ("x 2025-04-14 21:02:00.123+02:00 y", Notation::Rfc3339, "2025-04-14 21:02:00.123+02:00"),
        ("x Mon, 14 Apr 2025 21:02:00 +0000 y", Notation::Rfc2822, "Mon, 14 Apr 2025 21:02:00 +0000"),
        ("x 1744664520 y", Notation::UnixSeconds, "1744664520"),
    ];
    for (line, notation, found) in cases {
        let (kind, parts) = find_time(&compiled, line).expect("a time is found");
        assert_eq!(kind, notation, "{}", line);
        assert_eq!(parts.found, found);
        assert_eq!(format!("{}{}{}", parts.before, parts.found, parts.after), line);
    }
    assert_eq!(find_time(&compiled, "no time here"), None);
    assert_eq!(find_time(&compiled, ""), None);
    assert!(pattern().contains("(?<unixsec>[1-9]\\d{9})"));
}

#[test]
fn relative_line_says_how_long_ago() {
    let pattern = compile_pattern().unwrap();
    let now = utc(2025, 4, 15, 22, 3, 1);
    assert_eq!(
        relative_line(&pattern, "start 2025-04-14T21:02:00Z end", &None, now),
        "start 1d 1h ago end"
    );
    assert_eq!(
        relative_line(&pattern, "Apr 15 22:00:00 host: message", &None, now),
        "3m 1s ago host: message"
    );
    assert_eq!(
        relative_line(&pattern, "at 1744754520!", &None, now),
        "at 1m 1s ago!"
    );
    assert_eq!(
        relative_line(&pattern, "2025-04-15T22:03:02Z", &None, now),
        "just now"
    );
    assert_eq!(
        relative_line(&pattern, "2025-04-15T22:03:01Z", &None, now),
        "just now"
    );
}

#[test]
fn relative_line_rewrites_the_first_time_only() {
    let pattern = compile_pattern().unwrap();
    let now = utc(2025, 4, 15, 22, 3, 1);
    assert_eq!(
        relative_line(&pattern, "2025-04-15T22:03:00Z and 2025-04-15T22:02:00Z", &None, now),
        "1s ago and 2025-04-15T22:02:00Z"
    );
}

#[test]
fn relative_line_writes_the_time_in_the_format() {
    let pattern = compile_pattern().unwrap();
    let now = utc(2025, 4, 15, 22, 3, 1);
    let format = Some("%Y/%m/%d %H.%M".to_string());
    assert_eq!(
        relative_line(&pattern, "start 2025-04-14T21:02:00+02:00 end", &format, now),
        "start 2025/04/14 21.02 end"
    );
    assert_eq!(
        relative_line(&pattern, "at 1744664520", &Some("%a %b %e %H:%M:%S %z %Y".to_string()), now),
        "at Mon Apr 14 21:02:00 +0000 2025"
    );
}

#[test]
fn relative_line_keeps_what_it_cannot_read() {
    let pattern = compile_pattern().unwrap();
    let now = utc(2025, 4, 15, 22, 3, 1);
    assert_eq!(relative_line(&pattern, "nothing to see", &None, now), "nothing to see");
    assert_eq!(
        relative_line(&pattern, "Xyz 14 21:02:00 host", &None, now),
        "Xyz 14 21:02:00 host"
    );
    assert_eq!(
        relative_line(&pattern, "on 2025-13-45T21:02:00Z", &None, now),
        "on 2025-13-45T21:02:00Z"
    );
}

#[test]
fn replacement_of_each_case() {
    let now = utc(2025, 4, 15, 0, 0, 0);
    let time = utc(2025, 4, 14, 0, 0, 0);
    assert_eq!(replacement("found", None, &None, now, None), "found");
    assert_eq!(replacement("found", None, &Some("%Y".to_string()), now, Some((5, 0))), "found");
    assert_eq!(replacement("found", Some(time), &Some("%Y".to_string()), now, None), "2025");
    assert_eq!(replacement("found", Some(time), &None, now, Some((86400, 0))), "1d ago");
    assert_eq!(replacement("found", Some(time), &None, now, Some((0, 5))), "just now");
    assert_eq!(replacement("found", Some(time), &None, now, Some((0, -5))), "just now");
    assert_eq!(replacement("found", Some(time), &None, now, Some((-3, 0))), "just now");
    assert_eq!(replacement("found", Some(time), &None, now, None), "found");
}

#[test]
fn splice_puts_the_text_between_the_parts() {
    let parts = Located {
        before: "one ".to_string(),
        found: "two".to_string(),
        after: " three".to_string(),
    };
    assert_eq!(splice(&parts, "2"), "one 2 three");
    assert_eq!(splice(&parts, ""), "one  three");
}

#[test]
fn without_first_drops_one_character() {
    assert_eq!(without_first(""), None);
    assert_eq!(without_first("T"), Some("".to_string()));
    assert_eq!(without_first("T21:02"), Some("21:02".to_string()));
    assert_eq!(without_first("\u{e9}t\u{e9}"), Some("t\u{e9}".to_string()));
}

#[test]
fn stamped_puts_the_time_in_front() {
    let time = utc(2025, 4, 14, 21, 2, 0);
    assert_eq!(
        stamped(time, "%b %d %H:%M:%S", "a line"),
        Some("Apr 14 21:02:00 a line".to_string())
    );
    assert_eq!(stamped(time, "%H:%M:%S", ""), Some("21:02:00 ".to_string()));
    assert_eq!(
        stamped(Timestamp { seconds: 0, nanoseconds: 0, offset: 3600 }, "%Y %H %z", "x"),
        Some("1970 01 +0100 x".to_string())
    );
}

#[test]
fn shown_time_counts_from_the_epoch_for_spans() {
    let now = utc(2025, 4, 14, 21, 2, 0);
    assert_eq!(shown_time(TimeMode::Absolute, now, None), Some(now));
    assert_eq!(shown_time(TimeMode::Absolute, now, Some((5, 0))), Some(now));
    assert_eq!(
        shown_time(TimeMode::Incremental, now, Some((75, 500))),
        Some(Timestamp { seconds: 75, nanoseconds: 500, offset: 0 })
    );
    assert_eq!(
        shown_time(TimeMode::SinceStart, now, Some((3661, 0))),
        Some(Timestamp { seconds: 3661, nanoseconds: 0, offset: 0 })
    );
    assert_eq!(shown_time(TimeMode::SinceStart, now, None), None);
    assert_eq!(
        stamped(shown_time(TimeMode::SinceStart, now, Some((3661, 0))).unwrap(), "%H:%M:%S", "x"),
        Some("01:01:01 x".to_string())
    );
}

#[test]
fn epoch_plus_brings_negative_spans_into_range() {
    assert_eq!(epoch_plus(0, 0), Some(Timestamp { seconds: 0, nanoseconds: 0, offset: 0 }));
    assert_eq!(
        epoch_plus(0, -1),
        Some(Timestamp { seconds: -1, nanoseconds: 999_999_999, offset: 0 })
    );
    assert_eq!(
        epoch_plus(-2, -250_000_000),
        Some(Timestamp { seconds: -3, nanoseconds: 750_000_000, offset: 0 })
    );
    assert_eq!(epoch_plus(i64::MIN, -1), None);
    assert_eq!(epoch_plus(0, 1_000_000_000), None);
    assert_eq!(epoch_plus(0, -1_000_000_000), None);
}

#[test]
fn advance_carries_nanoseconds() {
    let time = Timestamp { seconds: 10, nanoseconds: 900_000_000, offset: 60 };
    assert_eq!(
        advance(time, 5, 200_000_000),
        Some(Timestamp { seconds: 16, nanoseconds: 100_000_000, offset: 60 })
    );
    assert_eq!(
        advance(time, 0, 0),
        Some(time)
    );
    assert_eq!(advance(time, i64::MAX, 0), None);
    assert_eq!(advance(time, 0, 1_000_000_000), None);
    assert_eq!(
        advance(Timestamp { seconds: i64::MAX, nanoseconds: 999_999_999, offset: 0 }, 0, 1),
        None
    );
    assert_eq!(
        advance(Timestamp { seconds: -1, nanoseconds: 999_999_999, offset: 0 }, i64::MIN, 1),
        Some(Timestamp { seconds: i64::MIN, nanoseconds: 0, offset: 0 })
    );
}

#[test]
fn stamp_line_of_the_running_clock() {
    let started = start();
    let (line, now) = stamp_line(TimeMode::Absolute, started, "%Y", "text");
    let line = line.unwrap();
    assert!(line.ends_with(" text"));
    assert_eq!(line.len(), 9);
    assert!(!is_later(started, now));
    let (line, _) = stamp_line(TimeMode::SinceStart, started, "%H:%M", "text");
    assert_eq!(line, Some("00:00 text".to_string()));
    let (line, _) = stamp_line(TimeMode::Incremental, started, "%H:%M", "text");
    assert_eq!(line, Some("00:00 text".to_string()));
}

#[test]
fn time_options_are_read() {
    let args = |words: &[&str]| parse_args(&words.iter().map(|w| w.to_string()).collect());
    let read = args(&[]).unwrap();
    assert_eq!(
        read,
        Args { relative: false, time_mode: TimeMode::Absolute, monotonic: false, format_arg: None }
    );
    let read = args(&["-r"]).unwrap();
    assert!(read.relative);
    let read = args(&["-i", "-m", "%H"]).unwrap();
    assert_eq!(
        read,
        Args {
            relative: false,
            time_mode: TimeMode::Incremental,
            monotonic: true,
            format_arg: Some("%H".to_string())
        }
    );
    let read = args(&["-is"]).unwrap();
    assert_eq!(read.time_mode, TimeMode::SinceStart);
    let read = args(&["-si"]).unwrap();
    assert_eq!(read.time_mode, TimeMode::Incremental);
    let read = args(&["--", "-r"]).unwrap();
    assert_eq!(read.format_arg, Some("-r".to_string()));
    assert!(!read.relative);
}

#[test]
fn options_that_are_refused() {
    let args = |words: &[&str]| parse_args(&words.iter().map(|w| w.to_string()).collect());
    assert_eq!(args(&["-x"]).unwrap_err().told(), "invalid option '-x'");
    assert_eq!(args(&["--relative"]).unwrap_err().told(), "invalid option '--relative'");
    assert_eq!(args(&["%H", "%M"]).unwrap_err().told(), "unexpected argument \"%M\"");
    assert_eq!(
        args(&["-r=1"]).unwrap_err().told(),
        "unexpected argument for option '-r': \"1\""
    );
}

#[test]
fn time_options_accept_one_argument_at_a_time() {
    let mut args = Args::new();
    assert_eq!(args.accept(&Argument::Short('r')), Reaction::Taken);
    assert_eq!(args.accept(&Argument::Short('s')), Reaction::Taken);
    assert_eq!(args.accept(&Argument::Value("%T".to_string())), Reaction::Taken);
    assert_eq!(args.accept(&Argument::Value("%D".to_string())), Reaction::Unexpected);
    assert_eq!(args.accept(&Argument::Long("r".to_string())), Reaction::Unexpected);
    assert_eq!(args.accept(&Argument::Short('R')), Reaction::Unexpected);
    assert_eq!(
        args,
        Args {
            relative: true,
            time_mode: TimeMode::SinceStart,
            monotonic: false,
            format_arg: Some("%T".to_string())
        }
    );
}

#[test]
fn default_formats() {
    let mut args = Args::new();
    assert_eq!(format_for(&args), "%b %d %H:%M:%S");
    args.time_mode = TimeMode::Incremental;
    assert_eq!(format_for(&args), "%H:%M:%S");
    args.time_mode = TimeMode::SinceStart;
    assert_eq!(format_for(&args), "%H:%M:%S");
    args.format_arg = Some("%s".to_string());
    assert_eq!(format_for(&args), "%s");
    assert_eq!(usage(), "Usage: ts [-r] [-i|-s] [-m] [FORMAT]\n");
}

#[test]
fn the_compiled_pattern_keeps_its_text() {
    let compiled = compile_pattern().expect("the pattern is well-formed");
    assert_eq!(compiled.as_str(), pattern());
}

#[test]
fn start_is_a_moment_of_the_clock() {
    let started = start();
    assert!(started.nanoseconds < 2_000_000_000);
    assert!(-86_400 < started.offset && started.offset < 86_400);
    assert!(started.seconds > 1_600_000_000);
}

#[test]
fn time_without_a_year_is_read_to_its_end() {
    let now = utc(2025, 4, 15, 0, 0, 0);
    assert_eq!(read_time(Notation::Rfc3164, "Apr 14 21:02:00 and more", now), None);
    assert_eq!(read_time(Notation::Rfc3164, "Apr 14 21:02", now), None);
    assert_eq!(read_time(Notation::Rfc3164, "", now), None);
}

#[test]
fn time_without_a_colon_in_the_offset_may_be_followed_by_more() {
    let now = utc(2025, 6, 1, 0, 0, 0);
    let expected =
        FixedOffset::east_opt(-3600).unwrap().with_ymd_and_hms(2025, 4, 14, 21, 2, 0).unwrap();
    assert_eq!(read_time(Notation::Rfc3339, "2025-04-14 21:02:00-0100", now), Some(moment(expected)));
    assert_eq!(read_time(Notation::Rfc3339, "2025-04-14", now), None);
    assert_eq!(read_time(Notation::Rfc3339, "2025-04-14T", now), None);
}

#[test]
fn time_passed_counts_towards_zero() {
    let at = |seconds: i64, nanoseconds: u32| Timestamp { seconds, nanoseconds, offset: 0 };
    assert_eq!(time_passed(at(10, 900_000_000), at(12, 100_000_000)), Some((1, 200_000_000)));
    assert_eq!(time_passed(at(12, 100_000_000), at(10, 900_000_000)), Some((-1, -200_000_000)));
    assert_eq!(time_passed(at(0, 500_000_000), at(0, 1)), Some((0, -499_999_999)));
    assert_eq!(time_passed(at(-5, 0), at(-5, 0)), Some((0, 0)));
    assert_eq!(time_passed(at(-3, 250_000_000), at(4, 0)), Some((6, 750_000_000)));
    assert_eq!(time_passed(at(1_700_000_000, 0), at(1_700_086_400, 999_999_999)), Some((86_400, 999_999_999)));
    assert_eq!(time_passed(at(i64::MAX, 0), at(0, 0)), None);
    assert_eq!(time_passed(at(0, 2_000_000_000), at(0, 0)), None);
    let other = Timestamp { seconds: 100, nanoseconds: 0, offset: 3600 };
    assert_eq!(time_passed(other, at(160, 0)), Some((60, 0)));
}
