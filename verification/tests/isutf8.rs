use moreutils::arguments::{Argument, ArgumentsError, Reaction};
use moreutils::isutf8::{
    byte_vec_ascii, byte_vec_hex, exit_status, parse_args, shown, usage, validate, DisplayMode,
    Expectation, Options, Request, Shown, Utf8ParseError,
};


trait Told {
    fn told(self) -> String;
}

impl Told for ArgumentsError {
    fn told(self) -> String {
        match self {
            ArgumentsError::MissingValue { option: None } => "missing argument".to_string(),
            ArgumentsError::MissingValue { option: Some(option) } => {
                format!("missing argument for option '{}'", option)
            }
            ArgumentsError::UnexpectedOption(option) => format!("invalid option '{}'", option),
            ArgumentsError::UnexpectedArgument(value) => format!("unexpected argument {:?}", value),
            ArgumentsError::UnexpectedValue { option, value } => {
                format!("unexpected argument for option '{}': {:?}", option, value)
            }
            ArgumentsError::Custom(text) => text,
        }
    }
}

/// A byte-at-a-time reader, kept here to cross-check `validate`: it holds
/// the bytes of the sequence it is in, and counts as it goes.
struct Reader {
    seen: Vec<u8>,
    lines: usize,
    chars: usize,
    bytes: usize,
    trailing: Vec<u8>,
}

fn second_ok(lead: u8, byte: u8) -> (bool, Expectation) {
    match lead {
        0xc2..=0xdf => ((0x80..=0xbf).contains(&byte), Expectation::SecondOfTwo),
        0xe0 => ((0xa0..=0xbf).contains(&byte), Expectation::SecondAfterE0),
        0xe1..=0xec => ((0x80..=0xbf).contains(&byte), Expectation::SecondAfterE1ToEc),
        0xed => ((0x80..=0x9f).contains(&byte), Expectation::SecondAfterEd),
        0xee..=0xef => ((0x80..=0xbf).contains(&byte), Expectation::SecondAfterEeToEf),
        0xf0 => ((0x90..=0xbf).contains(&byte), Expectation::SecondAfterF0),
        0xf1..=0xf3 => ((0x80..=0xbf).contains(&byte), Expectation::SecondAfterF1ToF3),
        0xf4 => ((0x80..=0x8f).contains(&byte), Expectation::SecondAfterF4),
        _ => unreachable!(),
    }
}

fn wanted(lead: u8) -> usize {
    match lead {
        0x00..=0x7f => 1,
        0xc2..=0xdf => 2,
        0xe0..=0xef => 3,
        0xf0..=0xf4 => 4,
        _ => 0,
    }
}

fn remember(trailing: &mut Vec<u8>, byte: u8) {
    trailing.push(byte);
    if trailing.len() > 8 {
        trailing.remove(0);
    }
}

fn model(data: &[u8]) -> Result<(), Utf8ParseError> {
    let mut r = Reader { seen: vec![], lines: 1, chars: 1, bytes: 0, trailing: vec![] };
    for (count, &byte) in data.iter().enumerate() {
        let mut failure = None;
        let mut done = false;
        if r.seen.is_empty() {
            if byte == 0x0a {
                r.lines += 1;
                r.chars = 0;
                done = true;
            } else if wanted(byte) == 1 {
                done = true;
            } else if wanted(byte) > 1 {
                r.bytes = count;
                r.seen.push(byte);
            } else {
                failure = Some((vec![byte], Expectation::FirstByte));
            }
        } else {
            let lead = r.seen[0];
            let (ok, complaint) = match r.seen.len() {
                1 => second_ok(lead, byte),
                2 => (
                    (0x80..=0xbf).contains(&byte),
                    if wanted(lead) == 3 {
                        Expectation::ThirdOfThree
                    } else {
                        Expectation::ThirdOfFour
                    },
                ),
                _ => ((0x80..=0xbf).contains(&byte), Expectation::FourthOfFour),
            };
            if !ok {
                let mut context = r.seen.clone();
                context.push(byte);
                failure = Some((context, complaint));
            } else if r.seen.len() + 1 == wanted(lead) {
                for b in r.seen.clone() {
                    remember(&mut r.trailing, b);
                }
                r.seen.clear();
                done = true;
            } else {
                r.seen.push(byte);
            }
        }
        if let Some((context, expected)) = failure {
            let forward: Vec<u8> = data[count + 1..].iter().take(6).cloned().collect();
            return Err(Utf8ParseError {
                line: r.lines,
                character: r.chars,
                byte: r.bytes,
                trailing: r.trailing,
                context,
                forward,
                expected,
            });
        }
        if done {
            remember(&mut r.trailing, byte);
            r.chars += 1;
            r.bytes = count;
        }
    }
    if r.seen.is_empty() {
        return Ok(());
    }
    let expected = match wanted(r.seen[0]) {
        2 => Expectation::EndInTwo,
        3 => Expectation::EndInThree,
        _ => Expectation::EndInFour,
    };
    Err(Utf8ParseError {
        line: r.lines,
        character: r.chars,
        byte: r.bytes,
        trailing: r.trailing,
        context: r.seen,
        forward: vec![],
        expected,
    })
}

const EDGES: [u8; 28] = [
    0x00, 0x0a, 0x41, 0x7f, 0x80, 0x8e, 0x8f, 0x90, 0x9f, 0xa0, 0xbe, 0xbf, 0xc0, 0xc1, 0xc2, 0xdf,
    0xe0, 0xe1, 0xec, 0xed, 0xee, 0xef, 0xf0, 0xf1, 0xf3, 0xf4, 0xf5, 0xff,
];

#[test]
fn agrees_with_the_reader_on_every_short_stream_of_edge_bytes() {
    let mut data = Vec::new();
    assert_eq!(validate(&data), model(&data));
    for a in EDGES {
        data = vec![a];
        assert_eq!(validate(&data), model(&data), "{:02x?}", data);
        for b in EDGES {
            data = vec![a, b];
            assert_eq!(validate(&data), model(&data), "{:02x?}", data);
            for c in EDGES {
                data = vec![a, b, c];
                assert_eq!(validate(&data), model(&data), "{:02x?}", data);
            }
        }
    }
}

#[test]
fn agrees_with_the_reader_on_four_byte_streams() {
    for a in [0x41u8, 0x0a, 0xc2, 0xe0, 0xed, 0xef, 0xf0, 0xf4, 0xf5] {
        for b in EDGES {
            for c in EDGES {
                for d in EDGES {
                    let data = vec![a, b, c, d];
                    assert_eq!(validate(&data), model(&data), "{:02x?}", data);
                }
            }
        }
    }
}

#[test]
fn agrees_with_the_reader_on_long_streams() {
    let mut state: u64 = 0x2545_f491_4f6c_dd1d;
    for round in 0..3000 {
        let len = (round % 40) + 1;
        let mut data = Vec::with_capacity(len);
        for _ in 0..len {
            state = state.wrapping_mul(6364136223846793005).wrapping_add(1442695040888963407);
            let pick = (state >> 33) as usize;
            // mostly valid text, with edge bytes mixed in
            let byte = match pick % 7 {
                0 => EDGES[(pick / 7) % EDGES.len()],
                1 => 0x0a,
                2 => 0xc3,
                3 => 0xa9,
                _ => 0x20 + ((pick / 7) % 0x5f) as u8,
            };
            data.push(byte);
        }
        assert_eq!(validate(&data), model(&data), "{:02x?}", data);
    }
}

#[test]
fn valid_text_passes() {
    assert_eq!(validate(&b"".to_vec()), Ok(()));
    assert_eq!(validate(&b"plain ascii\n".to_vec()), Ok(()));
    assert_eq!(validate(&"caf\u{e9} \u{20ac}".as_bytes().to_vec()), Ok(()));
    assert_eq!(validate(&"\u{800}\u{d7ff}".as_bytes().to_vec()), Ok(()));
    assert_eq!(validate(&"\u{10000}\u{1f600}".as_bytes().to_vec()), Ok(()));
}

const LEADS: [u8; 10] = [0x41, 0x0a, 0xc2, 0xe0, 0xe1, 0xed, 0xee, 0xf0, 0xf1, 0xf4];

#[test]
fn accepted_streams_are_utf8() {
    for a in LEADS {
        for b in EDGES {
            for c in EDGES {
                for d in EDGES {
                    let data = vec![a, b, c, d];
                    if validate(&data).is_ok() {
                        assert!(std::str::from_utf8(&data).is_ok(), "{:02x?}", data);
                    }
                }
            }
        }
    }
}

#[test]
fn the_upper_ends_of_the_ranges_are_accepted() {
    for data in [
        vec![0xe1, 0xbf, 0x80],
        vec![0xec, 0xbf, 0xbf],
        vec![0xee, 0xa0, 0x80],
        vec![0xef, 0xbf, 0xbf],
        vec![0xf0, 0xbf, 0x80, 0x80],
        vec![0xf3, 0xbf, 0xbf, 0xbf],
        vec![0xf4, 0x8f, 0x80, 0x80],
        vec![0xf4, 0x8f, 0xbf, 0xbf],
    ] {
        assert!(std::str::from_utf8(&data).is_ok());
        assert_eq!(validate(&data), Ok(()), "{:02x?}", data);
    }
}

#[test]
fn the_byte_order_mark_is_accepted() {
    assert_eq!(validate(&vec![0xef, 0xbb, 0xbf]), Ok(()));
    assert_eq!(validate(&"\u{feff}text\n".as_bytes().to_vec()), Ok(()));
}

#[test]
fn what_lies_outside_the_ranges_is_refused() {
    assert_eq!(
        validate(&vec![0xe0, 0x9f, 0x80]).unwrap_err().expected,
        Expectation::SecondAfterE0
    );
    assert_eq!(
        validate(&vec![0xed, 0xa0, 0x80]).unwrap_err().expected,
        Expectation::SecondAfterEd
    );
    assert_eq!(
        validate(&vec![0xef, 0xc0, 0x80]).unwrap_err().expected,
        Expectation::SecondAfterEeToEf
    );
    assert_eq!(
        validate(&vec![0xf0, 0x8f, 0x80, 0x80]).unwrap_err().expected,
        Expectation::SecondAfterF0
    );
    assert_eq!(
        validate(&vec![0xf4, 0x90, 0x80, 0x80]).unwrap_err().expected,
        Expectation::SecondAfterF4
    );
}

#[test]
fn invalid_first_byte_is_described() {
    let fault = validate(&b"ab\ncd\xffrest of it".to_vec()).unwrap_err();
    assert_eq!(
        fault,
        Utf8ParseError {
            line: 2,
            character: 3,
            byte: 4,
            trailing: b"ab\ncd".to_vec(),
            context: vec![0xff],
            forward: b"rest o".to_vec(),
            expected: Expectation::FirstByte,
        }
    );
    assert_eq!(
        fault.summary(),
        "line 2, char 3, byte 4: Expecting bytes in the following ranges: 00..7F C2..F4."
    );
    assert_eq!(fault.detail(), "61 62 0A 63 64 FF 72 65 73 74 20 6F  | ab.cd.rest.o");
    assert_eq!(fault.marker(), "               ^^                    |      ^      ");
}

#[test]
fn fault_at_the_very_start() {
    let fault = validate(&vec![0x80]).unwrap_err();
    assert_eq!(
        fault,
        Utf8ParseError {
            line: 1,
            character: 1,
            byte: 0,
            trailing: vec![],
            context: vec![0x80],
            forward: vec![],
            expected: Expectation::FirstByte,
        }
    );
    assert_eq!(fault.detail(), " 80   | .");
    assert_eq!(fault.marker(), " ^^   | ^");
}

#[test]
fn bad_continuation_is_described() {
    let fault = validate(&b"0123456789\xe2\x82(tail".to_vec()).unwrap_err();
    assert_eq!(
        fault,
        Utf8ParseError {
            line: 1,
            character: 11,
            byte: 10,
            trailing: b"23456789".to_vec(),
            context: vec![0xe2, 0x82, b'('],
            forward: b"tail".to_vec(),
            expected: Expectation::ThirdOfThree,
        }
    );
    assert_eq!(
        fault.summary(),
        "line 1, char 11, byte 10: After a first byte between E0 and EF, expecting a 3nd byte between 80 and BF."
    );
}

#[test]
fn stream_that_ends_inside_a_sequence() {
    let fault = validate(&b"x\xf0\x9f\x98".to_vec()).unwrap_err();
    assert_eq!(
        fault,
        Utf8ParseError {
            line: 1,
            character: 2,
            byte: 1,
            trailing: b"x".to_vec(),
            context: vec![0xf0, 0x9f, 0x98],
            forward: vec![],
            expected: Expectation::EndInFour,
        }
    );
    assert_eq!(validate(&vec![0xc3]).unwrap_err().expected, Expectation::EndInTwo);
    assert_eq!(validate(&vec![0xe2, 0x82]).unwrap_err().expected, Expectation::EndInThree);
    assert_eq!(validate(&vec![0xe2]).unwrap_err().expected, Expectation::EndInThree);
    assert_eq!(validate(&vec![0xf1]).unwrap_err().expected, Expectation::EndInFour);
}

#[test]
fn every_expectation_is_reached() {
    let cases: [(&[u8], Expectation); 15] = [
        (&[0xc0], Expectation::FirstByte),
        (&[0xc2, 0x20], Expectation::SecondOfTwo),
        (&[0xe0, 0x80], Expectation::SecondAfterE0),
        (&[0xe1, 0x20], Expectation::SecondAfterE1ToEc),
        (&[0xed, 0xa0], Expectation::SecondAfterEd),
        (&[0xef, 0x20], Expectation::SecondAfterEeToEf),
        (&[0xe1, 0x80, 0x20], Expectation::ThirdOfThree),
        (&[0xf0, 0x80], Expectation::SecondAfterF0),
        (&[0xf2, 0x20], Expectation::SecondAfterF1ToF3),
        (&[0xf4, 0x90], Expectation::SecondAfterF4),
        (&[0xf1, 0x80, 0x20], Expectation::ThirdOfFour),
        (&[0xf1, 0x80, 0x80, 0x20], Expectation::FourthOfFour),
        (&[0xdf], Expectation::EndInTwo),
        (&[0xef, 0x80], Expectation::EndInThree),
        (&[0xf4, 0x80, 0x80], Expectation::EndInFour),
    ];
    for (data, expected) in cases {
        assert_eq!(validate(&data.to_vec()).unwrap_err().expected, expected, "{:02x?}", data);
    }
}

#[test]
fn messages() {
    assert_eq!(
        Expectation::FirstByte.message(),
        "Expecting bytes in the following ranges: 00..7F C2..F4."
    );
    assert_eq!(
        Expectation::SecondOfTwo.message(),
        "After a first byte between C2 and DF, expecting a 2nd byte between 80 and BF"
    );
    assert_eq!(
        Expectation::SecondAfterEd.message(),
        "After a first byte of ED, expecting a 2nd byte between 80 and 9F."
    );
    assert_eq!(
        Expectation::EndInTwo.message(),
        "After a first byte between C2 and DF, expecting a 2nd byte."
    );
    assert_eq!(
        Expectation::EndInThree.message(),
        "After a first byte between E0 and EF, two following bytes."
    );
    assert_eq!(
        Expectation::EndInFour.message(),
        "After a first byte between F0 and F4, three following bytes."
    );
}

#[test]
fn ascii_rendering_shows_dots_for_what_is_not_visible() {
    assert_eq!(byte_vec_ascii(&vec![]), "");
    assert_eq!(byte_vec_ascii(&b"a b\n~!".to_vec()), "a.b.~!");
    assert_eq!(byte_vec_ascii(&vec![0x20, 0x21, 0x7e, 0x7f, 0x80, 0xff, 0x00]), ".!~....");
    for byte in 0..=255u8 {
        let expected = if (0x21..=0x7e).contains(&byte) { (byte as char).to_string() } else { ".".to_string() };
        assert_eq!(byte_vec_ascii(&vec![byte]), expected);
    }
}

#[test]
fn hex_rendering_has_two_upper_case_digits_for_each_byte() {
    assert_eq!(byte_vec_hex(&vec![]), "");
    assert_eq!(byte_vec_hex(&vec![0x0a]), "0A");
    assert_eq!(byte_vec_hex(&vec![0x00, 0x9f, 0xff, 0x10]), "00 9F FF 10");
    for byte in 0..=255u8 {
        assert_eq!(byte_vec_hex(&vec![byte]), format!("{:02X}", byte));
        assert_eq!(byte_vec_hex(&vec![byte, byte]), format!("{:02X} {:02X}", byte, byte));
    }
}

#[test]
fn what_each_mode_shows() {
    assert_eq!(shown(DisplayMode::Normal, true), Shown::Nothing);
    assert_eq!(shown(DisplayMode::Normal, false), Shown::Summary);
    assert_eq!(shown(DisplayMode::Quiet, true), Shown::Nothing);
    assert_eq!(shown(DisplayMode::Quiet, false), Shown::Nothing);
    assert_eq!(shown(DisplayMode::List, true), Shown::Nothing);
    assert_eq!(shown(DisplayMode::List, false), Shown::Name);
    assert_eq!(shown(DisplayMode::Invert, true), Shown::Name);
    assert_eq!(shown(DisplayMode::Invert, false), Shown::Nothing);
    assert_eq!(shown(DisplayMode::Verbose, true), Shown::Nothing);
    assert_eq!(shown(DisplayMode::Verbose, false), Shown::Detail);
    assert_eq!(DisplayMode::default(), DisplayMode::Normal);
    assert_eq!(exit_status(false), 0);
    assert_eq!(exit_status(true), 1);
}

#[test]
fn display_options_are_read() {
    let args = |words: &[&str]| parse_args(&words.iter().map(|w| w.to_string()).collect());
    assert_eq!(
        args(&[]).unwrap(),
        Request::Run(Options { display_mode: DisplayMode::Normal, files: vec![] })
    );
    assert_eq!(
        args(&["a.txt", "-q", "b.txt"]).unwrap(),
        Request::Run(Options {
            display_mode: DisplayMode::Quiet,
            files: vec!["a.txt".to_string(), "b.txt".to_string()]
        })
    );
    for (option, mode) in [
        ("-i", DisplayMode::Invert),
        ("--invert", DisplayMode::Invert),
        ("-l", DisplayMode::List),
        ("--list", DisplayMode::List),
        ("-q", DisplayMode::Quiet),
        ("--quiet", DisplayMode::Quiet),
        ("-v", DisplayMode::Verbose),
        ("--verbose", DisplayMode::Verbose),
    ] {
        assert_eq!(
            args(&[option]).unwrap(),
            Request::Run(Options { display_mode: mode, files: vec![] })
        );
    }
    assert_eq!(
        args(&["-qv"]).unwrap(),
        Request::Run(Options { display_mode: DisplayMode::Verbose, files: vec![] })
    );
    assert_eq!(
        args(&["--", "-q"]).unwrap(),
        Request::Run(Options { display_mode: DisplayMode::Normal, files: vec!["-q".to_string()] })
    );
}

#[test]
fn isutf8_help_and_refused_options() {
    let args = |words: &[&str]| parse_args(&words.iter().map(|w| w.to_string()).collect());
    assert_eq!(args(&["-h"]).unwrap(), Request::Help);
    assert_eq!(args(&["a", "--help", "-x"]).unwrap(), Request::Help);
    assert_eq!(args(&["-x", "-h"]).unwrap_err().told(), "invalid option '-x'");
    assert_eq!(args(&["--all"]).unwrap_err().told(), "invalid option '--all'");
    assert_eq!(
        args(&["--list=x"]).unwrap_err().told(),
        "unexpected argument for option '--list': \"x\""
    );
    assert!(usage().starts_with("Usage: isutf8 [OPTION]... [FILE]...\n"));
}

#[test]
fn options_accept_one_argument_at_a_time() {
    let mut options = Options::new();
    assert_eq!(options.accept(&Argument::Short('l')), Reaction::Taken);
    assert_eq!(options.accept(&Argument::Value("f".to_string())), Reaction::Taken);
    assert_eq!(options.accept(&Argument::Long("invert".to_string())), Reaction::Taken);
    assert_eq!(options.accept(&Argument::Short('x')), Reaction::Unexpected);
    assert_eq!(options.accept(&Argument::Long("h".to_string())), Reaction::Unexpected);
    assert_eq!(options.accept(&Argument::Short('h')), Reaction::Help);
    assert_eq!(options.accept(&Argument::Long("help".to_string())), Reaction::Help);
    assert_eq!(
        options,
        Options { display_mode: DisplayMode::Invert, files: vec!["f".to_string()] }
    );
}

#[test]
fn accepts_exactly_utf8() {
    for a in LEADS {
        for b in EDGES {
            for c in EDGES {
                for d in EDGES {
                    let data = vec![a, b, c, d];
                    let utf8 = std::str::from_utf8(&data).is_ok();
                    assert_eq!(validate(&data).is_ok(), utf8, "{:02x?}", data);
                }
            }
        }
    }
}
