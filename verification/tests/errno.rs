use moreutils::arguments::{Argument, ArgumentsError, Reaction};
use moreutils::errno::{
    description, find_code, find_name, note_pattern, parse_args, read_code, search, usage,
    Errno, Mode, Reader, Wanted,
};


trait Told {
    fn told(self) -> String;
}

impl Told for ArgumentsError {
    fn told(self) -> String {
        match self {
            ArgumentsError::MissingValue { option: None } => "missing argument".to_string(),
            ArgumentsError::MissingValue { option: Some(option) } => {
                format!("missing argument for option '{}'", option)
            }
            ArgumentsError::UnexpectedOption(option) => format!("invalid option '{}'", option),
            ArgumentsError::UnexpectedArgument(value) => format!("unexpected argument {:?}", value),
            ArgumentsError::UnexpectedValue { option, value } => {
                format!("unexpected argument for option '{}': {:?}", option, value)
            }
            ArgumentsError::Custom(text) => text,
        }
    }
}

fn strings(words: &[&str]) -> Vec<String> {
    words.iter().map(|w| w.to_string()).collect()
}

fn table() -> Vec<Errno> {
    [("EPERM", 1), ("ENOENT", 2), ("EAGAIN", 11), ("EWOULDBLOCK", 11), ("EDEADLK", 35)]
        .iter()
        .map(|(name, id)| Errno { name: name.to_string(), id: *id })
        .collect()
}

#[test]
fn a_number_is_looked_up_by_code() {
    assert_eq!(parse_args(&strings(&["2"])).unwrap(), Mode::LookupCode(2));
    assert_eq!(parse_args(&strings(&["+11"])).unwrap(), Mode::LookupCode(11));
    assert_eq!(parse_args(&strings(&["--", "-1"])).unwrap(), Mode::LookupCode(-1));
    assert_eq!(parse_args(&strings(&["2147483647"])).unwrap(), Mode::LookupCode(i32::MAX));
    assert_eq!(parse_args(&strings(&["--", "-2147483648"])).unwrap(), Mode::LookupCode(i32::MIN));
}

#[test]
fn anything_else_is_looked_up_by_name() {
    assert_eq!(parse_args(&strings(&["enoent"])).unwrap(), Mode::LookupName("enoent".to_string()));
    assert_eq!(
        parse_args(&strings(&["2147483648"])).unwrap(),
        Mode::LookupName("2147483648".to_string())
    );
    assert_eq!(parse_args(&strings(&["1x"])).unwrap(), Mode::LookupName("1x".to_string()));
    assert_eq!(parse_args(&strings(&[""])).unwrap(), Mode::LookupName("".to_string()));
    assert_eq!(parse_args(&strings(&["\u{663}"])).unwrap(), Mode::LookupName("\u{663}".to_string()));
}

#[test]
fn codes_agree_with_the_standard_parser() {
    for text in ["0", "-0", "+0", "7", "-7", "+7", "", "+", "-", "--7", "-+7", "+-7", "007", "-007",
        "2147483647", "2147483648", "-2147483648", "-2147483649", "99999999999999999999999999", " 1",
        "1 ", "1_0", "0x1", "\u{661}"]
    {
        assert_eq!(read_code(text), text.parse::<i32>().ok(), "{:?}", text);
    }
}

#[test]
fn list_and_search_are_asked_for() {
    assert_eq!(parse_args(&strings(&["-l"])).unwrap(), Mode::List);
    assert_eq!(parse_args(&strings(&["--list"])).unwrap(), Mode::List);
    assert_eq!(parse_args(&strings(&["-s", "file"])).unwrap(), Mode::Search("file".to_string()));
    assert_eq!(parse_args(&strings(&["-sfile"])).unwrap(), Mode::Search("file".to_string()));
    assert_eq!(parse_args(&strings(&["--search=no such"])).unwrap(), Mode::Search("no such".to_string()));
    assert_eq!(
        parse_args(&strings(&["-S", "file"])).unwrap(),
        Mode::SearchAllLocale("file".to_string())
    );
    assert_eq!(
        parse_args(&strings(&["--search-all-locales", "x"])).unwrap(),
        Mode::SearchAllLocale("x".to_string())
    );
}

#[test]
fn the_last_mode_counts() {
    assert_eq!(parse_args(&strings(&["2", "-l"])).unwrap(), Mode::List);
    assert_eq!(parse_args(&strings(&["-l", "-s", "x"])).unwrap(), Mode::Search("x".to_string()));
    assert_eq!(parse_args(&strings(&["-s", "x", "-l"])).unwrap(), Mode::List);
}

#[test]
fn what_is_refused() {
    assert_eq!(parse_args(&strings(&[])).unwrap_err().told(), "expected argument");
    assert_eq!(parse_args(&strings(&["-l", "2"])).unwrap_err().told(), "unexpected argument \"2\"");
    assert_eq!(parse_args(&strings(&["2", "3"])).unwrap_err().told(), "unexpected argument \"3\"");
    assert_eq!(parse_args(&strings(&["-x"])).unwrap_err().told(), "invalid option '-x'");
    assert_eq!(
        parse_args(&strings(&["-s"])).unwrap_err().told(),
        "missing argument for option '-s'"
    );
    assert_eq!(
        usage(),
        "Usage: errno [-lsS] [--list] [--search] [--search-all-locales] [keyword]\n"
    );
}

#[test]
fn reader_takes_one_argument_at_a_time() {
    let mut reader = Reader::new();
    assert_eq!(reader.accept(&Argument::Short('s')), Reaction::WantsValue);
    assert_eq!(reader.wanted, Some(Wanted::Search));
    reader.accept_value("text".to_string());
    assert_eq!(reader.mode, Some(Mode::Search("text".to_string())));
    assert_eq!(reader.wanted, None);
    assert_eq!(reader.accept(&Argument::Value("5".to_string())), Reaction::Unexpected);
    assert_eq!(reader.accept(&Argument::Long("search-all-locales".to_string())), Reaction::WantsValue);
    reader.accept_value("all".to_string());
    assert_eq!(reader.mode, Some(Mode::SearchAllLocale("all".to_string())));
    assert_eq!(reader.accept(&Argument::Short('l')), Reaction::Taken);
    assert_eq!(reader.mode, Some(Mode::List));
    reader.accept_value("ignored".to_string());
    assert_eq!(reader.mode, Some(Mode::List));
    assert_eq!(reader.accept(&Argument::Short('L')), Reaction::Unexpected);
    let mut fresh = Reader::new();
    assert_eq!(fresh.accept(&Argument::Value("12".to_string())), Reaction::Taken);
    assert_eq!(fresh.mode, Some(Mode::LookupCode(12)));
}

#[test]
fn names_are_found_in_any_case() {
    let table = table();
    assert_eq!(find_name(&table, "ENOENT"), Some(1));
    assert_eq!(find_name(&table, "enoent"), Some(1));
    assert_eq!(find_name(&table, "eNoEnT"), Some(1));
    assert_eq!(find_name(&table, "EPERM"), Some(0));
    assert_eq!(find_name(&table, "ENOEN"), None);
    assert_eq!(find_name(&table, ""), None);
    assert_eq!(find_name(&vec![], "EPERM"), None);
}

#[test]
fn codes_may_have_several_names() {
    let table = table();
    assert_eq!(find_code(&table, 11), vec![2, 3]);
    assert_eq!(find_code(&table, 1), vec![0]);
    assert_eq!(find_code(&table, 35), vec![4]);
    assert_eq!(find_code(&table, 0), Vec::<usize>::new());
    assert_eq!(find_code(&table, -11), Vec::<usize>::new());
}

#[test]
fn descriptions_are_searched_in_any_case() {
    let descriptions = strings(&[
        "Operation not permitted",
        "No such file or directory",
        "Resource temporarily unavailable",
        "Resource temporarily unavailable",
        "Resource deadlock avoided",
    ]);
    assert_eq!(search(&descriptions, "resource"), vec![2, 3, 4]);
    assert_eq!(search(&descriptions, "FILE"), vec![1]);
    assert_eq!(search(&descriptions, "not"), vec![0]);
    assert_eq!(search(&descriptions, ""), vec![0, 1, 2, 3, 4]);
    assert_eq!(search(&descriptions, "nothing"), Vec::<usize>::new());
    assert_eq!(search(&descriptions, "Resource deadlock avoided!"), Vec::<usize>::new());
}

#[test]
fn the_note_on_the_number_is_taken_out() {
    assert_eq!(
        description("No such file or directory (os error 2)"),
        Some("No such file or directory".to_string())
    );
    assert_eq!(description("plain"), Some("plain".to_string()));
    assert_eq!(
        description("a (os error 1) b (os error 22)"),
        Some("a b (os error 22)".to_string())
    );
    assert_eq!(description("x (os error )"), Some("x (os error )".to_string()));
    assert_eq!(note_pattern(), r" \(os error \d+\)");
}

#[test]
fn a_line_names_number_and_description() {
    let enoent = Errno { name: "ENOENT".to_string(), id: 2 };
    assert_eq!(moreutils::errno::line(&enoent, "No such file or directory"), "ENOENT 2 No such file or directory");
    let odd = Errno { name: "X".to_string(), id: -40 };
    assert_eq!(moreutils::errno::line(&odd, ""), "X -40 ");
    let least = Errno { name: "MIN".to_string(), id: i32::MIN };
    assert_eq!(moreutils::errno::line(&least, "d"), "MIN -2147483648 d");
}

#[test]
fn an_option_takes_the_value_that_is_attached_or_the_next_argument() {
    assert_eq!(parse_args(&strings(&["-s=x"])).unwrap(), Mode::Search("x".to_string()));
    assert_eq!(parse_args(&strings(&["-ls", "x"])).unwrap(), Mode::Search("x".to_string()));
    assert_eq!(parse_args(&strings(&["-sl"])).unwrap(), Mode::Search("l".to_string()));
    assert_eq!(parse_args(&strings(&["-s", "-l"])).unwrap(), Mode::Search("-l".to_string()));
    assert_eq!(parse_args(&strings(&["-s", "--", "-l"])).unwrap(), Mode::List);
    assert_eq!(parse_args(&strings(&["--search", "a", "-S", "b"])).unwrap(), Mode::SearchAllLocale("b".to_string()));
    assert_eq!(parse_args(&strings(&["-s", "a", "7"])).unwrap_err().told(), "unexpected argument \"7\"");
    assert_eq!(
        parse_args(&strings(&["-l", "--search"])).unwrap_err().told(),
        "missing argument for option '--search'"
    );
    assert_eq!(
        parse_args(&strings(&["--list=yes"])).unwrap_err().told(),
        "unexpected argument for option '--list': \"yes\""
    );
}

#[test]
fn a_part_is_found_wherever_it_stands() {
    let descriptions = strings(&["abcabd", "ab", "", "écoute", "xxabd"]);
    assert_eq!(search(&descriptions, "abd"), vec![0, 4]);
    assert_eq!(search(&descriptions, "ab"), vec![0, 1, 4]);
    assert_eq!(search(&descriptions, "É"), vec![3]);
    assert_eq!(search(&descriptions, "d"), vec![0, 4]);
    assert_eq!(search(&descriptions, "abcabdx"), Vec::<usize>::new());
}
