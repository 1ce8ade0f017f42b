use moreutils::vidir::{
    is_same_path, listing, pad, parse_args, path_components, push_unique, read_entry,
    read_listing, source_use, steps, temporary_extension, usage, ListingError, ListingFault,
    Rename, Request, SourceUse, Step, TemporaryNames,
};
use std::path::Path;
use moreutils::combine::split_lines;

fn tokens(words: &[&str]) -> Vec<Vec<u8>> {
    words.iter().map(|w| w.as_bytes().to_vec()).collect()
}

#[test]
fn arguments_name_the_sources() {
    assert_eq!(
        parse_args(&tokens(&["a", "--verbose", "b"])),
        Request::Run { verbose: true, sources: tokens(&["a", "b"]) }
    );
    assert_eq!(parse_args(&tokens(&["a"])), Request::Run { verbose: false, sources: tokens(&["a"]) });
    assert_eq!(parse_args(&tokens(&["-"])), Request::Run { verbose: false, sources: tokens(&["-"]) });
}

#[test]
fn without_a_source_the_current_directory_is_edited() {
    assert_eq!(parse_args(&tokens(&[])), Request::Run { verbose: false, sources: tokens(&["."]) });
    assert_eq!(
        parse_args(&tokens(&["--verbose"])),
        Request::Run { verbose: true, sources: tokens(&["."]) }
    );
    assert_eq!(parse_args(&tokens(&["--"])), Request::Run { verbose: false, sources: tokens(&["."]) });
}

#[test]
fn behind_two_dashes_everything_is_a_source() {
    assert_eq!(
        parse_args(&tokens(&["--", "--verbose", "-h", "--"])),
        Request::Run { verbose: false, sources: tokens(&["--verbose", "-h", "--"]) }
    );
}

#[test]
fn help_is_asked_for() {
    assert_eq!(parse_args(&tokens(&["-h"])), Request::Help);
    assert_eq!(parse_args(&tokens(&["a", "--help", "b"])), Request::Help);
    assert_eq!(parse_args(&tokens(&["--verbose", "-h", "--"])), Request::Help);
    assert_eq!(usage(), "Usage: vidir [--verbose] [DIRECTORY|FILE|-]...\n");
}

#[test]
fn names_are_listed_once() {
    let mut files = Vec::new();
    assert!(push_unique(&mut files, &b"a".to_vec()));
    assert!(push_unique(&mut files, &b"b".to_vec()));
    assert!(!push_unique(&mut files, &b"a".to_vec()));
    assert!(push_unique(&mut files, &b"a ".to_vec()));
    assert_eq!(files, tokens(&["a", "b", "a "]));
}

#[test]
fn numbers_are_padded_with_zeros() {
    assert_eq!(pad(0, 1), b"0".to_vec());
    assert_eq!(pad(7, 3), b"007".to_vec());
    assert_eq!(pad(123, 3), b"123".to_vec());
    assert_eq!(pad(1234, 3), b"1234".to_vec());
    assert_eq!(pad(0, 0), b"0".to_vec());
    assert_eq!(pad(42, 5), format!("{:05}", 42).into_bytes());
}

#[test]
fn list_has_one_numbered_line_for_each_name() {
    assert_eq!(listing(&tokens(&["a", "b c"])), b"0 a\n1 b c\n".to_vec());
    assert_eq!(listing(&tokens(&["only"])), b"0 only\n".to_vec());
    let many: Vec<String> = (0..12).map(|i| format!("f{}", i)).collect();
    let many: Vec<Vec<u8>> = many.iter().map(|s| s.as_bytes().to_vec()).collect();
    let text = String::from_utf8(listing(&many)).unwrap();
    assert!(text.starts_with("00 f0\n01 f1\n"));
    assert!(text.ends_with("10 f10\n11 f11\n"));
    let ten: Vec<Vec<u8>> = (0..10).map(|i| vec![b'a' + i as u8]).collect();
    let text = String::from_utf8(listing(&ten)).unwrap();
    assert!(text.starts_with("00 a\n"));
    assert!(text.ends_with("09 j\n"));
}

#[test]
fn entry_of_a_line() {
    assert_eq!(read_entry(&b"03 new name\n".to_vec(), 2, 5), Ok((3, b"new name".to_vec())));
    assert_eq!(read_entry(&b"00 x\n".to_vec(), 2, 5), Ok((0, b"x".to_vec())));
    assert_eq!(read_entry(&b"4 \n".to_vec(), 1, 5), Ok((4, b"".to_vec())));
    assert_eq!(read_entry(&b"+3 x\n".to_vec(), 2, 5), Ok((3, b"x".to_vec())));
    assert_eq!(read_entry(&b"0+3 x\n".to_vec(), 3, 5), Ok((3, b"x".to_vec())));
}

#[test]
fn last_line_without_a_newline_keeps_the_separator() {
    assert_eq!(read_entry(&b"03 name".to_vec(), 2, 5), Ok((3, b" name".to_vec())));
    assert_eq!(read_entry(&b"03x".to_vec(), 2, 5), Ok((3, b"x".to_vec())));
}

#[test]
fn faults_of_a_line() {
    assert_eq!(read_entry(&b"".to_vec(), 2, 5), Err(ListingFault::ShortLine));
    assert_eq!(read_entry(&b"03".to_vec(), 2, 5), Err(ListingFault::ShortLine));
    assert_eq!(read_entry(&b"0".to_vec(), 2, 5), Err(ListingFault::ShortLine));
    assert_eq!(read_entry(&b"03\n".to_vec(), 2, 5), Err(ListingFault::ShortLine));
    assert_eq!(read_entry(&b"\n".to_vec(), 1, 5), Err(ListingFault::ShortLine));
    assert_eq!(read_entry(&b"ab name\n".to_vec(), 2, 5), Err(ListingFault::BadNumber));
    assert_eq!(read_entry(&b" 3 name\n".to_vec(), 2, 5), Err(ListingFault::BadNumber));
    assert_eq!(read_entry(&b"-1 name\n".to_vec(), 2, 5), Err(ListingFault::BadNumber));
    assert_eq!(read_entry(&b"3  name\n".to_vec(), 2, 5), Err(ListingFault::BadNumber));
    assert_eq!(read_entry(&b"05 name\n".to_vec(), 2, 5), Err(ListingFault::NoSuchEntry));
    assert_eq!(read_entry(&b"99 name\n".to_vec(), 2, 5), Err(ListingFault::NoSuchEntry));
}

#[test]
fn unedited_list_names_every_file_as_it_was() {
    let files = tokens(&["a", "b", "c"]);
    let lines = split_lines(&listing(&files));
    assert_eq!(
        read_listing(&lines, 3),
        Ok(vec![Some(b"a".to_vec()), Some(b"b".to_vec()), Some(b"c".to_vec())])
    );
}

#[test]
fn edited_list_renames_and_deletes() {
    let lines = split_lines(&b"2 third\n0 first\n".to_vec());
    assert_eq!(
        read_listing(&lines, 3),
        Ok(vec![Some(b"first".to_vec()), None, Some(b"third".to_vec())])
    );
    assert_eq!(read_listing(&vec![], 2), Ok(vec![None, None]));
}

#[test]
fn last_line_for_a_number_counts() {
    let lines = split_lines(&b"1 x\n1 y\n".to_vec());
    assert_eq!(read_listing(&lines, 2), Ok(vec![None, Some(b"y".to_vec())]));
}

#[test]
fn first_fault_ends_the_reading() {
    let lines = split_lines(&b"0 a\nzz b\n9 c\n".to_vec());
    assert_eq!(
        read_listing(&lines, 3),
        Err(ListingError { line: 1, fault: ListingFault::BadNumber })
    );
    let lines = split_lines(&b"0 a\n1 b\n7 c\n".to_vec());
    assert_eq!(
        read_listing(&lines, 3),
        Err(ListingError { line: 2, fault: ListingFault::NoSuchEntry })
    );
    let lines = split_lines(&b"\n".to_vec());
    assert_eq!(
        read_listing(&lines, 3),
        Err(ListingError { line: 0, fault: ListingFault::ShortLine })
    );
}

#[test]
fn width_follows_the_number_of_names() {
    let lines = split_lines(&b"07 seven\n11 eleven\n".to_vec());
    let targets = read_listing(&lines, 12).unwrap();
    assert_eq!(targets.len(), 12);
    assert_eq!(targets[7], Some(b"seven".to_vec()));
    assert_eq!(targets[11], Some(b"eleven".to_vec()));
    assert_eq!(targets.iter().filter(|t| t.is_some()).count(), 2);
}

#[test]
fn temporary_extension_has_five_digits_and_a_tilde() {
    assert_eq!(temporary_extension(0), b"00000~".to_vec());
    assert_eq!(temporary_extension(42), b"00042~".to_vec());
    assert_eq!(temporary_extension(99999), b"99999~".to_vec());
}

#[test]
fn random_extensions_are_well_formed() {
    let mut names = TemporaryNames::new();
    let mut seen = std::collections::HashSet::new();
    for _ in 0..200 {
        let extension = names.next_extension();
        assert_eq!(extension.len(), 6);
        assert!(extension[..5].iter().all(|b| b.is_ascii_digit()));
        assert_eq!(extension[5], b'~');
        seen.insert(extension);
    }
    assert!(seen.len() > 1);
}

#[test]
fn every_file_leaves_its_name_before_any_takes_a_new_one() {
    let files = tokens(&["a", "b", "c"]);
    let renames = vec![
        Some(Rename { temp_name: b"a.1~".to_vec(), target_name: b"b".to_vec() }),
        None,
        Some(Rename { temp_name: b"c.2~".to_vec(), target_name: b"a".to_vec() }),
    ];
    assert_eq!(
        steps(&files, &renames),
        vec![
            Step::Rename { from: b"a".to_vec(), to: b"a.1~".to_vec() },
            Step::Delete { path: b"b".to_vec() },
            Step::Rename { from: b"c".to_vec(), to: b"c.2~".to_vec() },
            Step::Rename { from: b"a.1~".to_vec(), to: b"b".to_vec() },
            Step::Rename { from: b"c.2~".to_vec(), to: b"a".to_vec() },
        ]
    );
    assert_eq!(steps(&vec![], &vec![]), vec![]);
}

#[test]
fn a_path_is_listed_once_however_it_is_written() {
    let mut files = Vec::new();
    assert!(push_unique(&mut files, &b"a/b".to_vec()));
    assert!(!push_unique(&mut files, &b"a//b".to_vec()));
    assert!(!push_unique(&mut files, &b"a/./b".to_vec()));
    assert!(!push_unique(&mut files, &b"a/b/".to_vec()));
    assert!(push_unique(&mut files, &b"/a/b".to_vec()));
    assert!(push_unique(&mut files, &b"./a/b".to_vec()));
    assert!(push_unique(&mut files, &b"a/../a/b".to_vec()));
    assert!(push_unique(&mut files, &b"a/B".to_vec()));
    assert_eq!(files, tokens(&["a/b", "/a/b", "./a/b", "a/../a/b", "a/B"]));
}

#[test]
fn components_leave_out_what_does_not_count() {
    assert_eq!(path_components(&b"a//b/./c/".to_vec()), tokens(&["a", "b", "c"]));
    assert_eq!(path_components(&b"./a".to_vec()), tokens(&[".", "a"]));
    assert_eq!(path_components(&b"/./a/..".to_vec()), tokens(&["a", ".."]));
    assert_eq!(path_components(&b"".to_vec()), tokens(&[]));
    assert_eq!(path_components(&b"///".to_vec()), tokens(&[]));
    assert_eq!(path_components(&b".".to_vec()), tokens(&["."]));
    assert_eq!(path_components(&b"./.".to_vec()), tokens(&["."]));
    assert_eq!(path_components(&b".a/..b".to_vec()), tokens(&[".a", "..b"]));
}

#[test]
fn paths_are_the_same_where_the_standard_library_says_so() {
    let paths = [
        "", ".", "/", "//", "./", "/.", "a", "a/", "./a", "/a", "//a", "a/b", "a//b", "a/./b",
        "a/b/.", "a/b/", "./a/b", "/a/b", "/a/./b", "a/..", "..", "../a", "a/.b", ".a", "a/b/c",
        "./.", "././a", ".//a", "a /b", "A/b",
    ];
    for first in paths {
        for second in paths {
            assert_eq!(
                is_same_path(&first.as_bytes().to_vec(), &second.as_bytes().to_vec()),
                Path::new(first) == Path::new(second),
                "{:?} {:?}",
                first,
                second
            );
        }
    }
}

#[test]
fn a_source_is_taken_listed_or_refused() {
    assert_eq!(source_use(true, false, false), SourceUse::Taken);
    assert_eq!(source_use(false, true, false), SourceUse::Taken);
    assert_eq!(source_use(false, true, true), SourceUse::Taken);
    assert_eq!(source_use(false, false, true), SourceUse::Listed);
    assert_eq!(source_use(false, false, false), SourceUse::Refused);
}
