use moreutils::combine::{
    contains_line, op_and, op_not, op_or, op_xor, parse_args, split_lines, usage, Args, ArgsError, Op,
};

fn tokens(words: &[&str]) -> Vec<Vec<u8>> {
    words.iter().map(|w| w.as_bytes().to_vec()).collect()
}

fn lines(text: &str) -> Vec<Vec<u8>> {
    split_lines(&text.as_bytes().to_vec())
}

fn joined(lines: Vec<Vec<u8>>) -> String {
    String::from_utf8(lines.concat()).unwrap()
}

#[test]
fn three_arguments_are_read() {
    assert_eq!(
        parse_args(&tokens(&["combine", "a.txt", "and", "b.txt"])),
        Ok(Args { file1: b"a.txt".to_vec(), op: Op::And, file2: b"b.txt".to_vec() })
    );
    assert_eq!(parse_args(&tokens(&["combine", "a", "not", "b"])).unwrap().op, Op::Not);
    assert_eq!(parse_args(&tokens(&["combine", "a", "or", "b"])).unwrap().op, Op::Or);
    assert_eq!(parse_args(&tokens(&["combine", "a", "xor", "b"])).unwrap().op, Op::Xor);
}

#[test]
fn underscores_may_frame_the_arguments() {
    assert_eq!(
        parse_args(&tokens(&["_", "a", "xor", "b", "_"])),
        Ok(Args { file1: b"a".to_vec(), op: Op::Xor, file2: b"b".to_vec() })
    );
    assert_eq!(
        parse_args(&tokens(&["combine", "a", "xor", "b", "_"])),
        Err(ArgsError::UnexpectedNumber)
    );
    assert_eq!(
        parse_args(&tokens(&["_", "a", "xor", "b", "c"])),
        Err(ArgsError::UnexpectedNumber)
    );
    assert_eq!(
        parse_args(&tokens(&["_", "a", "and", "b"])),
        Ok(Args { file1: b"a".to_vec(), op: Op::And, file2: b"b".to_vec() })
    );
}

#[test]
fn wrong_number_of_arguments_is_refused() {
    assert_eq!(parse_args(&tokens(&[])), Err(ArgsError::UnexpectedNumber));
    assert_eq!(parse_args(&tokens(&["combine"])), Err(ArgsError::UnexpectedNumber));
    assert_eq!(parse_args(&tokens(&["combine", "a", "and"])), Err(ArgsError::UnexpectedNumber));
    assert_eq!(
        parse_args(&tokens(&["_", "a", "and", "b", "_", "_"])),
        Err(ArgsError::UnexpectedNumber)
    );
    assert_eq!(ArgsError::UnexpectedNumber.message(), "unexpected number of arguments");
}

#[test]
fn unknown_operation_is_refused() {
    assert_eq!(
        parse_args(&tokens(&["combine", "a", "nand", "b"])),
        Err(ArgsError::UnknownOperation)
    );
    assert_eq!(
        parse_args(&tokens(&["combine", "a", "AND", "b"])),
        Err(ArgsError::UnknownOperation)
    );
    assert_eq!(ArgsError::UnknownOperation.message(), "unknown operation, {op_arg:?}");
    assert_eq!(usage(), "Usage: combine file1 OP file2\n");
}

#[test]
fn lines_keep_their_terminators() {
    assert_eq!(lines(""), Vec::<Vec<u8>>::new());
    assert_eq!(lines("a\nb\n"), vec![b"a\n".to_vec(), b"b\n".to_vec()]);
    assert_eq!(lines("a\nb"), vec![b"a\n".to_vec(), b"b".to_vec()]);
    assert_eq!(lines("\n\n"), vec![b"\n".to_vec(), b"\n".to_vec()]);
    assert_eq!(lines("a\r\n"), vec![b"a\r\n".to_vec()]);
    assert_eq!(lines("no newline"), vec![b"no newline".to_vec()]);
}

#[test]
fn lines_put_together_give_the_data() {
    for text in ["", "a", "a\n", "\na", "a\n\nb\nc", "\n\n\n", "x\ny\n"] {
        assert_eq!(joined(lines(text)), text);
    }
}

#[test]
fn and_keeps_the_lines_of_the_second_that_are_in_the_first() {
    assert_eq!(joined(op_and(&lines("a\nb\nc\n"), &lines("c\nx\na\na\n"))), "c\na\na\n");
    assert_eq!(joined(op_and(&lines(""), &lines("a\n"))), "");
    assert_eq!(joined(op_and(&lines("a\n"), &lines(""))), "");
    assert_eq!(joined(op_and(&lines("a"), &lines("a\n"))), "");
    assert_eq!(joined(op_and(&lines("a\nb"), &lines("b\nb"))), "b");
}

#[test]
fn not_keeps_the_lines_of_the_first_that_are_not_in_the_second() {
    assert_eq!(joined(op_not(&lines("a\nb\nc\nb\n"), &lines("c\nx\n"))), "a\nb\nb\n");
    assert_eq!(joined(op_not(&lines("a\nb\n"), &lines(""))), "a\nb\n");
    assert_eq!(joined(op_not(&lines(""), &lines("a\n"))), "");
    assert_eq!(joined(op_not(&lines("a\nb\n"), &lines("b\na\n"))), "");
}

#[test]
fn or_is_the_first_then_the_second() {
    assert_eq!(op_or(&b"a\nb".to_vec(), &b"c\n".to_vec()), b"a\nbc\n".to_vec());
    assert_eq!(op_or(&b"".to_vec(), &b"".to_vec()), b"".to_vec());
    assert_eq!(op_or(&vec![0xff], &vec![0x00]), vec![0xff, 0x00]);
}

#[test]
fn xor_keeps_what_is_in_one_file_only() {
    assert_eq!(joined(op_xor(&lines("a\nb\nc\n"), &lines("c\nd\n"))), "a\nb\nd\n");
    assert_eq!(joined(op_xor(&lines("a\n"), &lines("a\n"))), "");
    assert_eq!(joined(op_xor(&lines(""), &lines("a\nb\n"))), "a\nb\n");
    assert_eq!(joined(op_xor(&lines("a\nb\n"), &lines(""))), "a\nb\n");
    assert_eq!(joined(op_xor(&lines("x\n"), &lines("y\ny\n"))), "x\ny\ny\n");
}

#[test]
fn xor_leaves_a_shared_line_out_once_only() {
    assert_eq!(joined(op_xor(&lines("a\na\n"), &lines("a\n"))), "a\n");
    assert_eq!(joined(op_xor(&lines("a\nb\na\na\n"), &lines("a\nc\n"))), "b\na\na\nc\n");
}

#[test]
fn membership_compares_whole_lines() {
    let all = lines("a\nbc\n");
    assert!(contains_line(&all, &b"a\n".to_vec()));
    assert!(contains_line(&all, &b"bc\n".to_vec()));
    assert!(!contains_line(&all, &b"a".to_vec()));
    assert!(!contains_line(&all, &b"b\n".to_vec()));
    assert!(!contains_line(&vec![], &b"".to_vec()));
}
