//! Combining the lines of two files with a boolean operation.
//!
//! A line is compared with its terminator: a last line without a newline
//! differs from the same line with one.

use crate::ascii::{copy_bytes, same_bytes, texts, NEWLINE};
use crate::common::{line_break, line_end};
use crate::text::{ascii_text, is_text};
use vstd::prelude::*;

verus! {

/// The operation that combines the two files.
#[derive(Clone, Copy, Debug, PartialEq, Eq, Structural)]
pub enum Op {
    /// The lines of the second file that are also in the first.
    And,
    /// The lines of the first file that are not in the second.
    Not,
    /// The first file, then the second.
    Or,
    /// The lines that are in one file and not in the other.
    Xor,
}

/// What a command line asks for.
#[derive(Clone, Debug, PartialEq, Eq)]
pub struct Args {
    pub file1: Vec<u8>,
    pub op: Op,
    pub file2: Vec<u8>,
}

/// The mathematical value of [`Args`].
pub struct ArgsView {
    pub file1: Seq<u8>,
    pub op: Op,
    pub file2: Seq<u8>,
}

impl View for Args {
    type V = ArgsView;

    open spec fn view(&self) -> ArgsView {
        ArgsView { file1: self.file1@, op: self.op, file2: self.file2@ }
    }
}

/// Why a command line was refused.
#[derive(Clone, Copy, Debug, PartialEq, Eq, Structural)]
pub enum ArgsError {
    /// Not `file1 OP file2`, nor that between two `_`.
    UnexpectedNumber,
    /// The operation is none of `and`, `not`, `or`, `xor`.
    UnknownOperation,
}

impl ArgsError {
    /// The sentence that reports the error.
    pub open spec fn message_text(self) -> Seq<char> {
        match self {
            ArgsError::UnexpectedNumber => "unexpected number of arguments"@,
            ArgsError::UnknownOperation => "unknown operation, {op_arg:?}"@,
        }
    }

    /// The sentence that reports the error.
    pub fn message(self) -> (text: &'static str)
        ensures
            text@ == self.message_text(),
    {
        match self {
            ArgsError::UnexpectedNumber => "unexpected number of arguments",
            ArgsError::UnknownOperation => "unknown operation, {op_arg:?}",
        }
    }
}

/// The operation that a word names.
pub open spec fn op_of(word: Seq<char>) -> Option<Op> {
    if word == "and"@ {
        Some(Op::And)
    } else if word == "not"@ {
        Some(Op::Not)
    } else if word == "or"@ {
        Some(Op::Or)
    } else if word == "xor"@ {
        Some(Op::Xor)
    } else {
        None
    }
}

/// What the arguments of the program, with its name first, ask for.
///
/// The program takes `file1 OP file2`; where it is called by the name `_`,
/// a closing `_` may follow.
pub open spec fn parsed(args: Seq<Seq<u8>>) -> Result<ArgsView, ArgsError> {
    if args.len() < 4 || args.len() > 5 {
        Err(ArgsError::UnexpectedNumber)
    } else if args.len() == 5 && (ascii_text(args[0]) != "_"@ || ascii_text(args[4]) != "_"@) {
        Err(ArgsError::UnexpectedNumber)
    } else {
        match op_of(ascii_text(args[2])) {
            Some(op) => Ok(ArgsView { file1: args[1], op, file2: args[3] }),
            None => Err(ArgsError::UnknownOperation),
        }
    }
}

/// Reads the arguments of the program, with its name first.
pub fn parse_args(args: &Vec<Vec<u8>>) -> (result: Result<Args, ArgsError>)
    ensures
        match result {
            Ok(read) => parsed(texts(args@)) == Ok::<ArgsView, ArgsError>(read@),
            Err(error) => parsed(texts(args@)) == Err::<ArgsView, ArgsError>(error),
        },
{
    if args.len() < 4 || args.len() > 5 {
        return Err(ArgsError::UnexpectedNumber);
    }
    if args.len() == 5 && (!is_text(&args[0], "_") || !is_text(&args[4], "_")) {
        return Err(ArgsError::UnexpectedNumber);
    }
    let word = &args[2];
    let op = if is_text(word, "and") {
        Op::And
    } else if is_text(word, "not") {
        Op::Not
    } else if is_text(word, "or") {
        Op::Or
    } else if is_text(word, "xor") {
        Op::Xor
    } else {
        return Err(ArgsError::UnknownOperation);
    };
    proof {
        reveal_strlit("and");
        reveal_strlit("not");
        reveal_strlit("or");
        reveal_strlit("xor");
    }
    Ok(Args { file1: copy_bytes(&args[1]), op, file2: copy_bytes(&args[3]) })
}

/// The lines of `data` from `from` on, each with its terminator. (A line
/// always ends behind its start and inside the data: see `lemma_line_end`.)
pub open spec fn lines_from(data: Seq<u8>, from: int) -> Seq<Seq<u8>>
    decreases data.len() - from,
{
    if from < 0 || from >= data.len() || line_end(data, from) <= from || line_end(data, from)
        > data.len() {
        Seq::empty()
    } else {
        seq![data.subrange(from, line_end(data, from))] + lines_from(data, line_end(data, from))
    }
}

/// The lines of `data`, each with its terminator; the last line may have
/// none.
pub open spec fn lines_of(data: Seq<u8>) -> Seq<Seq<u8>> {
    lines_from(data, 0)
}

/// A line ends behind where it starts, and inside the data.
pub proof fn lemma_line_end(data: Seq<u8>, from: int)
    requires
        0 <= from < data.len(),
    ensures
        from < line_end(data, from) <= data.len(),
{
    lemma_line_break(data, from);
}

/// The break of a line is at or behind its start, and inside the data or at
/// its end.
proof fn lemma_line_break(data: Seq<u8>, from: int)
    requires
        0 <= from <= data.len(),
    ensures
        from <= line_break(data, from) <= data.len(),
    decreases data.len() - from,
{
    if from < data.len() && data[from] != NEWLINE {
        lemma_line_break(data, from + 1);
    }
}

/// Splits `data` into its lines, each with its terminator.
pub fn split_lines(data: &Vec<u8>) -> (lines: Vec<Vec<u8>>)
    ensures
        texts(lines@) == lines_of(data@),
{
    let mut lines: Vec<Vec<u8>> = Vec::new();
    let mut line: Vec<u8> = Vec::new();
    let mut start: usize = 0;
    let mut at: usize = 0;
    while at < data.len()
        invariant
            start <= at <= data.len(),
            line@ == data@.subrange(start as int, at as int),
            line_break(data@, start as int) == line_break(
                data@,
                at as int,
            ),
            texts(lines@) + lines_from(data@, start as int) == lines_of(data@),
        decreases data.len() - at,
    {
        let byte = data[at];
        line.push(byte);
        assert(data@.subrange(start as int, at + 1) =~= data@.subrange(
            start as int,
            at as int,
        ).push(byte));
        at += 1;
        if byte == NEWLINE {
            let ghost before = lines@;
            let ghost whole = line@;
            lines.push(line);
            line = Vec::new();
            proof {
                assert(line_end(data@, start as int) == at);
                lemma_line_end(data@, start as int);
                assert(texts(lines@) =~= texts(before).push(whole));
                assert(texts(lines@) + lines_from(data@, at as int) =~= texts(before) + (seq![whole]
                    + lines_from(data@, at as int)));
            }
            start = at;
        }
    }
    if start < data.len() {
        let ghost before = lines@;
        let ghost whole = line@;
        lines.push(line);
        proof {
            assert(line_end(data@, start as int) == data.len());
            lemma_line_end(data@, start as int);
            assert(texts(lines@) =~= texts(before).push(whole));
            assert(lines_from(data@, data.len() as int) =~= Seq::<Seq<u8>>::empty());
            assert(texts(lines@) =~= texts(before) + lines_from(data@, start as int));
        }
    } else {
        assert(texts(lines@) + lines_from(data@, start as int) =~= texts(lines@));
    }
    lines
}

/// Whether `line` is among `lines`.
pub fn contains_line(lines: &Vec<Vec<u8>>, line: &Vec<u8>) -> (found: bool)
    ensures
        found == texts(lines@).contains(line@),
{
    assert(texts(lines@).take(lines.len() as int) =~= texts(lines@));
    contains_line_before(lines, lines.len(), line)
}

/// Whether `line` is among the first `end` of `lines`.
fn contains_line_before(lines: &Vec<Vec<u8>>, end: usize, line: &Vec<u8>) -> (found: bool)
    requires
        end <= lines.len(),
    ensures
        found == texts(lines@).take(end as int).contains(line@),
{
    let mut i: usize = 0;
    while i < end
        invariant
            i <= end <= lines.len(),
            forall|j: int| 0 <= j < i ==> texts(lines@)[j] != line@,
        decreases end - i,
    {
        if same_bytes(&lines[i], line) {
            assert(texts(lines@).take(end as int)[i as int] == line@);
            return true;
        }
        i += 1;
    }
    assert forall|j: int| 0 <= j < texts(lines@).take(end as int).len() implies texts(lines@).take(
        end as int,
    )[j] != line@ by {
        assert(texts(lines@).take(end as int)[j] == texts(lines@)[j]);
    }
    false
}

/// The lines of `second` that are also in `first`, in the order and as
/// often as they stand in `second`.
pub open spec fn and_of(first: Seq<Seq<u8>>, second: Seq<Seq<u8>>) -> Seq<Seq<u8>> {
    second.filter(|line: Seq<u8>| first.contains(line))
}

/// The lines of `first` that are not in `second`, in the order and as
/// often as they stand in `first`.
pub open spec fn not_of(first: Seq<Seq<u8>>, second: Seq<Seq<u8>>) -> Seq<Seq<u8>> {
    first.filter(|line: Seq<u8>| !second.contains(line))
}

/// Whether the line at `i` of `first` is kept by `xor`: it is not in
/// `second`, or it stood in `first` before.
pub open spec fn xor_keeps(first: Seq<Seq<u8>>, second: Seq<Seq<u8>>, i: int) -> bool {
    !second.contains(first[i]) || first.take(i).contains(first[i])
}

/// The lines among the first `n` of `first` that `xor` keeps.
pub open spec fn xor_kept(first: Seq<Seq<u8>>, second: Seq<Seq<u8>>, n: int) -> Seq<Seq<u8>>
    decreases n,
{
    if n <= 0 {
        Seq::empty()
    } else if xor_keeps(first, second, n - 1) {
        xor_kept(first, second, n - 1).push(first[n - 1])
    } else {
        xor_kept(first, second, n - 1)
    }
}

/// The lines that are in one file and not in the other: the lines of `first`
/// that are not in `second`, then the lines of `second` that are not in
/// `first`. A line of `first` that is in `second` is left out once only: where
/// it stands in `first` again, it is kept.
pub open spec fn xor_of(first: Seq<Seq<u8>>, second: Seq<Seq<u8>>) -> Seq<Seq<u8>> {
    xor_kept(first, second, first.len() as int) + not_of(second, first)
}

/// The lines of `second` that are also in `first`.
pub fn op_and(first: &Vec<Vec<u8>>, second: &Vec<Vec<u8>>) -> (lines: Vec<Vec<u8>>)
    ensures
        texts(lines@) == and_of(texts(first@), texts(second@)),
{
    let ghost pred = |line: Seq<u8>| texts(first@).contains(line);
    let mut lines: Vec<Vec<u8>> = Vec::new();
    let mut i: usize = 0;
    proof {
        reveal(Seq::filter);
        assert(texts(second@).take(0) =~= Seq::<Seq<u8>>::empty());
    }
    while i < second.len()
        invariant
            i <= second.len(),
            pred == |line: Seq<u8>| texts(first@).contains(line),
            texts(lines@) == texts(second@).take(i as int).filter(pred),
        decreases second.len() - i,
    {
        let ghost before = lines@;
        proof {
            reveal(Seq::filter);
            assert(texts(second@).take(i + 1).drop_last() =~= texts(second@).take(i as int));
            assert(texts(second@).take(i + 1).last() == second[i as int]@);
        }
        if contains_line(first, &second[i]) {
            lines.push(copy_bytes(&second[i]));
            assert(texts(lines@) =~= texts(before).push(second[i as int]@));
        }
        i += 1;
    }
    assert(texts(second@).take(i as int) =~= texts(second@));
    lines
}

/// The lines of `first` that are not in `second`.
pub fn op_not(first: &Vec<Vec<u8>>, second: &Vec<Vec<u8>>) -> (lines: Vec<Vec<u8>>)
    ensures
        texts(lines@) == not_of(texts(first@), texts(second@)),
{
    let ghost pred = |line: Seq<u8>| !texts(second@).contains(line);
    let mut lines: Vec<Vec<u8>> = Vec::new();
    let mut i: usize = 0;
    proof {
        reveal(Seq::filter);
        assert(texts(first@).take(0) =~= Seq::<Seq<u8>>::empty());
    }
    while i < first.len()
        invariant
            i <= first.len(),
            pred == |line: Seq<u8>| !texts(second@).contains(line),
            texts(lines@) == texts(first@).take(i as int).filter(pred),
        decreases first.len() - i,
    {
        let ghost before = lines@;
        proof {
            reveal(Seq::filter);
            assert(texts(first@).take(i + 1).drop_last() =~= texts(first@).take(i as int));
            assert(texts(first@).take(i + 1).last() == first[i as int]@);
        }
        if !contains_line(second, &first[i]) {
            lines.push(copy_bytes(&first[i]));
            assert(texts(lines@) =~= texts(before).push(first[i as int]@));
        }
        i += 1;
    }
    assert(texts(first@).take(i as int) =~= texts(first@));
    lines
}

/// The first file, then the second.
pub fn op_or(first: &Vec<u8>, second: &Vec<u8>) -> (bytes: Vec<u8>)
    ensures
        bytes@ == first@ + second@,
{
    let mut bytes = copy_bytes(first);
    let mut i: usize = 0;
    while i < second.len()
        invariant
            i <= second.len(),
            bytes@ == first@ + second@.take(i as int),
        decreases second.len() - i,
    {
        bytes.push(second[i]);
        assert(first@ + second@.take(i + 1) =~= (first@ + second@.take(i as int)).push(
            second[i as int],
        ));
        i += 1;
    }
    assert(second@.take(i as int) =~= second@);
    bytes
}

/// The lines that are in one file and not in the other.
pub fn op_xor(first: &Vec<Vec<u8>>, second: &Vec<Vec<u8>>) -> (lines: Vec<Vec<u8>>)
    ensures
        texts(lines@) == xor_of(texts(first@), texts(second@)),
{
    let mut lines: Vec<Vec<u8>> = Vec::new();
    let mut i: usize = 0;
    while i < first.len()
        invariant
            i <= first.len(),
            texts(lines@) == xor_kept(texts(first@), texts(second@), i as int),
        decreases first.len() - i,
    {
        let ghost before = lines@;
        assert(texts(first@)[i as int] == first[i as int]@);
        if !contains_line(second, &first[i]) || contains_line_before(first, i, &first[i]) {
            lines.push(copy_bytes(&first[i]));
            assert(texts(lines@) =~= texts(before).push(first[i as int]@));
        }
        i += 1;
    }
    let rest = op_not(second, first);
    let ghost head = lines@;
    let mut j: usize = 0;
    while j < rest.len()
        invariant
            j <= rest.len(),
            texts(lines@) == texts(head) + texts(rest@).take(j as int),
        decreases rest.len() - j,
    {
        let ghost before = lines@;
        lines.push(copy_bytes(&rest[j]));
        proof {
            assert(texts(lines@) =~= texts(before).push(rest[j as int]@));
            assert(texts(rest@).take(j + 1) =~= texts(rest@).take(j as int).push(rest[j as int]@));
        }
        j += 1;
    }
    assert(texts(rest@).take(j as int) =~= texts(rest@));
    lines
}

/// The text that explains the command line.
pub open spec fn usage_text() -> Seq<char> {
    "Usage: combine file1 OP file2\n"@
}

/// The usage message.
pub fn usage() -> (text: &'static str)
    ensures
        text@ == usage_text(),
{
    "Usage: combine file1 OP file2\n"
}

} // verus!
