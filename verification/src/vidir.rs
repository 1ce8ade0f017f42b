//! Renaming and deleting files by editing a numbered list of their names.

use crate::ascii::{
    all_digits, copy_bytes, is_digit, same_bytes, texts, DIGIT_0, DOT, NEWLINE, PLUS, SPACE,
};
use crate::text::{
    ascii_text, decimal, decimal_digits, is_text, lemma_decimal_digits, lemma_decimal_len_grows,
    lemma_decimal_round_trip, lemma_zeros_in_front, parse_unsigned, unsigned_digits,
    unsigned_value,
};
use vstd::prelude::*;

verus! {

/// The byte `/`, which parts the components of a path.
pub const SLASH: u8 = 0x2f;

/// The byte `~`, which ends the extension of a temporary name.
pub const TILDE: u8 = 0x7e;

/// The number of random digits in the extension of a temporary name.
pub const SUFFIX_DIGITS: usize = 5;

/// One more than the largest number that the random digits can write.
pub const SUFFIX_BOUND: u32 = 100000;

/// What a command line asks for.
#[derive(Clone, Debug, PartialEq, Eq)]
pub enum Request {
    /// Show the usage.
    Help,
    /// Edit the names that `sources` lead to.
    Run { verbose: bool, sources: Vec<Vec<u8>> },
}

/// The mathematical value of [`Request`].
pub enum RequestView {
    Help,
    Run { verbose: bool, sources: Seq<Seq<u8>> },
}

impl View for Request {
    type V = RequestView;

    open spec fn view(&self) -> RequestView {
        match self {
            Request::Help => RequestView::Help,
            Request::Run { verbose, sources } => RequestView::Run {
                verbose: *verbose,
                sources: texts(sources@),
            },
        }
    }
}

/// What the first `n` arguments have asked for.
pub struct Progress {
    /// `--help` or `-h` was met before any `--`.
    pub help: bool,
    /// `--verbose` was met before any `--`.
    pub verbose: bool,
    /// `--` was met.
    pub literal: bool,
    /// The arguments that name files or directories.
    pub sources: Seq<Seq<u8>>,
}

/// What the first `n` of `args` ask for. Before the first `--`, `--verbose`
/// and the two forms of help are options; every other argument, and every
/// argument behind the first `--`, names a file or a directory.
pub open spec fn progress(args: Seq<Seq<u8>>, n: int) -> Progress
    decreases n,
{
    if n <= 0 {
        Progress { help: false, verbose: false, literal: false, sources: Seq::empty() }
    } else {
        let before = progress(args, n - 1);
        let arg = args[n - 1];
        if before.help {
            before
        } else if before.literal {
            Progress { sources: before.sources.push(arg), ..before }
        } else if ascii_text(arg) == "--"@ {
            Progress { literal: true, ..before }
        } else if ascii_text(arg) == "--verbose"@ {
            Progress { verbose: true, ..before }
        } else if ascii_text(arg) == "--help"@ || ascii_text(arg) == "-h"@ {
            Progress { help: true, ..before }
        } else {
            Progress { sources: before.sources.push(arg), ..before }
        }
    }
}

/// The name of the current directory, which is edited where no source is
/// named.
pub open spec fn current_directory() -> Seq<u8> {
    seq![0x2eu8]
}

/// What the arguments of the program, without its name, ask for.
pub open spec fn parsed(args: Seq<Seq<u8>>) -> RequestView {
    let all = progress(args, args.len() as int);
    if all.help {
        RequestView::Help
    } else if all.sources.len() == 0 {
        RequestView::Run { verbose: all.verbose, sources: seq![current_directory()] }
    } else {
        RequestView::Run { verbose: all.verbose, sources: all.sources }
    }
}

/// Once help is asked for, nothing behind it matters.
proof fn lemma_help_stays(args: Seq<Seq<u8>>, n: int, m: int)
    requires
        0 <= n <= m,
        progress(args, n).help,
    ensures
        progress(args, m) == progress(args, n),
    decreases m - n,
{
    if n < m {
        lemma_help_stays(args, n, m - 1);
    }
}

/// Reads the arguments of the program, without its name.
pub fn parse_args(args: &Vec<Vec<u8>>) -> (result: Request)
    ensures
        result@ == parsed(texts(args@)),
{
    let ghost all = texts(args@);
    let mut verbose = false;
    let mut literal = false;
    let mut sources: Vec<Vec<u8>> = Vec::new();
    let mut i: usize = 0;
    assert(texts(sources@) =~= Seq::<Seq<u8>>::empty());
    while i < args.len()
        invariant
            i <= args.len(),
            all == texts(args@),
            progress(all, i as int) == (Progress {
                help: false,
                verbose,
                literal,
                sources: texts(sources@),
            }),
        decreases args.len() - i,
    {
        let arg = &args[i];
        let ghost before = sources@;
        assert(all[i as int] == arg@);
        if literal {
            sources.push(copy_bytes(arg));
            assert(texts(sources@) =~= texts(before).push(arg@));
        } else if is_text(arg, "--") {
            literal = true;
        } else if is_text(arg, "--verbose") {
            verbose = true;
        } else if is_text(arg, "--help") || is_text(arg, "-h") {
            proof {
                lemma_help_stays(all, i + 1, all.len() as int);
            }
            return Request::Help;
        } else {
            sources.push(copy_bytes(arg));
            assert(texts(sources@) =~= texts(before).push(arg@));
        }
        i += 1;
    }
    if sources.len() == 0 {
        let dot: Vec<u8> = vec![0x2eu8];
        assert(dot@ =~= current_directory());
        sources.push(dot);
        assert(texts(sources@) =~= seq![current_directory()]);
    }
    Request::Run { verbose, sources }
}

/// What is done with a source that is named on the command line.
#[derive(Clone, Copy, Debug, PartialEq, Eq, Structural)]
pub enum SourceUse {
    /// Its name is taken into the list.
    Taken,
    /// It is a directory: the files in it are taken into the list.
    Listed,
    /// It cannot be read: the program ends.
    Refused,
}

/// What is done with a source: a file or a symbolic link is taken, a
/// directory is listed, and anything else is refused.
pub open spec fn source_use_of(is_file: bool, is_symlink: bool, is_dir: bool) -> SourceUse {
    if is_file || is_symlink {
        SourceUse::Taken
    } else if is_dir {
        SourceUse::Listed
    } else {
        SourceUse::Refused
    }
}

/// Decides what is done with a source, from what the file system says of
/// it.
pub fn source_use(is_file: bool, is_symlink: bool, is_dir: bool) -> (kind: SourceUse)
    ensures
        kind == source_use_of(is_file, is_symlink, is_dir),
{
    if is_file || is_symlink {
        SourceUse::Taken
    } else if is_dir {
        SourceUse::Listed
    } else {
        SourceUse::Refused
    }
}

/// The pieces of a path between its slashes, the empty ones too.
pub open spec fn pieces(path: Seq<u8>) -> Seq<Seq<u8>>
    decreases path.len(),
{
    if path.len() == 0 {
        seq![Seq::<u8>::empty()]
    } else if path.last() == SLASH {
        pieces(path.drop_last()).push(Seq::<u8>::empty())
    } else {
        let before = pieces(path.drop_last());
        before.drop_last().push(before.last().push(path.last()))
    }
}

/// Whether the piece at the place `index` of a path is a component of it:
/// an empty piece is none, and `.` is one only where it leads the path.
pub open spec fn counts(piece: Seq<u8>, index: int) -> bool {
    piece.len() > 0 && !(index > 0 && piece == seq![DOT])
}

/// The components among the first `n` pieces of a path.
pub open spec fn kept(pieces: Seq<Seq<u8>>, n: int) -> Seq<Seq<u8>>
    decreases n,
{
    if n <= 0 {
        Seq::empty()
    } else if counts(pieces[n - 1], n - 1) {
        kept(pieces, n - 1).push(pieces[n - 1])
    } else {
        kept(pieces, n - 1)
    }
}

/// The components of a path: its pieces without the empty ones and
/// without each `.` that does not lead it.
pub open spec fn components(path: Seq<u8>) -> Seq<Seq<u8>> {
    kept(pieces(path), pieces(path).len() as int)
}

/// Whether a path starts at the root.
pub open spec fn rooted(path: Seq<u8>) -> bool {
    path.len() > 0 && path[0] == SLASH
}

/// Whether two paths are the same path: both or neither start at the root,
/// and their components are the same. So `a//b`, `a/./b` and `a/b/` are the
/// same path as `a/b`.
pub open spec fn same_path(first: Seq<u8>, second: Seq<u8>) -> bool {
    rooted(first) == rooted(second) && components(first) == components(second)
}

/// Whether `path` is among `files`, as a path.
pub open spec fn holds_path(files: Seq<Seq<u8>>, path: Seq<u8>) -> bool {
    exists|i: int| 0 <= i < files.len() && same_path(#[trigger] files[i], path)
}

/// Whether no path is twice among `files`.
pub open spec fn distinct_paths(files: Seq<Seq<u8>>) -> bool {
    forall|i: int, j: int|
        0 <= i < j < files.len() ==> !same_path(#[trigger] files[i], #[trigger] files[j])
}

/// The components among the first pieces depend on those pieces alone.
proof fn lemma_kept_agrees(first: Seq<Seq<u8>>, second: Seq<Seq<u8>>, n: int)
    requires
        0 <= n <= first.len(),
        n <= second.len(),
        forall|i: int| 0 <= i < n ==> first[i] == second[i],
    ensures
        kept(first, n) == kept(second, n),
    decreases n,
{
    if n > 0 {
        lemma_kept_agrees(first, second, n - 1);
    }
}

/// A path has at least one piece.
proof fn lemma_pieces_len(path: Seq<u8>)
    ensures
        pieces(path).len() >= 1,
    decreases path.len(),
{
    if path.len() > 0 {
        lemma_pieces_len(path.drop_last());
    }
}

/// Whether a piece is a component.
fn is_component(piece: &Vec<u8>, index: usize) -> (component: bool)
    ensures
        component == counts(piece@, index as int),
{
    if piece.len() == 0 {
        false
    } else if index > 0 && piece.len() == 1 && piece[0] == DOT {
        assert(piece@ =~= seq![DOT]);
        false
    } else {
        proof {
            if piece@ == seq![DOT] {
                assert(seq![DOT].len() == 1);
                assert(seq![DOT][0] == DOT);
            }
        }
        true
    }
}

/// The components of a path.
pub fn path_components(path: &Vec<u8>) -> (parts: Vec<Vec<u8>>)
    ensures
        texts(parts@) == components(path@),
{
    let mut parts: Vec<Vec<u8>> = Vec::new();
    let mut current: Vec<u8> = Vec::new();
    let mut index: usize = 0;
    let mut i: usize = 0;
    assert(path@.take(0) =~= Seq::<u8>::empty());
    assert(texts(parts@) =~= Seq::<Seq<u8>>::empty());
    while i < path.len()
        invariant
            i <= path.len(),
            index <= i,
            pieces(path@.take(i as int)).len() == index + 1,
            current@ == pieces(path@.take(i as int)).last(),
            texts(parts@) == kept(pieces(path@.take(i as int)), index as int),
        decreases path.len() - i,
    {
        let byte = path[i];
        let ghost before = pieces(path@.take(i as int));
        let ghost held = parts@;
        proof {
            assert(path@.take(i + 1).drop_last() =~= path@.take(i as int));
            assert(path@.take(i + 1).last() == byte);
        }
        if byte == SLASH {
            let ghost after = before.push(Seq::<u8>::empty());
            proof {
                assert(pieces(path@.take(i + 1)) == after);
                lemma_kept_agrees(before, after, index as int);
                assert(after[index as int] == current@);
            }
            if is_component(&current, index) {
                parts.push(current);
                assert(texts(parts@) =~= texts(held).push(after[index as int]));
            }
            current = Vec::new();
            index += 1;
            assert(current@ =~= after.last());
        } else {
            let ghost after = before.drop_last().push(before.last().push(byte));
            proof {
                assert(pieces(path@.take(i + 1)) == after);
                lemma_kept_agrees(before, after, index as int);
            }
            current.push(byte);
            assert(current@ =~= after.last());
        }
        i += 1;
    }
    proof {
        assert(path@.take(i as int) =~= path@);
    }
    let ghost held = parts@;
    if is_component(&current, index) {
        parts.push(current);
        assert(texts(parts@) =~= texts(held).push(pieces(path@)[index as int]));
    }
    parts
}

/// Whether two lists of texts are the same.
fn same_texts(first: &Vec<Vec<u8>>, second: &Vec<Vec<u8>>) -> (same: bool)
    ensures
        same == (texts(first@) == texts(second@)),
{
    if first.len() != second.len() {
        return false;
    }
    let mut i: usize = 0;
    while i < first.len()
        invariant
            i <= first.len() == second.len(),
            forall|j: int| 0 <= j < i ==> texts(first@)[j] == texts(second@)[j],
        decreases first.len() - i,
    {
        if !same_bytes(&first[i], &second[i]) {
            assert(texts(first@)[i as int] != texts(second@)[i as int]);
            return false;
        }
        i += 1;
    }
    assert(texts(first@) =~= texts(second@));
    true
}

/// Whether two paths are the same path.
pub fn is_same_path(first: &Vec<u8>, second: &Vec<u8>) -> (same: bool)
    ensures
        same == same_path(first@, second@),
{
    let first_rooted = first.len() > 0 && first[0] == SLASH;
    let second_rooted = second.len() > 0 && second[0] == SLASH;
    if first_rooted != second_rooted {
        return false;
    }
    same_texts(&path_components(first), &path_components(second))
}

/// Adds `path` to `files` unless it is among them already, written this way
/// or another; says whether it was added. A list that holds no path twice
/// stays one.
pub fn push_unique(files: &mut Vec<Vec<u8>>, path: &Vec<u8>) -> (added: bool)
    ensures
        added == !holds_path(texts(old(files)@), path@),
        texts(final(files)@) == if added {
            texts(old(files)@).push(path@)
        } else {
            texts(old(files)@)
        },
        distinct_paths(texts(old(files)@)) ==> distinct_paths(texts(final(files)@)),
{
    let ghost before = files@;
    let mut i: usize = 0;
    while i < files.len()
        invariant
            i <= files.len(),
            files@ == before,
            forall|j: int| 0 <= j < i ==> !same_path(#[trigger] texts(before)[j], path@),
        decreases files.len() - i,
    {
        if is_same_path(&files[i], path) {
            assert(same_path(texts(before)[i as int], path@));
            return false;
        }
        i += 1;
    }
    files.push(copy_bytes(path));
    assert(texts(files@) =~= texts(before).push(path@));
    true
}

/// The number of digits that every number of a list of `count` names is
/// written with: as many as `count` itself has.
pub open spec fn number_width(count: nat) -> nat {
    decimal_digits(count).len()
}

/// `n` in decimal, with zeros in front up to `width` digits.
pub open spec fn padded(n: nat, width: nat) -> Seq<u8> {
    let digits = decimal_digits(n);
    if digits.len() >= width {
        digits
    } else {
        Seq::new((width - digits.len()) as nat, |i: int| DIGIT_0) + digits
    }
}

/// The line of the list for the name at `i`: the number, a space, the name
/// and a newline.
pub open spec fn listed(files: Seq<Seq<u8>>, i: int) -> Seq<u8> {
    padded(i as nat, number_width(files.len())) + seq![SPACE] + files[i] + seq![NEWLINE]
}

/// The first `n` lines of the list.
pub open spec fn listing_of(files: Seq<Seq<u8>>, n: int) -> Seq<u8>
    decreases n,
{
    if n <= 0 {
        Seq::empty()
    } else {
        listing_of(files, n - 1) + listed(files, n - 1)
    }
}

/// Writes `n` in decimal, with zeros in front up to `width` digits.
pub fn pad(n: usize, width: usize) -> (text: Vec<u8>)
    ensures
        text@ == padded(n as nat, width as nat),
{
    let digits = decimal(n as u64);
    let mut text: Vec<u8> = Vec::new();
    if digits.len() < width {
        let zeros = width - digits.len();
        let mut i: usize = 0;
        while i < zeros
            invariant
                i <= zeros,
                text@ == Seq::new(i as nat, |j: int| DIGIT_0),
            decreases zeros - i,
        {
            text.push(DIGIT_0);
            assert(text@ =~= Seq::new((i + 1) as nat, |j: int| DIGIT_0));
            i += 1;
        }
    }
    let ghost zeros = text@;
    let mut k: usize = 0;
    while k < digits.len()
        invariant
            k <= digits.len(),
            text@ == zeros + digits@.take(k as int),
        decreases digits.len() - k,
    {
        text.push(digits[k]);
        assert(zeros + digits@.take(k + 1) =~= (zeros + digits@.take(k as int)).push(
            digits[k as int],
        ));
        k += 1;
    }
    assert(digits@.take(k as int) =~= digits@);
    assert(zeros + digits@ =~= padded(n as nat, width as nat));
    text
}

/// The numbered list of `files`, as it is handed to the editor.
pub fn listing(files: &Vec<Vec<u8>>) -> (text: Vec<u8>)
    ensures
        text@ == listing_of(texts(files@), files.len() as int),
{
    let width = decimal(files.len() as u64).len();
    let mut text: Vec<u8> = Vec::new();
    let mut i: usize = 0;
    while i < files.len()
        invariant
            i <= files.len(),
            width == number_width(files.len() as nat),
            text@ == listing_of(texts(files@), i as int),
        decreases files.len() - i,
    {
        let ghost before = text@;
        let number = pad(i, width);
        let mut k: usize = 0;
        while k < number.len()
            invariant
                k <= number.len(),
                text@ == before + number@.take(k as int),
            decreases number.len() - k,
        {
            text.push(number[k]);
            assert(before + number@.take(k + 1) =~= (before + number@.take(k as int)).push(
                number[k as int],
            ));
            k += 1;
        }
        text.push(SPACE);
        let ghost with_number = text@;
        let name = &files[i];
        let mut j: usize = 0;
        while j < name.len()
            invariant
                j <= name.len(),
                text@ == with_number + name@.take(j as int),
            decreases name.len() - j,
        {
            text.push(name[j]);
            assert(with_number + name@.take(j + 1) =~= (with_number + name@.take(j as int)).push(
                name[j as int],
            ));
            j += 1;
        }
        text.push(NEWLINE);
        proof {
            assert(number@.take(k as int) =~= number@);
            assert(name@.take(j as int) =~= name@);
            assert(texts(files@)[i as int] == name@);
            assert(text@ =~= before + listed(texts(files@), i as int));
        }
        i += 1;
    }
    text
}

/// Why a line of the edited list could not be read.
#[derive(Clone, Copy, Debug, PartialEq, Eq, Structural)]
pub enum ListingFault {
    /// The line ends before a name could start.
    ShortLine,
    /// The line does not start with a number.
    BadNumber,
    /// No name has the number of the line.
    NoSuchEntry,
}

/// A fault of the edited list and the line it is in, counted from 0.
#[derive(Clone, Copy, Debug, PartialEq, Eq, Structural)]
pub struct ListingError {
    pub line: usize,
    pub fault: ListingFault,
}

/// The digits of the number field without the zeros in front; a field of
/// nothing but zeros is left as it is.
pub open spec fn without_leading_zeros(field: Seq<u8>) -> Seq<u8> {
    field.skip(first_nonzero(field, 0))
}

/// The index of the first byte of `field` at or behind `from` that is not a
/// zero digit; 0 if there is none.
pub open spec fn first_nonzero(field: Seq<u8>, from: int) -> int
    decreases field.len() - from,
{
    if from < 0 || from >= field.len() {
        0
    } else if field[from] != DIGIT_0 {
        from
    } else {
        first_nonzero(field, from + 1)
    }
}

/// What one line of the edited list says: the number of a name and the new
/// name.
///
/// The number is read from the first `width` bytes. Behind it, a line that
/// ends in a newline gives one separating byte and the new name; a last line
/// without a newline gives the new name with no separator taken off.
pub open spec fn entry_of(line: Seq<u8>, width: nat, count: nat) -> Result<
    (int, Seq<u8>),
    ListingFault,
> {
    if line.len() <= width || (line.last() == NEWLINE && line.len() < width + 2) {
        Err(ListingFault::ShortLine)
    } else {
        let rest = line.skip(width as int);
        let target = if rest.last() == NEWLINE {
            rest.subrange(1, rest.len() - 1)
        } else {
            rest
        };
        match unsigned_value(without_leading_zeros(line.take(width as int))) {
            None => Err(ListingFault::BadNumber),
            Some(number) => if number >= count {
                Err(ListingFault::NoSuchEntry)
            } else {
                Ok((number as int, target))
            },
        }
    }
}

/// The new names after the first `n` lines of the edited list are read: one
/// place for each old name, `None` where no line has named it, and the name
/// of the last line that has where several did.
pub open spec fn targets_after(lines: Seq<Seq<u8>>, width: nat, count: nat, n: int) -> Result<
    Seq<Option<Seq<u8>>>,
    ListingError,
>
    decreases n,
{
    if n <= 0 {
        Ok(Seq::new(count, |i: int| None::<Seq<u8>>))
    } else {
        match targets_after(lines, width, count, n - 1) {
            Err(error) => Err(error),
            Ok(targets) => match entry_of(lines[n - 1], width, count) {
                Err(fault) => Err(ListingError { line: (n - 1) as usize, fault }),
                Ok((number, target)) => Ok(targets.update(number, Some(target))),
            },
        }
    }
}

/// The new names that a list of lines gives, as mathematical values.
pub open spec fn target_views(targets: Seq<Option<Vec<u8>>>) -> Seq<Option<Seq<u8>>> {
    targets.map_values(
        |target: Option<Vec<u8>>|
            match target {
                Some(name) => Some(name@),
                None => None,
            },
    )
}

/// The place of the first byte that is no zero, where only zeros stand
/// before it.
proof fn lemma_first_nonzero(field: Seq<u8>, from: int, at: int)
    requires
        0 <= from <= at < field.len(),
        forall|j: int| from <= j < at ==> field[j] == DIGIT_0,
        field[at] != DIGIT_0,
    ensures
        first_nonzero(field, from) == at,
    decreases at - from,
{
    if from < at {
        lemma_first_nonzero(field, from + 1, at);
    }
}

/// Where nothing but zeros stands, the place is 0.
proof fn lemma_first_nonzero_of_zeros(field: Seq<u8>, from: int)
    requires
        0 <= from <= field.len(),
        forall|j: int| from <= j < field.len() ==> field[j] == DIGIT_0,
    ensures
        first_nonzero(field, from) == 0,
    decreases field.len() - from,
{
    if from < field.len() {
        lemma_first_nonzero_of_zeros(field, from + 1);
    }
}

/// The number in front of a line of the list reads back as the number it
/// was written from.
proof fn lemma_padded_reads_back(i: nat, count: nat)
    requires
        i < count <= usize::MAX,
    ensures
        padded(i, number_width(count)).len() == number_width(count),
        unsigned_value(without_leading_zeros(padded(i, number_width(count)))) == Some(i as usize),
{
    let width = number_width(count);
    let digits = decimal_digits(i);
    let field = padded(i, width);
    lemma_decimal_digits(i);
    lemma_decimal_len_grows(i, count);
    lemma_decimal_round_trip(i);
    let zeros = (width - digits.len()) as nat;
    let front = Seq::new(zeros, |k: int| DIGIT_0);
    assert(field =~= front + digits);
    let read = without_leading_zeros(field);
    if i == 0 {
        assert forall|j: int| 0 <= j < field.len() implies field[j] == DIGIT_0 by {
            if j >= zeros {
                assert(field[j] == digits[j - zeros]);
            }
        }
        lemma_first_nonzero_of_zeros(field, 0);
        assert(read =~= field);
        lemma_zeros_in_front(zeros, digits);
    } else {
        assert(field[zeros as int] == digits[0]);
        lemma_first_nonzero(field, 0, zeros as int);
        assert(read =~= digits);
    }
    assert(all_digits(read)) by {
        assert forall|j: int| 0 <= j < read.len() implies is_digit(
            #[trigger] read[j],
        ) by {
            if i == 0 {
                assert(read[j] == DIGIT_0);
            }
        }
    }
    assert(read.len() > 0);
    assert(read[0] != PLUS);
    assert(unsigned_digits(read) == Some(read));
}

/// The list reads back as no change: every line of the list, as it is
/// handed to the editor, names the file it was written for and gives it the
/// name it has.
pub proof fn lemma_listed_reads_back(files: Seq<Seq<u8>>, i: int)
    requires
        0 <= i < files.len() <= usize::MAX,
    ensures
        entry_of(listed(files, i), number_width(files.len()), files.len()) == Ok::<
            (int, Seq<u8>),
            ListingFault,
        >((i, files[i])),
{
    let count = files.len();
    let width = number_width(count);
    let number = padded(i as nat, width);
    let line = listed(files, i);
    lemma_padded_reads_back(i as nat, count);
    assert(line.len() == width + files[i].len() + 2);
    assert(line.last() == NEWLINE);
    assert(line.take(width as int) =~= number);
    let rest = line.skip(width as int);
    assert(rest =~= seq![SPACE] + files[i] + seq![NEWLINE]);
    assert(rest.subrange(1, rest.len() - 1) =~= files[i]);
}

/// Reads one line of the edited list.
pub fn read_entry(line: &Vec<u8>, width: usize, count: usize) -> (result: Result<
    (usize, Vec<u8>),
    ListingFault,
>)
    ensures
        match result {
            Ok((number, target)) => entry_of(line@, width as nat, count as nat) == Ok::<
                (int, Seq<u8>),
                ListingFault,
            >((number as int, target@)) && number < count,
            Err(fault) => entry_of(line@, width as nat, count as nat) == Err::<
                (int, Seq<u8>),
                ListingFault,
            >(fault),
        },
{
    let len = line.len();
    if len <= width || (line[len - 1] == NEWLINE && len - width < 2) {
        return Err(ListingFault::ShortLine);
    }
    let ghost field = line@.take(width as int);
    let ghost rest = line@.skip(width as int);
    let mut start: usize = 0;
    while start < width && line[start] == DIGIT_0
        invariant
            start <= width < len == line.len(),
            field == line@.take(width as int),
            first_nonzero(field, 0) == first_nonzero(field, start as int),
        decreases width - start,
    {
        assert(field[start as int] == line[start as int]);
        start += 1;
    }
    if start == width {
        start = 0;
    } else {
        assert(field[start as int] == line[start as int]);
    }
    let mut digits: Vec<u8> = Vec::new();
    let mut i: usize = start;
    while i < width
        invariant
            start <= i <= width < len == line.len(),
            digits@ == line@.subrange(start as int, i as int),
        decreases width - i,
    {
        digits.push(line[i]);
        assert(line@.subrange(start as int, i + 1) =~= line@.subrange(start as int, i as int).push(
            line[i as int],
        ));
        i += 1;
    }
    assert(digits@ =~= without_leading_zeros(field));
    let number = match parse_unsigned(&digits) {
        Some(number) => number,
        None => {
            return Err(ListingFault::BadNumber);
        },
    };
    if number >= count {
        return Err(ListingFault::NoSuchEntry);
    }
    let (from, to) = if line[len - 1] == NEWLINE {
        (width + 1, len - 1)
    } else {
        (width, len)
    };
    assert(rest.last() == line[len - 1]);
    let mut target: Vec<u8> = Vec::new();
    let mut k: usize = from;
    while k < to
        invariant
            from <= k <= to <= len == line.len(),
            target@ == line@.subrange(from as int, k as int),
        decreases to - k,
    {
        target.push(line[k]);
        assert(line@.subrange(from as int, k + 1) =~= line@.subrange(from as int, k as int).push(
            line[k as int],
        ));
        k += 1;
    }
    proof {
        if line[len - 1] == NEWLINE {
            assert(target@ =~= rest.subrange(1, rest.len() - 1));
        } else {
            assert(target@ =~= rest);
        }
    }
    Ok((number, target))
}

/// Reads the edited list: `lines` are its lines with their terminators, and
/// `count` is the number of names that were listed.
pub fn read_listing(lines: &Vec<Vec<u8>>, count: usize) -> (result: Result<
    Vec<Option<Vec<u8>>>,
    ListingError,
>)
    ensures
        match result {
            Ok(targets) => targets_after(
                texts(lines@),
                number_width(count as nat),
                count as nat,
                lines.len() as int,
            ) == Ok::<Seq<Option<Seq<u8>>>, ListingError>(target_views(targets@)) && targets.len()
                == count,
            Err(error) => targets_after(
                texts(lines@),
                number_width(count as nat),
                count as nat,
                lines.len() as int,
            ) == Err::<Seq<Option<Seq<u8>>>, ListingError>(error),
        },
{
    let width = decimal(count as u64).len();
    let mut targets: Vec<Option<Vec<u8>>> = Vec::new();
    let mut c: usize = 0;
    while c < count
        invariant
            c <= count,
            targets@.len() == c,
            forall|i: int| 0 <= i < c ==> targets@[i] is None,
        decreases count - c,
    {
        targets.push(None);
        c += 1;
    }
    assert(target_views(targets@) =~= Seq::new(count as nat, |i: int| None::<Seq<u8>>));
    let mut n: usize = 0;
    while n < lines.len()
        invariant
            n <= lines.len(),
            width == number_width(count as nat),
            targets@.len() == count,
            targets_after(texts(lines@), width as nat, count as nat, n as int) == Ok::<
                Seq<Option<Seq<u8>>>,
                ListingError,
            >(target_views(targets@)),
        decreases lines.len() - n,
    {
        assert(texts(lines@)[n as int] == lines[n as int]@);
        match read_entry(&lines[n], width, count) {
            Err(fault) => {
                let error = ListingError { line: n, fault };
                proof {
                    lemma_error_stays(
                        texts(lines@),
                        width as nat,
                        count as nat,
                        n + 1,
                        lines.len() as int,
                    );
                }
                return Err(error);
            },
            Ok((number, target)) => {
                let ghost before = targets@;
                let ghost name = target@;
                targets.set(number, Some(target));
                assert(target_views(targets@) =~= target_views(before).update(
                    number as int,
                    Some(name),
                ));
            },
        }
        n += 1;
    }
    Ok(targets)
}

/// The first fault ends the reading: lines behind it change nothing.
proof fn lemma_error_stays(lines: Seq<Seq<u8>>, width: nat, count: nat, n: int, m: int)
    requires
        0 <= n <= m,
        targets_after(lines, width, count, n) is Err,
    ensures
        targets_after(lines, width, count, m) == targets_after(lines, width, count, n),
    decreases m - n,
{
    if n < m {
        lemma_error_stays(lines, width, count, n, m - 1);
    }
}

/// The generator of random numbers of the `rand` crate that belongs to the
/// current thread. Nothing is known of what it holds.
#[verifier::external_type_specification]
#[verifier::external_body]
pub struct ExThreadRng(rand::rngs::ThreadRng);

/// A handle to the random number generator of the current thread.
///
/// Trusted: this is `rand::thread_rng`, of which nothing is claimed. It
/// fails only where the system cannot seed the generator.
#[verifier::external_body]
fn thread_generator() -> rand::rngs::ThreadRng {
    rand::thread_rng()
}

/// A random number below `bound`.
///
/// Trusted: this is `rand::Rng::gen_range` on the range from 0 up to and
/// without `bound`, which returns a value of the range it is given and
/// refuses an empty range. Which value it returns is left open.
#[verifier::external_body]
fn random_below(generator: &mut rand::rngs::ThreadRng, bound: u32) -> (value: u32)
    requires
        bound > 0,
    ensures
        value < bound,
{
    rand::Rng::gen_range(generator, 0..bound)
}

/// The extension of the temporary name with the number `suffix`: the number
/// in five digits and a tilde.
pub open spec fn extension_of(suffix: nat) -> Seq<u8> {
    padded(suffix, SUFFIX_DIGITS as nat) + seq![TILDE]
}

/// Whether `extension` is the extension of a temporary name.
pub open spec fn is_temporary_extension(extension: Seq<u8>) -> bool {
    exists|suffix: nat| suffix < SUFFIX_BOUND && extension == #[trigger] extension_of(suffix)
}

/// The extension of the temporary name with the number `suffix`.
pub fn temporary_extension(suffix: u32) -> (extension: Vec<u8>)
    ensures
        extension@ == extension_of(suffix as nat),
{
    let mut extension = pad(suffix as usize, SUFFIX_DIGITS);
    extension.push(TILDE);
    extension
}

/// A source of extensions for temporary names.
pub struct TemporaryNames {
    generator: rand::rngs::ThreadRng,
}

impl TemporaryNames {
    /// A source that draws on the random numbers of the current thread.
    pub fn new() -> TemporaryNames {
        TemporaryNames { generator: thread_generator() }
    }

    /// The extension of one more temporary name, chosen at random. The
    /// caller tries another one where a file of that name exists.
    pub fn next_extension(&mut self) -> (extension: Vec<u8>)
        ensures
            is_temporary_extension(extension@),
    {
        let suffix = random_below(&mut self.generator, SUFFIX_BOUND);
        let extension = temporary_extension(suffix);
        assert(extension@ == extension_of(suffix as nat));
        extension
    }
}

/// The two names that a file passes through on its way to a new name.
#[derive(Clone, Debug, PartialEq, Eq)]
pub struct Rename {
    pub temp_name: Vec<u8>,
    pub target_name: Vec<u8>,
}

/// One change to the file system.
#[derive(Clone, Debug, PartialEq, Eq)]
pub enum Step {
    Rename { from: Vec<u8>, to: Vec<u8> },
    Delete { path: Vec<u8> },
}

/// The mathematical value of a [`Step`].
pub enum StepView {
    Rename { from: Seq<u8>, to: Seq<u8> },
    Delete { path: Seq<u8> },
}

impl View for Step {
    type V = StepView;

    open spec fn view(&self) -> StepView {
        match self {
            Step::Rename { from, to } => StepView::Rename { from: from@, to: to@ },
            Step::Delete { path } => StepView::Delete { path: path@ },
        }
    }
}

/// The steps that a list of steps holds, as mathematical values.
pub open spec fn step_views(steps: Seq<Step>) -> Seq<StepView> {
    steps.map_values(|step: Step| step@)
}

/// What happens first to the file at `i`: it moves to its temporary name,
/// or is deleted where the list no longer names it.
pub open spec fn first_step(files: Seq<Vec<u8>>, renames: Seq<Option<Rename>>, i: int) -> StepView {
    match renames[i] {
        Some(rename) => StepView::Rename { from: files[i]@, to: rename.temp_name@ },
        None => StepView::Delete { path: files[i]@ },
    }
}

/// The moves from the temporary names to the new names, for the first `n`
/// files.
pub open spec fn second_steps(renames: Seq<Option<Rename>>, n: int) -> Seq<StepView>
    decreases n,
{
    if n <= 0 {
        Seq::empty()
    } else {
        match renames[n - 1] {
            Some(rename) => second_steps(renames, n - 1).push(
                StepView::Rename { from: rename.temp_name@, to: rename.target_name@ },
            ),
            None => second_steps(renames, n - 1),
        }
    }
}

/// All steps in order: every file leaves its old name before any file
/// takes a new one, so that names can be swapped.
pub open spec fn steps_of(files: Seq<Vec<u8>>, renames: Seq<Option<Rename>>) -> Seq<StepView> {
    Seq::new(files.len(), |i: int| first_step(files, renames, i)) + second_steps(
        renames,
        renames.len() as int,
    )
}

/// Lists the changes to the file system that the edited list asks for.
pub fn steps(files: &Vec<Vec<u8>>, renames: &Vec<Option<Rename>>) -> (steps: Vec<Step>)
    requires
        files.len() == renames.len(),
    ensures
        step_views(steps@) == steps_of(files@, renames@),
{
    let mut steps: Vec<Step> = Vec::new();
    let mut i: usize = 0;
    while i < files.len()
        invariant
            i <= files.len() == renames.len(),
            step_views(steps@) == Seq::new(i as nat, |k: int| first_step(files@, renames@, k)),
        decreases files.len() - i,
    {
        let ghost before = steps@;
        let step = match &renames[i] {
            Some(rename) => Step::Rename {
                from: copy_bytes(&files[i]),
                to: copy_bytes(&rename.temp_name),
            },
            None => Step::Delete { path: copy_bytes(&files[i]) },
        };
        assert(step@ == first_step(files@, renames@, i as int));
        let ghost pushed = step@;
        steps.push(step);
        assert(step_views(steps@) =~= step_views(before).push(pushed));
        assert(step_views(steps@) =~= Seq::new(
            (i + 1) as nat,
            |k: int| first_step(files@, renames@, k),
        ));
        i += 1;
    }
    let ghost first = step_views(steps@);
    let mut j: usize = 0;
    assert(step_views(steps@) =~= first + second_steps(renames@, 0));
    while j < renames.len()
        invariant
            j <= renames.len(),
            step_views(steps@) == first + second_steps(renames@, j as int),
        decreases renames.len() - j,
    {
        let ghost before = steps@;
        match &renames[j] {
            Some(rename) => {
                let step = Step::Rename {
                    from: copy_bytes(&rename.temp_name),
                    to: copy_bytes(&rename.target_name),
                };
                steps.push(step);
                assert(step_views(steps@) =~= step_views(before).push(step@));
                assert(step_views(steps@) =~= first + second_steps(renames@, j + 1));
            },
            None => {},
        }
        j += 1;
    }
    steps
}

/// The text that explains the command line.
pub open spec fn usage_text() -> Seq<char> {
    "Usage: vidir [--verbose] [DIRECTORY|FILE|-]...\n"@
}

/// The usage message.
pub fn usage() -> (text: &'static str)
    ensures
        text@ == usage_text(),
{
    "Usage: vidir [--verbose] [DIRECTORY|FILE|-]...\n"
}

} // verus!
