//! Running a command on files that are decompressed first.

use crate::ascii::{copy_bytes, texts, LETTER_Z};
use crate::text::{ascii_text, is_text};
use vstd::prelude::*;

verus! {

/// A kind of compressed file.
#[derive(Clone, Copy, Debug, PartialEq, Eq, Structural)]
pub enum Archive {
    Gzip,
    Bzip2,
    Xz,
    Lzma,
    Lzop,
    Zstd,
}

/// The kind of compressed file that an extension stands for.
pub open spec fn archive_of(extension: Seq<char>) -> Option<Archive> {
    if extension == "gz"@ || extension == "Z"@ {
        Some(Archive::Gzip)
    } else if extension == "bz2"@ {
        Some(Archive::Bzip2)
    } else if extension == "xz"@ {
        Some(Archive::Xz)
    } else if extension == "lzo"@ {
        Some(Archive::Lzop)
    } else if extension == "lzma"@ {
        Some(Archive::Lzma)
    } else if extension == "zst"@ {
        Some(Archive::Zstd)
    } else {
        None
    }
}

/// The kind of compressed file that the extension of a file name stands
/// for, if any.
pub fn archive(extension: &Vec<u8>) -> (kind: Option<Archive>)
    ensures
        kind == archive_of(ascii_text(extension@)),
{
    if is_text(extension, "gz") || is_text(extension, "Z") {
        Some(Archive::Gzip)
    } else if is_text(extension, "bz2") {
        Some(Archive::Bzip2)
    } else if is_text(extension, "xz") {
        Some(Archive::Xz)
    } else if is_text(extension, "lzo") {
        Some(Archive::Lzop)
    } else if is_text(extension, "lzma") {
        Some(Archive::Lzma)
    } else if is_text(extension, "zst") {
        Some(Archive::Zstd)
    } else {
        None
    }
}

impl Archive {
    /// The name of the program that decompresses this kind of file.
    pub open spec fn program_text(self) -> Seq<char> {
        match self {
            Archive::Gzip => "gzip"@,
            Archive::Bzip2 => "bzip2"@,
            Archive::Xz => "xz"@,
            Archive::Lzma => "lzma"@,
            Archive::Lzop => "lzop"@,
            Archive::Zstd => "zstd"@,
        }
    }

    /// The name of the program that decompresses this kind of file; it is
    /// run with `-d -c` and the file.
    pub fn program(self) -> (name: &'static str)
        ensures
            name@ == self.program_text(),
    {
        match self {
            Archive::Gzip => "gzip",
            Archive::Bzip2 => "bzip2",
            Archive::Xz => "xz",
            Archive::Lzma => "lzma",
            Archive::Lzop => "lzop",
            Archive::Zstd => "zstd",
        }
    }
}

/// The command to run and the place in `args` where its arguments start.
#[derive(Clone, Debug, PartialEq, Eq)]
pub struct Command {
    pub name: Vec<u8>,
    pub rest: usize,
}

/// The command that the arguments of the program, with its name first, ask
/// for, and where the arguments of that command start.
///
/// Called as `zrun`, the program runs its first argument. Called by another
/// name that starts with `z`, it runs what follows the `z`. Called by any
/// other name, it runs its first argument.
pub open spec fn command_of(args: Seq<Seq<u8>>) -> Option<(Seq<u8>, int)> {
    if args.len() == 0 {
        None
    } else if ascii_text(args[0]) != "zrun"@ && args[0].len() > 0 && args[0][0] == LETTER_Z {
        Some((args[0].skip(1), 1))
    } else if args.len() >= 2 {
        Some((args[1], 2))
    } else {
        None
    }
}

/// Reads the command from the arguments of the program, with its name
/// first; `None` asks for the usage.
pub fn command(args: &Vec<Vec<u8>>) -> (found: Option<Command>)
    ensures
        match found {
            Some(command) => command_of(texts(args@)) == Some((command.name@, command.rest as int))
                && command.rest <= args.len(),
            None => command_of(texts(args@)) is None,
        },
{
    if args.len() == 0 {
        return None;
    }
    let name = &args[0];
    if !is_text(name, "zrun") && name.len() > 0 && name[0] == LETTER_Z {
        let mut tail: Vec<u8> = Vec::new();
        let mut i: usize = 1;
        while i < name.len()
            invariant
                1 <= i <= name.len(),
                tail@ == name@.subrange(1, i as int),
            decreases name.len() - i,
        {
            tail.push(name[i]);
            assert(name@.subrange(1, i + 1) =~= name@.subrange(1, i as int).push(name[i as int]));
            i += 1;
        }
        assert(name@.subrange(1, i as int) =~= name@.skip(1));
        Some(Command { name: tail, rest: 1 })
    } else if args.len() >= 2 {
        Some(Command { name: copy_bytes(&args[1]), rest: 2 })
    } else {
        None
    }
}

/// Whether a decompressor that ended with `code` did its work: only an exit
/// with 0 counts.
pub fn decompressed(code: Option<i32>) -> (done: bool)
    ensures
        done == (code == Some(0i32)),
{
    match code {
        Some(0) => true,
        _ => false,
    }
}

/// The exit status of the program: the exit code of the command, and 1 where
/// it has none.
pub fn exit_status(code: Option<i32>) -> (status: i32)
    ensures
        status == match code {
            Some(code) => code,
            None => 1i32,
        },
{
    match code {
        Some(code) => code,
        None => 1,
    }
}

/// The text that explains the command line.
pub open spec fn usage_text() -> Seq<char> {
    "Usage: zrun <command> <args>\n"@
}

/// The usage message.
pub fn usage() -> (text: &'static str)
    ensures
        text@ == usage_text(),
{
    "Usage: zrun <command> <args>\n"
}

} // verus!
