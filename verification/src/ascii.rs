//! The ASCII bytes that the tools give a meaning to, and byte-string helpers.

use vstd::prelude::*;

verus! {

/// The line feed, which ends a line.
pub const NEWLINE: u8 = 0x0a;

/// The carriage return, which may stand before the line feed.
pub const CARRIAGE_RETURN: u8 = 0x0d;

/// The space.
pub const SPACE: u8 = 0x20;

/// The sign `+`.
pub const PLUS: u8 = 0x2b;

/// The sign `-`, which also starts an option.
pub const MINUS: u8 = 0x2d;

/// The decimal point.
pub const DOT: u8 = 0x2e;

/// The letter `h`.
pub const LETTER_H: u8 = 0x68;

/// The letter `i`.
pub const LETTER_I: u8 = 0x69;

/// The letter `j`.
pub const LETTER_J: u8 = 0x6a;

/// The letter `l`.
pub const LETTER_L: u8 = 0x6c;

/// The letter `n`.
pub const LETTER_N: u8 = 0x6e;

/// The letter `e`.
pub const LETTER_E: u8 = 0x65;

/// The letter `z`.
pub const LETTER_Z: u8 = 0x7a;

/// The digit `0`.
pub const DIGIT_0: u8 = 0x30;

/// The digit `9`.
pub const DIGIT_9: u8 = 0x39;

/// Whether `byte` is one of the ASCII digits `0` to `9`.
pub open spec fn is_digit(byte: u8) -> bool {
    DIGIT_0 <= byte <= DIGIT_9
}

/// Whether every byte of `text` is an ASCII digit.
pub open spec fn all_digits(text: Seq<u8>) -> bool {
    forall|i: int| 0 <= i < text.len() ==> is_digit(#[trigger] text[i])
}

/// The lower-case form of an ASCII letter; any other byte is left as it is.
pub open spec fn lowered(byte: u8) -> u8 {
    if 0x41 <= byte <= 0x5a {
        (byte + 0x20) as u8
    } else {
        byte
    }
}

/// The lower-case form of an ASCII letter.
pub fn to_lower(byte: u8) -> (lower: u8)
    ensures
        lower == lowered(byte),
{
    if 0x41 <= byte && byte <= 0x5a {
        byte + 0x20
    } else {
        byte
    }
}

/// The lower-case form of every byte of `text`.
pub open spec fn lowered_text(text: Seq<u8>) -> Seq<u8> {
    text.map_values(|byte: u8| lowered(byte))
}

/// Whether `text` and `word` are the same but for the case of ASCII letters
/// in `text`.
pub fn same_lowered(text: &Vec<u8>, word: &Vec<u8>) -> (same: bool)
    ensures
        same == (lowered_text(text@) == word@),
{
    if text.len() != word.len() {
        return false;
    }
    let mut i: usize = 0;
    while i < text.len()
        invariant
            i <= text.len(),
            text.len() == word.len(),
            forall|j: int| 0 <= j < i ==> lowered(text[j]) == word[j],
        decreases text.len() - i,
    {
        if to_lower(text[i]) != word[i] {
            assert(lowered_text(text@)[i as int] != word@[i as int]);
            return false;
        }
        i += 1;
    }
    assert(lowered_text(text@) =~= word@);
    true
}

/// Whether two byte strings hold the same bytes.
pub fn same_bytes(left: &Vec<u8>, right: &Vec<u8>) -> (same: bool)
    ensures
        same == (left@ == right@),
{
    if left.len() != right.len() {
        return false;
    }
    let mut i: usize = 0;
    while i < left.len()
        invariant
            i <= left.len(),
            left.len() == right.len(),
            forall|j: int| 0 <= j < i ==> left[j] == right[j],
        decreases left.len() - i,
    {
        if left[i] != right[i] {
            return false;
        }
        i += 1;
    }
    assert(left@ =~= right@);
    true
}

/// A copy of a byte string.
pub fn copy_bytes(text: &Vec<u8>) -> (copy: Vec<u8>)
    ensures
        copy@ == text@,
{
    let mut copy: Vec<u8> = Vec::with_capacity(text.len());
    let mut i: usize = 0;
    while i < text.len()
        invariant
            i <= text.len(),
            copy@ == text@.take(i as int),
        decreases text.len() - i,
    {
        copy.push(text[i]);
        assert(text@.take(i + 1) =~= text@.take(i as int).push(text[i as int]));
        i += 1;
    }
    assert(text@.take(i as int) =~= text@);
    copy
}

/// The byte strings that a list of tokens holds.
pub open spec fn texts(tokens: Seq<Vec<u8>>) -> Seq<Seq<u8>> {
    tokens.map_values(|token: Vec<u8>| token@)
}

/// A copy of the tokens `from..to` of a token list.
pub fn copy_tokens(tokens: &Vec<Vec<u8>>, from: usize, to: usize) -> (copy: Vec<Vec<u8>>)
    requires
        from <= to <= tokens.len(),
    ensures
        texts(copy@) == texts(tokens@).subrange(from as int, to as int),
{
    let mut copy: Vec<Vec<u8>> = Vec::with_capacity(to - from);
    let mut i: usize = from;
    while i < to
        invariant
            from <= i <= to <= tokens.len(),
            texts(copy@) =~= texts(tokens@).subrange(from as int, i as int),
        decreases to - i,
    {
        let ghost before = copy@;
        copy.push(copy_bytes(&tokens[i]));
        assert(texts(copy@) =~= texts(before).push(tokens[i as int]@));
        assert(texts(tokens@).subrange(from as int, i + 1) =~= texts(tokens@).subrange(
            from as int,
            i as int,
        ).push(tokens[i as int]@));
        i += 1;
    }
    copy
}

} // verus!
