//! Checking that a stream of bytes is UTF-8, and describing the first place
//! where it is not.

use crate::arguments::{
    error_of, lexed, next_argument, parser_for, read_all, strings, unexpected, unexpected_view,
    unread, upcoming, weight, Argument, ArgumentView, ArgumentsError, Reaction, Reading,
};
use crate::ascii::NEWLINE;
use crate::common::{last_bytes, lemma_last_bytes_push, RingBuffer};
use crate::text::{ascii_string, ascii_text, decimal, decimal_digits, push_char};
use vstd::string::StringExecFns;
use vstd::prelude::*;

verus! {

/// How many bytes before the offending sequence a failure shows.
pub const TRAILING_CONTEXT: usize = 8;

/// How many bytes behind the offending sequence a failure shows.
pub const FORWARD_CONTEXT: usize = 6;

/// What was expected where a byte was refused or the stream ended.
#[derive(Clone, Copy, Debug, PartialEq, Eq, Structural)]
pub enum Expectation {
    /// A byte that can start a sequence.
    FirstByte,
    /// The second byte of a two-byte sequence.
    SecondOfTwo,
    /// The second byte behind `E0`.
    SecondAfterE0,
    /// The second byte behind `E1` to `EC`.
    SecondAfterE1ToEc,
    /// The second byte behind `ED`.
    SecondAfterEd,
    /// The second byte behind `EE` or `EF`.
    SecondAfterEeToEf,
    /// The third byte of a three-byte sequence.
    ThirdOfThree,
    /// The second byte behind `F0`.
    SecondAfterF0,
    /// The second byte behind `F1` to `F3`.
    SecondAfterF1ToF3,
    /// The second byte behind `F4`.
    SecondAfterF4,
    /// The third byte of a four-byte sequence.
    ThirdOfFour,
    /// The fourth byte of a four-byte sequence.
    FourthOfFour,
    /// The stream ended inside a two-byte sequence.
    EndInTwo,
    /// The stream ended inside a three-byte sequence.
    EndInThree,
    /// The stream ended inside a four-byte sequence.
    EndInFour,
}

/// The number of bytes of the sequence that `lead` starts; 0 where no
/// sequence starts with `lead`.
pub open spec fn sequence_length(lead: u8) -> nat {
    if lead <= 0x7f {
        1
    } else if 0xc2 <= lead <= 0xdf {
        2
    } else if 0xe0 <= lead <= 0xef {
        3
    } else if 0xf0 <= lead <= 0xf4 {
        4
    } else {
        0
    }
}

/// Whether `byte` is accepted as the second byte behind `lead`: the ranges
/// of UTF-8, which keep out forms that are longer than they need be, the
/// surrogates, and what lies above `10FFFF`.
pub open spec fn second_accepted(lead: u8, byte: u8) -> bool {
    if 0xc2 <= lead <= 0xdf {
        0x80 <= byte <= 0xbf
    } else if lead == 0xe0 {
        0xa0 <= byte <= 0xbf
    } else if 0xe1 <= lead <= 0xec {
        0x80 <= byte <= 0xbf
    } else if lead == 0xed {
        0x80 <= byte <= 0x9f
    } else if 0xee <= lead <= 0xef {
        0x80 <= byte <= 0xbf
    } else if lead == 0xf0 {
        0x90 <= byte <= 0xbf
    } else if 0xf1 <= lead <= 0xf3 {
        0x80 <= byte <= 0xbf
    } else if lead == 0xf4 {
        0x80 <= byte <= 0x8f
    } else {
        false
    }
}

/// Whether `byte` is one of the bytes `80` to `BF`, which only ever follow
/// another byte of their sequence.
pub open spec fn is_continuation(byte: u8) -> bool {
    0x80 <= byte <= 0xbf
}

/// Whether `byte` is accepted at place `k` (counted from 0) of a sequence
/// that `lead` starts.
pub open spec fn accepted_at(lead: u8, k: int, byte: u8) -> bool {
    if k == 0 {
        byte == lead && sequence_length(lead) > 0
    } else if k == 1 {
        second_accepted(lead, byte)
    } else {
        is_continuation(byte)
    }
}

/// What is expected at place `k` of a sequence that `lead` starts.
pub open spec fn expected_at(lead: u8, k: int) -> Expectation {
    if k <= 0 {
        Expectation::FirstByte
    } else if k == 1 {
        if lead <= 0xdf {
            Expectation::SecondOfTwo
        } else if lead == 0xe0 {
            Expectation::SecondAfterE0
        } else if lead <= 0xec {
            Expectation::SecondAfterE1ToEc
        } else if lead == 0xed {
            Expectation::SecondAfterEd
        } else if lead <= 0xef {
            Expectation::SecondAfterEeToEf
        } else if lead == 0xf0 {
            Expectation::SecondAfterF0
        } else if lead <= 0xf3 {
            Expectation::SecondAfterF1ToF3
        } else {
            Expectation::SecondAfterF4
        }
    } else if k == 2 {
        if lead <= 0xef {
            Expectation::ThirdOfThree
        } else {
            Expectation::ThirdOfFour
        }
    } else {
        Expectation::FourthOfFour
    }
}

/// What is missing where the stream ends inside a sequence that `lead`
/// starts.
pub open spec fn expected_at_end(lead: u8) -> Expectation {
    if lead <= 0xdf {
        Expectation::EndInTwo
    } else if lead <= 0xef {
        Expectation::EndInThree
    } else {
        Expectation::EndInFour
    }
}

/// The number of bytes from `at` on that are accepted as the bytes of one
/// sequence, counted from place `k` of it: the count stops at the first
/// byte that is refused, at the end of the sequence and at the end of the
/// stream.
pub open spec fn accepted_run(bytes: Seq<u8>, at: int, k: int) -> int
    decreases sequence_length(bytes[at]) - k,
{
    if 0 <= at && 0 <= k < sequence_length(bytes[at]) && at + k < bytes.len() && accepted_at(
        bytes[at],
        k,
        bytes[at + k],
    ) {
        1 + accepted_run(bytes, at, k + 1)
    } else {
        0
    }
}

/// Whether a whole sequence stands at `at`.
pub open spec fn complete_at(bytes: Seq<u8>, at: int) -> bool {
    &&& 0 <= at < bytes.len()
    &&& 0 < sequence_length(bytes[at]) <= bytes.len() - at
    &&& accepted_run(bytes, at, 0) == sequence_length(bytes[at])
}

/// The start of the first sequence at or behind `at` that is not whole, or
/// the length of the stream if every sequence is.
pub open spec fn first_fault(bytes: Seq<u8>, at: int) -> int
    decreases bytes.len() - at,
{
    if 0 <= at < bytes.len() && complete_at(bytes, at) {
        first_fault(bytes, at + sequence_length(bytes[at]))
    } else if 0 <= at < bytes.len() {
        at
    } else {
        bytes.len() as int
    }
}

/// The number of newlines in `bytes`.
pub open spec fn newlines(bytes: Seq<u8>) -> nat
    decreases bytes.len(),
{
    if bytes.len() == 0 {
        0
    } else {
        newlines(bytes.drop_last()) + if bytes.last() == NEWLINE {
            1nat
        } else {
            0nat
        }
    }
}

/// The number of the character that follows `bytes` in its line, counted
/// from 1: one more than the sequences that start behind the last newline.
pub open spec fn column(bytes: Seq<u8>) -> nat
    decreases bytes.len(),
{
    if bytes.len() == 0 || bytes.last() == NEWLINE {
        1
    } else if is_continuation(bytes.last()) {
        column(bytes.drop_last())
    } else {
        column(bytes.drop_last()) + 1
    }
}

/// The first `n` bytes of `bytes`, or all of them if there are fewer.
pub open spec fn first_bytes(bytes: Seq<u8>, n: nat) -> Seq<u8> {
    if bytes.len() <= n {
        bytes
    } else {
        bytes.take(n as int)
    }
}

/// The first place where a stream is not UTF-8.
#[derive(Clone, Debug, PartialEq, Eq)]
pub struct Utf8ParseError {
    /// The number of the line, counted from 1.
    pub line: usize,
    /// The number of the character in its line, counted from 1.
    pub character: usize,
    /// The offset that is reported for the fault.
    pub byte: usize,
    /// The bytes before the offending sequence, at most eight.
    pub trailing: Vec<u8>,
    /// The offending sequence.
    pub context: Vec<u8>,
    /// The bytes behind the offending sequence, at most six.
    pub forward: Vec<u8>,
    /// What was expected in its place.
    pub expected: Expectation,
}

/// The mathematical value of a [`Utf8ParseError`].
pub struct Utf8ParseErrorView {
    pub line: nat,
    pub character: nat,
    pub byte: nat,
    pub trailing: Seq<u8>,
    pub context: Seq<u8>,
    pub forward: Seq<u8>,
    pub expected: Expectation,
}

impl View for Utf8ParseError {
    type V = Utf8ParseErrorView;

    open spec fn view(&self) -> Utf8ParseErrorView {
        Utf8ParseErrorView {
            line: self.line as nat,
            character: self.character as nat,
            byte: self.byte as nat,
            trailing: self.trailing@,
            context: self.context@,
            forward: self.forward@,
            expected: self.expected,
        }
    }
}

/// The description of the fault of `bytes` whose sequence starts at `at`.
///
/// The offending sequence runs up to and with the byte that was refused, or
/// to the end of the stream. The reported offset is the start of the sequence
/// where its first byte was accepted, and the byte before it where not.
pub open spec fn fault_at(bytes: Seq<u8>, at: int) -> Utf8ParseErrorView {
    let run = accepted_run(bytes, at, 0);
    let cut = at + run >= bytes.len();
    let end = if cut {
        bytes.len() as int
    } else {
        at + run + 1
    };
    let before = bytes.take(at);
    Utf8ParseErrorView {
        line: 1 + newlines(before),
        character: column(before),
        byte: if run > 0 {
            at as nat
        } else if at > 0 {
            (at - 1) as nat
        } else {
            0
        },
        trailing: last_bytes(before, TRAILING_CONTEXT as nat),
        context: bytes.subrange(at, end),
        forward: first_bytes(bytes.skip(end), FORWARD_CONTEXT as nat),
        expected: if cut {
            expected_at_end(bytes[at])
        } else {
            expected_at(bytes[at], run)
        },
    }
}

/// What the check of `bytes` finds: nothing, or the first fault.
pub open spec fn checked(bytes: Seq<u8>) -> Option<Utf8ParseErrorView> {
    if first_fault(bytes, 0) >= bytes.len() {
        None
    } else {
        Some(fault_at(bytes, first_fault(bytes, 0)))
    }
}

/// Whether the byte at place `j` of the sequence that starts at `at` is
/// there and accepted.
spec fn accepted_here(bytes: Seq<u8>, at: int, j: int) -> bool {
    at + j < bytes.len() && accepted_at(bytes[at], j, bytes[at + j])
}

/// The bytes that were accepted from place `k` of a sequence on are no more
/// than the sequence has left, and each of them is accepted at its place.
proof fn lemma_accepted_run(bytes: Seq<u8>, at: int, k: int)
    requires
        0 <= at < bytes.len(),
        0 <= k <= sequence_length(bytes[at]),
    ensures
        0 <= accepted_run(bytes, at, k) <= sequence_length(bytes[at]) - k,
        forall|j: int|
            k <= j < k + accepted_run(bytes, at, k) ==> #[trigger] accepted_here(bytes, at, j),
    decreases sequence_length(bytes[at]) - k,
{
    if k < sequence_length(bytes[at]) && at + k < bytes.len() && accepted_at(
        bytes[at],
        k,
        bytes[at + k],
    ) {
        lemma_accepted_run(bytes, at, k + 1);
    }
}

/// A sequence of two bytes that is accepted writes a scalar value.
proof fn lemma_two_bytes_are_scalar(a: u8, b: u8)
    requires
        0xc2 <= a <= 0xdf,
        second_accepted(a, b),
    ensures
        vstd::utf8::valid_first_scalar(seq![a, b]),
{
    let c = vstd::utf8::codepoint_width_2(a, b);
    assert(0x80 <= ((((a & 0x1f) as u32) << 6) | ((b & 0x3f) as u32)) <= 0x7ff) by (bit_vector)
        requires
            0xc2 <= a <= 0xdf,
            0x80 <= b <= 0xbf,
    ;
}

/// A sequence of three bytes that is accepted writes a scalar value.
proof fn lemma_three_bytes_are_scalar(a: u8, b: u8, c: u8)
    requires
        0xe0 <= a <= 0xef,
        second_accepted(a, b),
        is_continuation(c),
    ensures
        vstd::utf8::valid_first_scalar(seq![a, b, c]),
{
    assert({
        let v = (((a & 0x0f) as u32) << 12) | (((b & 0x3f) as u32) << 6) | ((c & 0x3f) as u32);
        0x800 <= v <= 0xffff && !(0xd800 <= v <= 0xdfff)
    }) by (bit_vector)
        requires
            0xe0 <= a <= 0xef,
            0x80 <= b <= 0xbf,
            0x80 <= c <= 0xbf,
            a == 0xe0 ==> b >= 0xa0,
            a == 0xed ==> b <= 0x9f,
    ;
}

/// A sequence of four bytes that is accepted writes a scalar value.
proof fn lemma_four_bytes_are_scalar(a: u8, b: u8, c: u8, d: u8)
    requires
        0xf0 <= a <= 0xf4,
        second_accepted(a, b),
        is_continuation(c),
        is_continuation(d),
    ensures
        vstd::utf8::valid_first_scalar(seq![a, b, c, d]),
{
    assert({
        let v = (((a & 0x07) as u32) << 18) | (((b & 0x3f) as u32) << 12) | (((c & 0x3f) as u32)
            << 6) | ((d & 0x3f) as u32);
        0x10000 <= v <= 0x10ffff
    }) by (bit_vector)
        requires
            0xf0 <= a <= 0xf4,
            0x80 <= b <= 0xbf,
            0x80 <= c <= 0xbf,
            0x80 <= d <= 0xbf,
            a == 0xf0 ==> b >= 0x90,
            a == 0xf4 ==> b <= 0x8f,
    ;
}

/// A stream in which every sequence from `at` on is whole is UTF-8 from
/// `at` on.
proof fn lemma_rest_is_utf8(bytes: Seq<u8>, at: int)
    requires
        0 <= at <= bytes.len(),
        first_fault(bytes, at) >= bytes.len(),
    ensures
        vstd::utf8::valid_utf8(bytes.skip(at)),
    decreases bytes.len() - at,
{
    let rest = bytes.skip(at);
    if at < bytes.len() {
        assert(complete_at(bytes, at));
        let lead = bytes[at];
        let n = sequence_length(lead) as int;
        lemma_accepted_run(bytes, at, 0);
        assert(rest[0] == lead);
        assert(accepted_here(bytes, at, 0));
        if n >= 2 {
            assert(accepted_here(bytes, at, 1));
            assert(rest[1] == bytes[at + 1]);
        }
        if n >= 3 {
            assert(accepted_here(bytes, at, 2));
            assert(rest[2] == bytes[at + 2]);
        }
        if n >= 4 {
            assert(accepted_here(bytes, at, 3));
            assert(rest[3] == bytes[at + 3]);
        }
        if n == 1 {
            assert((lead & 0x7f) as u32 <= 0x7f) by (bit_vector);
        } else if n == 2 {
            lemma_two_bytes_are_scalar(rest[0], rest[1]);
        } else if n == 3 {
            lemma_three_bytes_are_scalar(rest[0], rest[1], rest[2]);
        } else {
            lemma_four_bytes_are_scalar(rest[0], rest[1], rest[2], rest[3]);
        }
        assert(vstd::utf8::valid_first_scalar(rest));
        assert(vstd::utf8::pop_first_scalar(rest) =~= bytes.skip(at + n));
        lemma_rest_is_utf8(bytes, at + n);
    }
}

/// Where every byte of a sequence from place `k` on is accepted, the run of
/// accepted bytes reaches the end of the sequence.
proof fn lemma_run_complete(bytes: Seq<u8>, at: int, k: int)
    requires
        0 <= at < bytes.len(),
        0 <= k <= sequence_length(bytes[at]),
        forall|j: int| k <= j < sequence_length(bytes[at]) ==> #[trigger] accepted_here(bytes, at, j),
    ensures
        accepted_run(bytes, at, k) == sequence_length(bytes[at]) - k,
    decreases sequence_length(bytes[at]) - k,
{
    if k < sequence_length(bytes[at]) {
        assert(accepted_here(bytes, at, k));
        lemma_run_complete(bytes, at, k + 1);
    }
}

/// The first two bytes of a scalar value of two bytes are accepted.
proof fn lemma_scalar_of_two(a: u8, b: u8)
    requires
        0xc0 <= a <= 0xdf,
        0x80 <= b <= 0xbf,
        vstd::utf8::codepoint_width_2(a, b) >= 0x80,
    ensures
        0xc2 <= a,
{
    assert(((((a & 0x1f) as u32) << 6) | ((b & 0x3f) as u32)) >= 0x80 ==> a >= 0xc2)
        by (bit_vector)
        requires
            0xc0 <= a <= 0xdf,
            0x80 <= b <= 0xbf,
    ;
}

/// The second byte of a scalar value of three bytes is in the range of
/// UTF-8 for its first byte.
proof fn lemma_scalar_of_three(a: u8, b: u8, c: u8)
    requires
        0xe0 <= a <= 0xef,
        0x80 <= b <= 0xbf,
        0x80 <= c <= 0xbf,
        vstd::utf8::codepoint_width_3(a, b, c) >= 0x800,
        !(0xd800 <= vstd::utf8::codepoint_width_3(a, b, c) <= 0xdfff),
    ensures
        a == 0xe0 ==> b >= 0xa0,
        a == 0xed ==> b <= 0x9f,
{
    assert({
        let v = (((a & 0x0f) as u32) << 12) | (((b & 0x3f) as u32) << 6) | ((c & 0x3f) as u32);
        (v >= 0x800 && !(0xd800 <= v <= 0xdfff)) ==> (a == 0xe0 ==> b >= 0xa0) && (a == 0xed ==> b
            <= 0x9f)
    }) by (bit_vector)
        requires
            0xe0 <= a <= 0xef,
            0x80 <= b <= 0xbf,
            0x80 <= c <= 0xbf,
    ;
}

/// The first two bytes of a scalar value of four bytes are in the ranges of
/// UTF-8.
proof fn lemma_scalar_of_four(a: u8, b: u8, c: u8, d: u8)
    requires
        0xf0 <= a <= 0xf7,
        0x80 <= b <= 0xbf,
        0x80 <= c <= 0xbf,
        0x80 <= d <= 0xbf,
        0x10000 <= vstd::utf8::codepoint_width_4(a, b, c, d) <= 0x10ffff,
    ensures
        a <= 0xf4,
        a == 0xf0 ==> b >= 0x90,
        a == 0xf4 ==> b <= 0x8f,
{
    assert({
        let v = (((a & 0x07) as u32) << 18) | (((b & 0x3f) as u32) << 12) | (((c & 0x3f) as u32)
            << 6) | ((d & 0x3f) as u32);
        0x10000 <= v <= 0x10ffff ==> a <= 0xf4 && (a == 0xf0 ==> b >= 0x90) && (a == 0xf4 ==> b
            <= 0x8f)
    }) by (bit_vector)
        requires
            0xf0 <= a <= 0xf7,
            0x80 <= b <= 0xbf,
            0x80 <= c <= 0xbf,
            0x80 <= d <= 0xbf,
    ;
}

/// A stream that is UTF-8 from `at` on has no fault from `at` on.
proof fn lemma_utf8_rest_passes(bytes: Seq<u8>, at: int)
    requires
        0 <= at <= bytes.len(),
        vstd::utf8::valid_utf8(bytes.skip(at)),
    ensures
        first_fault(bytes, at) >= bytes.len(),
    decreases bytes.len() - at,
{
    let rest = bytes.skip(at);
    if at < bytes.len() {
        assert(rest.len() > 0);
        assert(vstd::utf8::valid_first_scalar(rest));
        let lead = bytes[at];
        assert(rest[0] == lead);
        let width = vstd::utf8::length_of_first_scalar(rest);
        if width >= 2 {
            assert(rest[1] == bytes[at + 1]);
        }
        if width >= 3 {
            assert(rest[2] == bytes[at + 2]);
        }
        if width >= 4 {
            assert(rest[3] == bytes[at + 3]);
        }
        if width == 2 {
            lemma_scalar_of_two(rest[0], rest[1]);
        } else if width == 3 {
            lemma_scalar_of_three(rest[0], rest[1], rest[2]);
        } else if width == 4 {
            lemma_scalar_of_four(rest[0], rest[1], rest[2], rest[3]);
        }
        assert(sequence_length(lead) == width);
        assert forall|j: int| 0 <= j < sequence_length(lead) implies #[trigger] accepted_here(
            bytes,
            at,
            j,
        ) by {
            if j == 1 {
                assert(second_accepted(lead, bytes[at + 1]));
            }
        }
        lemma_run_complete(bytes, at, 0);
        assert(complete_at(bytes, at));
        assert(vstd::utf8::pop_first_scalar(rest) =~= bytes.skip(at + width));
        lemma_utf8_rest_passes(bytes, at + width);
    }
}

/// What is UTF-8 passes the check.
pub proof fn lemma_utf8_passes(bytes: Seq<u8>)
    requires
        vstd::utf8::valid_utf8(bytes),
    ensures
        checked(bytes) is None,
{
    assert(bytes.skip(0) =~= bytes);
    lemma_utf8_rest_passes(bytes, 0);
}

/// Whatever passes the check is UTF-8: a stream without a fault is a
/// well-formed encoding of Unicode scalar values.
pub proof fn lemma_checked_is_utf8(bytes: Seq<u8>)
    requires
        checked(bytes) is None,
    ensures
        vstd::utf8::valid_utf8(bytes),
{
    lemma_rest_is_utf8(bytes, 0);
    assert(bytes.skip(0) =~= bytes);
}

/// The check passes exactly what is UTF-8.
pub proof fn lemma_checked_iff_utf8(bytes: Seq<u8>)
    ensures
        checked(bytes) is None <==> vstd::utf8::valid_utf8(bytes),
{
    if checked(bytes) is None {
        lemma_checked_is_utf8(bytes);
    }
    if vstd::utf8::valid_utf8(bytes) {
        lemma_utf8_passes(bytes);
    }
}

/// The number of bytes of the sequence that `lead` starts.
fn sequence_len(lead: u8) -> (length: usize)
    ensures
        length == sequence_length(lead),
{
    if lead <= 0x7f {
        1
    } else if 0xc2 <= lead && lead <= 0xdf {
        2
    } else if 0xe0 <= lead && lead <= 0xef {
        3
    } else if 0xf0 <= lead && lead <= 0xf4 {
        4
    } else {
        0
    }
}

/// Whether `byte` is accepted as the second byte behind `lead`.
fn accepts_second(lead: u8, byte: u8) -> (accepted: bool)
    ensures
        accepted == second_accepted(lead, byte),
{
    if 0xc2 <= lead && lead <= 0xdf {
        0x80 <= byte && byte <= 0xbf
    } else if lead == 0xe0 {
        0xa0 <= byte && byte <= 0xbf
    } else if 0xe1 <= lead && lead <= 0xec {
        0x80 <= byte && byte <= 0xbf
    } else if lead == 0xed {
        0x80 <= byte && byte <= 0x9f
    } else if 0xee <= lead && lead <= 0xef {
        0x80 <= byte && byte <= 0xbf
    } else if lead == 0xf0 {
        0x90 <= byte && byte <= 0xbf
    } else if 0xf1 <= lead && lead <= 0xf3 {
        0x80 <= byte && byte <= 0xbf
    } else if lead == 0xf4 {
        0x80 <= byte && byte <= 0x8f
    } else {
        false
    }
}

/// Whether `byte` is accepted at place `k` of a sequence that `lead` starts.
fn accepts(lead: u8, k: usize, byte: u8) -> (accepted: bool)
    ensures
        accepted == accepted_at(lead, k as int, byte),
{
    if k == 0 {
        byte == lead && sequence_len(lead) > 0
    } else if k == 1 {
        accepts_second(lead, byte)
    } else {
        0x80 <= byte && byte <= 0xbf
    }
}

/// What is expected at place `k` of a sequence that `lead` starts.
fn expectation(lead: u8, k: usize) -> (expected: Expectation)
    ensures
        expected == expected_at(lead, k as int),
{
    if k == 0 {
        Expectation::FirstByte
    } else if k == 1 {
        if lead <= 0xdf {
            Expectation::SecondOfTwo
        } else if lead == 0xe0 {
            Expectation::SecondAfterE0
        } else if lead <= 0xec {
            Expectation::SecondAfterE1ToEc
        } else if lead == 0xed {
            Expectation::SecondAfterEd
        } else if lead <= 0xef {
            Expectation::SecondAfterEeToEf
        } else if lead == 0xf0 {
            Expectation::SecondAfterF0
        } else if lead <= 0xf3 {
            Expectation::SecondAfterF1ToF3
        } else {
            Expectation::SecondAfterF4
        }
    } else if k == 2 {
        if lead <= 0xef {
            Expectation::ThirdOfThree
        } else {
            Expectation::ThirdOfFour
        }
    } else {
        Expectation::FourthOfFour
    }
}

/// What is missing where the stream ends inside a sequence that `lead`
/// starts.
fn expectation_at_end(lead: u8) -> (expected: Expectation)
    ensures
        expected == expected_at_end(lead),
{
    if lead <= 0xdf {
        Expectation::EndInTwo
    } else if lead <= 0xef {
        Expectation::EndInThree
    } else {
        Expectation::EndInFour
    }
}

/// A copy of the bytes `from..to`.
fn copy_range(bytes: &Vec<u8>, from: usize, to: usize) -> (copy: Vec<u8>)
    requires
        from <= to <= bytes.len(),
    ensures
        copy@ == bytes@.subrange(from as int, to as int),
{
    let mut copy: Vec<u8> = Vec::new();
    let mut i: usize = from;
    while i < to
        invariant
            from <= i <= to <= bytes.len(),
            copy@ == bytes@.subrange(from as int, i as int),
        decreases to - i,
    {
        copy.push(bytes[i]);
        assert(bytes@.subrange(from as int, i + 1) =~= bytes@.subrange(from as int, i as int).push(
            bytes[i as int],
        ));
        i += 1;
    }
    copy
}

/// Checks that `bytes` is UTF-8 and describes the first fault if it is not.
///
/// The bytes are read as one sequence after the other. A sequence is one
/// byte up to `7F`, or a first byte from `C2` to `F4` with one to three
/// bytes behind it from the ranges that [`second_accepted`] and
/// [`is_continuation`] give. What passes is exactly what is UTF-8.
pub fn validate(bytes: &Vec<u8>) -> (result: Result<(), Utf8ParseError>)
    requires
        bytes.len() < usize::MAX,
    ensures
        result is Ok <==> vstd::utf8::valid_utf8(bytes@),
        match result {
            Ok(_) => checked(bytes@) is None,
            Err(fault) => checked(bytes@) == Some(fault@) && fault.wf(),
        },
{
    let len = bytes.len();
    let mut trailing = RingBuffer::new(TRAILING_CONTEXT);
    let mut line: usize = 1;
    let mut character: usize = 1;
    let mut at: usize = 0;
    assert(bytes@.take(0) =~= Seq::<u8>::empty());
    while at < len
        invariant
            at <= len == bytes.len() < usize::MAX,
            first_fault(bytes@, 0) == first_fault(bytes@, at as int),
            line == 1 + newlines(bytes@.take(at as int)),
            character == column(bytes@.take(at as int)),
            character <= at + 1,
            line <= at + 1,
            trailing.wf(),
            trailing.capacity() == TRAILING_CONTEXT,
            trailing@ == last_bytes(bytes@.take(at as int), TRAILING_CONTEXT as nat),
        decreases len - at,
    {
        let lead = bytes[at];
        let length = sequence_len(lead);
        let mut run: usize = 0;
        while run < length && at + run < len && accepts(lead, run, bytes[at + run])
            invariant
                at < len == bytes.len() < usize::MAX,
                lead == bytes[at as int],
                length == sequence_length(lead),
                run <= length <= 4,
                at + run <= len,
                accepted_run(bytes@, at as int, 0) == run + accepted_run(
                    bytes@,
                    at as int,
                    run as int,
                ),
                forall|j: int| 0 <= j < run ==> accepted_at(lead, j, #[trigger] bytes[at + j]),
            decreases length - run,
        {
            run += 1;
        }
        if run < length || length == 0 {
            let cut = at + run >= len;
            let end = if cut {
                len
            } else {
                at + run + 1
            };
            let forward_end = if len - end > FORWARD_CONTEXT {
                end + FORWARD_CONTEXT
            } else {
                len
            };
            let fault = Utf8ParseError {
                line,
                character,
                byte: if run > 0 {
                    at
                } else if at > 0 {
                    at - 1
                } else {
                    0
                },
                trailing: trailing.into_vec(),
                context: copy_range(bytes, at, end),
                forward: copy_range(bytes, end, forward_end),
                expected: if cut {
                    expectation_at_end(lead)
                } else {
                    expectation(lead, run)
                },
            };
            proof {
                assert(first_fault(bytes@, at as int) == at);
                assert(fault@.forward =~= first_bytes(
                    bytes@.skip(end as int),
                    FORWARD_CONTEXT as nat,
                ));
                assert(fault@ == fault_at(bytes@, at as int));
                lemma_checked_iff_utf8(bytes@);
            }
            return Err(fault);
        }
        assert(complete_at(bytes@, at as int));
        let mut j: usize = 0;
        while j < length
            invariant
                j <= length <= 4,
                at + length <= len == bytes.len() < usize::MAX,
                lead == bytes[at as int],
                length == sequence_length(lead),
                forall|i: int| 0 <= i < length ==> accepted_at(lead, i, #[trigger] bytes[at + i]),
                line == 1 + newlines(bytes@.take(at + j)),
                character == column(bytes@.take(at + j)),
                character <= at + j + 1,
                line <= at + j + 1,
                trailing.wf(),
                trailing.capacity() == TRAILING_CONTEXT,
                trailing@ == last_bytes(bytes@.take(at + j), TRAILING_CONTEXT as nat),
            decreases length - j,
        {
            let byte = bytes[at + j];
            proof {
                let before = bytes@.take(at + j);
                assert(bytes@.take(at + j + 1) =~= before.push(byte));
                assert(before.push(byte).drop_last() =~= before);
                lemma_last_bytes_push(before, TRAILING_CONTEXT as nat, byte);
                assert(accepted_at(lead, j as int, bytes[at + j]));
            }
            trailing.insert(byte);
            if byte == NEWLINE {
                line += 1;
                character = 1;
            } else if j == 0 {
                character += 1;
            }
            j += 1;
        }
        at += length;
    }
    proof {
        lemma_checked_iff_utf8(bytes@);
    }
    Ok(())
}

impl Expectation {
    /// The sentence that states the expectation.
    pub open spec fn message_text(self) -> Seq<char> {
        match self {
            Expectation::FirstByte => "Expecting bytes in the following ranges: 00..7F C2..F4."@,
            Expectation::SecondOfTwo => "After a first byte between C2 and DF, expecting a 2nd byte between 80 and BF"@,
            Expectation::SecondAfterE0 => "After a first byte of E0, expecting a 2nd byte between A0 and BF."@,
            Expectation::SecondAfterE1ToEc => "After a first byte between E1 and EC, expecting a 2nd byte between 80 and BF."@,
            Expectation::SecondAfterEd => "After a first byte of ED, expecting a 2nd byte between 80 and 9F."@,
            Expectation::SecondAfterEeToEf => "After a first byte between EE and EF, expecting a 2nd byte between 80 and BF."@,
            Expectation::ThirdOfThree => "After a first byte between E0 and EF, expecting a 3nd byte between 80 and BF."@,
            Expectation::SecondAfterF0 => "After a first byte of F0, expecting a 2nd byte between 90 and BF."@,
            Expectation::SecondAfterF1ToF3 => "After a first byte between F1 and F3, expecting a 2nd byte between 80 and BF."@,
            Expectation::SecondAfterF4 => "After a first byte of F4, expecting a 2nd byte between 80 and 8F."@,
            Expectation::ThirdOfFour => "After a first byte between F0 and F4, expecting a 3nd byte between 80 and BF."@,
            Expectation::FourthOfFour => "After a first byte between F0 and F4, expecting a 4th byte between 80 and BF."@,
            Expectation::EndInTwo => "After a first byte between C2 and DF, expecting a 2nd byte."@,
            Expectation::EndInThree => "After a first byte between E0 and EF, two following bytes."@,
            Expectation::EndInFour => "After a first byte between F0 and F4, three following bytes."@,
        }
    }

    /// The sentence that states the expectation.
    pub fn message(self) -> (text: &'static str)
        ensures
            text@ == self.message_text(),
    {
        match self {
            Expectation::FirstByte => "Expecting bytes in the following ranges: 00..7F C2..F4.",
            Expectation::SecondOfTwo => "After a first byte between C2 and DF, expecting a 2nd byte between 80 and BF",
            Expectation::SecondAfterE0 => "After a first byte of E0, expecting a 2nd byte between A0 and BF.",
            Expectation::SecondAfterE1ToEc => "After a first byte between E1 and EC, expecting a 2nd byte between 80 and BF.",
            Expectation::SecondAfterEd => "After a first byte of ED, expecting a 2nd byte between 80 and 9F.",
            Expectation::SecondAfterEeToEf => "After a first byte between EE and EF, expecting a 2nd byte between 80 and BF.",
            Expectation::ThirdOfThree => "After a first byte between E0 and EF, expecting a 3nd byte between 80 and BF.",
            Expectation::SecondAfterF0 => "After a first byte of F0, expecting a 2nd byte between 90 and BF.",
            Expectation::SecondAfterF1ToF3 => "After a first byte between F1 and F3, expecting a 2nd byte between 80 and BF.",
            Expectation::SecondAfterF4 => "After a first byte of F4, expecting a 2nd byte between 80 and 8F.",
            Expectation::ThirdOfFour => "After a first byte between F0 and F4, expecting a 3nd byte between 80 and BF.",
            Expectation::FourthOfFour => "After a first byte between F0 and F4, expecting a 4th byte between 80 and BF.",
            Expectation::EndInTwo => "After a first byte between C2 and DF, expecting a 2nd byte.",
            Expectation::EndInThree => "After a first byte between E0 and EF, two following bytes.",
            Expectation::EndInFour => "After a first byte between F0 and F4, three following bytes.",
        }
    }
}

/// The character that stands for `byte` in a rendering: the byte itself
/// where it is a visible ASCII character, a dot where it is not.
pub open spec fn visible(byte: u8) -> char {
    if 0x21 <= byte <= 0x7e {
        byte as char
    } else {
        '.'
    }
}

/// One character for each byte: see [`visible`].
pub open spec fn ascii_rendering(bytes: Seq<u8>) -> Seq<char> {
    bytes.map_values(|byte: u8| visible(byte))
}

/// Renders bytes as text, one character for each byte.
pub fn byte_vec_ascii(u8s: &Vec<u8>) -> (text: String)
    ensures
        text@ == ascii_rendering(u8s@),
{
    let mut text = String::new();
    let mut i: usize = 0;
    while i < u8s.len()
        invariant
            i <= u8s.len(),
            text@ == ascii_rendering(u8s@.take(i as int)),
        decreases u8s.len() - i,
    {
        let byte = u8s[i];
        let c = if 0x21 <= byte && byte <= 0x7e {
            byte as char
        } else {
            '.'
        };
        push_char(&mut text, c);
        proof {
            assert(u8s@.take(i + 1) =~= u8s@.take(i as int).push(byte));
            assert(ascii_rendering(u8s@.take(i + 1)) =~= ascii_rendering(u8s@.take(i as int)).push(
                visible(byte),
            ));
        }
        i += 1;
    }
    proof {
        assert(u8s@.take(i as int) =~= u8s@);
    }
    text
}

/// The upper-case hexadecimal digit of a value below 16.
pub open spec fn hex_digit(nibble: u8) -> char {
    if nibble < 10 {
        (0x30 + nibble) as u8 as char
    } else {
        (0x37 + nibble) as u8 as char
    }
}

/// The two hexadecimal digits of a byte.
pub open spec fn hex_pair(byte: u8) -> Seq<char> {
    seq![hex_digit(byte / 16), hex_digit(byte % 16)]
}

/// Two hexadecimal digits for each byte, with one space between bytes.
pub open spec fn hex_rendering(bytes: Seq<u8>) -> Seq<char>
    decreases bytes.len(),
{
    if bytes.len() == 0 {
        Seq::empty()
    } else if bytes.len() == 1 {
        hex_pair(bytes[0])
    } else {
        hex_rendering(bytes.drop_last()) + seq![' '] + hex_pair(bytes.last())
    }
}

/// A hexadecimal rendering has two characters for each byte and one between
/// any two.
pub proof fn lemma_hex_rendering_len(bytes: Seq<u8>)
    ensures
        hex_rendering(bytes).len() == if bytes.len() == 0 {
            0
        } else {
            3 * bytes.len() - 1
        },
    decreases bytes.len(),
{
    if bytes.len() > 1 {
        lemma_hex_rendering_len(bytes.drop_last());
    }
}

/// The upper-case hexadecimal digit of a value below 16.
fn hex_char(nibble: u8) -> (c: char)
    requires
        nibble < 16,
    ensures
        c == hex_digit(nibble),
{
    if nibble < 10 {
        (0x30 + nibble) as char
    } else {
        (0x37 + nibble) as char
    }
}

/// Renders bytes in hexadecimal.
pub fn byte_vec_hex(u8s: &Vec<u8>) -> (text: String)
    ensures
        text@ == hex_rendering(u8s@),
{
    let mut text = String::new();
    let mut i: usize = 0;
    while i < u8s.len()
        invariant
            i <= u8s.len(),
            text@ == hex_rendering(u8s@.take(i as int)),
        decreases u8s.len() - i,
    {
        let byte = u8s[i];
        let ghost before = text@;
        if i > 0 {
            push_char(&mut text, ' ');
        }
        push_char(&mut text, hex_char(byte / 16));
        push_char(&mut text, hex_char(byte % 16));
        proof {
            let now = u8s@.take(i + 1);
            assert(now.drop_last() =~= u8s@.take(i as int));
            assert(now.last() == byte);
            if i > 0 {
                assert(text@ =~= before + seq![' '] + hex_pair(byte));
            } else {
                assert(text@ =~= hex_pair(byte));
                assert(now[0] == byte);
            }
        }
        i += 1;
    }
    proof {
        assert(u8s@.take(i as int) =~= u8s@);
    }
    text
}

/// `count` times the character `c`.
pub open spec fn repeated(c: char, count: nat) -> Seq<char> {
    Seq::new(count, |i: int| c)
}

/// A string of `count` times the character `c`.
fn repeat_char(c: char, count: usize) -> (text: String)
    ensures
        text@ == repeated(c, count as nat),
{
    let mut text = String::new();
    let mut i: usize = 0;
    while i < count
        invariant
            i <= count,
            text@ == repeated(c, i as nat),
        decreases count - i,
    {
        push_char(&mut text, c);
        assert(text@ =~= repeated(c, (i + 1) as nat));
        i += 1;
    }
    text
}

/// Where and why a stream is not UTF-8, in one line:
/// `line L, char C, byte B: ` and the sentence of the expectation.
pub open spec fn summary_text(fault: Utf8ParseErrorView) -> Seq<char> {
    "line "@ + ascii_text(decimal_digits(fault.line)) + ", char "@ + ascii_text(
        decimal_digits(fault.character),
    ) + ", byte "@ + ascii_text(decimal_digits(fault.byte)) + ": "@
        + fault.expected.message_text()
}

/// The bytes around the fault, in hexadecimal and as text.
pub open spec fn detail_text(fault: Utf8ParseErrorView) -> Seq<char> {
    hex_rendering(fault.trailing) + " "@ + hex_rendering(fault.context) + " "@ + hex_rendering(
        fault.forward,
    ) + "  | "@ + ascii_rendering(fault.trailing) + ascii_rendering(fault.context)
        + ascii_rendering(fault.forward)
}

/// The line under [`detail_text`] that marks the offending sequence with
/// carets.
pub open spec fn marker_text(fault: Utf8ParseErrorView) -> Seq<char> {
    repeated(' ', hex_rendering(fault.trailing).len()) + " "@ + repeated(
        '^',
        hex_rendering(fault.context).len(),
    ) + " "@ + repeated(' ', hex_rendering(fault.forward).len()) + "  | "@ + repeated(
        ' ',
        fault.trailing.len(),
    ) + repeated('^', fault.context.len()) + repeated(' ', fault.forward.len())
}

/// The length of the hexadecimal rendering of `count` bytes.
fn hex_width(count: usize) -> (width: usize)
    requires
        count <= 8,
    ensures
        width == if count == 0 {
            0
        } else {
            3 * count - 1
        },
{
    if count == 0 {
        0
    } else {
        3 * count - 1
    }
}

impl Utf8ParseError {
    /// The bounds that every fault found by [`validate`] keeps.
    pub open spec fn wf(&self) -> bool {
        &&& self.trailing@.len() <= TRAILING_CONTEXT
        &&& self.context@.len() <= 4
        &&& self.forward@.len() <= FORWARD_CONTEXT
    }

    /// Where and why the stream is not UTF-8, in one line.
    pub fn summary(&self) -> (text: String)
        ensures
            text@ == summary_text(self@),
    {
        let mut text = String::from_str("line ");
        text.append(ascii_string(&decimal(self.line as u64)).as_str());
        text.append(", char ");
        text.append(ascii_string(&decimal(self.character as u64)).as_str());
        text.append(", byte ");
        text.append(ascii_string(&decimal(self.byte as u64)).as_str());
        text.append(": ");
        text.append(self.expected.message());
        text
    }

    /// The bytes around the fault, in hexadecimal and as text.
    pub fn detail(&self) -> (text: String)
        ensures
            text@ == detail_text(self@),
    {
        let mut text = byte_vec_hex(&self.trailing);
        text.append(" ");
        text.append(byte_vec_hex(&self.context).as_str());
        text.append(" ");
        text.append(byte_vec_hex(&self.forward).as_str());
        text.append("  | ");
        text.append(byte_vec_ascii(&self.trailing).as_str());
        text.append(byte_vec_ascii(&self.context).as_str());
        text.append(byte_vec_ascii(&self.forward).as_str());
        text
    }

    /// The line under the detail that marks the offending sequence.
    pub fn marker(&self) -> (text: String)
        requires
            self.wf(),
        ensures
            text@ == marker_text(self@),
    {
        proof {
            lemma_hex_rendering_len(self.trailing@);
            lemma_hex_rendering_len(self.context@);
            lemma_hex_rendering_len(self.forward@);
        }
        let mut text = repeat_char(' ', hex_width(self.trailing.len()));
        text.append(" ");
        text.append(repeat_char('^', hex_width(self.context.len())).as_str());
        text.append(" ");
        text.append(repeat_char(' ', hex_width(self.forward.len())).as_str());
        text.append("  | ");
        text.append(repeat_char(' ', self.trailing.len()).as_str());
        text.append(repeat_char('^', self.context.len()).as_str());
        text.append(repeat_char(' ', self.forward.len()).as_str());
        text
    }
}

/// What is printed about the files.
#[derive(Clone, Copy, Debug, PartialEq, Eq, Structural)]
pub enum DisplayMode {
    /// One line for each file that is not UTF-8.
    Normal,
    /// Nothing.
    Quiet,
    /// The names of the files that are not UTF-8.
    List,
    /// The names of the files that are UTF-8.
    Invert,
    /// The line of `Normal` and the bytes around the fault.
    Verbose,
}

impl Default for DisplayMode {
    fn default() -> (mode: DisplayMode)
        ensures
            mode == DisplayMode::Normal,
    {
        DisplayMode::Normal
    }
}

/// What is printed about one file.
#[derive(Clone, Copy, Debug, PartialEq, Eq, Structural)]
pub enum Shown {
    /// Nothing.
    Nothing,
    /// The name of the file.
    Name,
    /// The name of the file and the summary of the fault.
    Summary,
    /// As `Summary`, then the detail and the marker.
    Detail,
}

/// What `mode` prints about a file that is UTF-8 (`valid`) or not.
pub open spec fn shown_for(mode: DisplayMode, valid: bool) -> Shown {
    if valid {
        if mode == DisplayMode::Invert {
            Shown::Name
        } else {
            Shown::Nothing
        }
    } else {
        match mode {
            DisplayMode::Normal => Shown::Summary,
            DisplayMode::List => Shown::Name,
            DisplayMode::Verbose => Shown::Detail,
            DisplayMode::Quiet => Shown::Nothing,
            DisplayMode::Invert => Shown::Nothing,
        }
    }
}

/// What `mode` prints about a file.
pub fn shown(mode: DisplayMode, valid: bool) -> (what: Shown)
    ensures
        what == shown_for(mode, valid),
{
    if valid {
        match mode {
            DisplayMode::Invert => Shown::Name,
            _ => Shown::Nothing,
        }
    } else {
        match mode {
            DisplayMode::Normal => Shown::Summary,
            DisplayMode::List => Shown::Name,
            DisplayMode::Verbose => Shown::Detail,
            DisplayMode::Quiet => Shown::Nothing,
            DisplayMode::Invert => Shown::Nothing,
        }
    }
}

/// The exit status of the program: 1 if any file was not UTF-8, else 0.
pub fn exit_status(any_fault: bool) -> (status: i32)
    ensures
        status == if any_fault {
            1i32
        } else {
            0i32
        },
{
    if any_fault {
        1
    } else {
        0
    }
}

/// What a command line asks for.
#[derive(Clone, Debug, PartialEq, Eq)]
pub struct Options {
    pub display_mode: DisplayMode,
    /// The files to check; none stands for the names read from the standard
    /// input.
    pub files: Vec<String>,
}

/// The mathematical value of [`Options`].
pub struct OptionsView {
    pub display_mode: DisplayMode,
    pub files: Seq<Seq<char>>,
}

impl View for Options {
    type V = OptionsView;

    open spec fn view(&self) -> OptionsView {
        OptionsView {
            display_mode: self.display_mode,
            files: strings(self.files@),
        }
    }
}

/// The display mode that an option asks for.
pub open spec fn mode_of(argument: ArgumentView) -> Option<DisplayMode> {
    if argument.is_short('i') || argument.is_long("invert"@) {
        Some(DisplayMode::Invert)
    } else if argument.is_short('l') || argument.is_long("list"@) {
        Some(DisplayMode::List)
    } else if argument.is_short('q') || argument.is_long("quiet"@) {
        Some(DisplayMode::Quiet)
    } else if argument.is_short('v') || argument.is_long("verbose"@) {
        Some(DisplayMode::Verbose)
    } else {
        None
    }
}

/// What one argument does to the options: `-h` and `--help` ask for the
/// usage, an option for a display mode sets the mode, a value names one more
/// file, and anything else is refused.
pub open spec fn accepted(options: OptionsView, argument: ArgumentView) -> (OptionsView, Reaction) {
    if argument.is_short('h') || argument.is_long("help"@) {
        (options, Reaction::Help)
    } else if mode_of(argument) is Some {
        (OptionsView { display_mode: mode_of(argument).unwrap(), ..options }, Reaction::Taken)
    } else {
        match argument {
            ArgumentView::Value(file) => (
                OptionsView { files: options.files.push(file), ..options },
                Reaction::Taken,
            ),
            _ => (options, Reaction::Unexpected),
        }
    }
}

impl Options {
    /// The options of a command line without arguments.
    pub fn new() -> (options: Options)
        ensures
            options@ == (OptionsView { display_mode: DisplayMode::Normal, files: Seq::empty() }),
    {
        let options = Options { display_mode: DisplayMode::Normal, files: Vec::new() };
        assert(options@.files =~= Seq::<Seq<char>>::empty());
        options
    }

    /// Takes in one argument.
    pub fn accept(&mut self, argument: &Argument) -> (reaction: Reaction)
        ensures
            (final(self)@, reaction) == accepted(old(self)@, argument@),
    {
        if argument.is_short('h') || argument.is_long("help") {
            Reaction::Help
        } else if argument.is_short('i') || argument.is_long("invert") {
            self.display_mode = DisplayMode::Invert;
            Reaction::Taken
        } else if argument.is_short('l') || argument.is_long("list") {
            self.display_mode = DisplayMode::List;
            Reaction::Taken
        } else if argument.is_short('q') || argument.is_long("quiet") {
            self.display_mode = DisplayMode::Quiet;
            Reaction::Taken
        } else if argument.is_short('v') || argument.is_long("verbose") {
            self.display_mode = DisplayMode::Verbose;
            Reaction::Taken
        } else {
            match argument {
                Argument::Value(file) => {
                    self.files.push(file.clone());
                    assert(self@.files =~= old(self)@.files.push(file@));
                    Reaction::Taken
                },
                _ => Reaction::Unexpected,
            }
        }
    }
}

/// How the reading of a command line ended.
#[derive(Clone, Debug, PartialEq, Eq)]
pub enum Request {
    /// The usage is asked for.
    Help,
    /// The files are to be checked.
    Run(Options),
}

/// How the reading of the arguments of the program ends: every argument
/// that `lexopt` hands out is taken in as [`accepted`] says.
pub open spec fn parsed(arguments: Seq<Seq<char>>) -> Reading<OptionsView> {
    read_all(
        OptionsView { display_mode: DisplayMode::Normal, files: Seq::empty() },
        |options: OptionsView, argument: ArgumentView| accepted(options, argument),
        lexed(arguments),
    )
}

/// Reads the arguments of the program, without its name.
///
/// The arguments are split by `lexopt`; every option or value it hands out
/// is taken in by [`Options::accept`], and the first one that is refused
/// ends the reading with an error that names it.
pub fn parse_args(arguments: &Vec<String>) -> (result: Result<Request, ArgumentsError>)
    ensures
        match parsed(strings(arguments@)) {
            Reading::Done(options) => result matches Ok(Request::Run(read)) && read@ == options,
            Reading::Help => result matches Ok(Request::Help),
            Reading::Refused(argument) => result matches Err(error) && error@ == unexpected_view(
                argument,
            ),
            Reading::Paused(_, argument, _, _) => result matches Err(error) && error@
                == unexpected_view(argument),
            Reading::Failed(refused) => result matches Err(error) && error@ == refused,
        },
{
    let mut options = Options::new();
    let mut parser = parser_for(arguments);
    let ghost step = |options: OptionsView, argument: ArgumentView| accepted(options, argument);
    loop
        invariant
            step == |options: OptionsView, argument: ArgumentView| accepted(options, argument),
            parsed(strings(arguments@)) == read_all(options@, step, upcoming(parser)),
        decreases weight(unread(parser)),
    {
        let argument = match next_argument(&mut parser) {
            Err(error) => {
                return Err(error_of(error));
            },
            Ok(None) => {
                return Ok(Request::Run(options));
            },
            Ok(Some(argument)) => argument,
        };
        match options.accept(&argument) {
            Reaction::Taken => {},
            Reaction::Help => {
                return Ok(Request::Help);
            },
            _ => {
                return Err(unexpected(&argument));
            },
        }
    }
}

/// The text that explains the command line.
pub open spec fn usage_text() -> Seq<char> {
    "Usage: isutf8 [OPTION]... [FILE]...\nCheck whether input files are valid UTF-8.\n\n  -h, --help       display this help text and exit\n  -q, --quiet      suppress all normal output\n  -l, --list       print only names of FILEs containing invalid UTF-8\n  -i, --invert     list valid UTF-8 files instead of invalid ones\n  -v, --verbose    print detailed error (multiple lines)\n"@
}

/// The usage message.
pub fn usage() -> (text: &'static str)
    ensures
        text@ == usage_text(),
{
    "Usage: isutf8 [OPTION]... [FILE]...\nCheck whether input files are valid UTF-8.\n\n  -h, --help       display this help text and exit\n  -q, --quiet      suppress all normal output\n  -l, --list       print only names of FILEs containing invalid UTF-8\n  -i, --invert     list valid UTF-8 files instead of invalid ones\n  -v, --verbose    print detailed error (multiple lines)\n"
}

} // verus!
