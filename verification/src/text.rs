//! Building text: what the standard `String` offers without a specification
//! of its own, and decimal numbers.

use crate::ascii::{all_digits, is_digit, DIGIT_0, DIGIT_9, MINUS, PLUS};
use vstd::prelude::*;
use vstd::string::StrSliceExecFns;

verus! {

/// Appends one character to a string.
///
/// Trusted: this is `String::push` of the standard library, which appends
/// the given character to the end of the string and changes nothing else.
#[verifier::external_body]
pub(crate) fn push_char(text: &mut String, c: char)
    ensures
        final(text)@ == old(text)@.push(c),
{
    text.push(c)
}

/// The character of an ASCII byte.
pub open spec fn ascii_char(byte: u8) -> char {
    byte as char
}

/// The characters of a string of ASCII bytes.
pub open spec fn ascii_text(bytes: Seq<u8>) -> Seq<char> {
    bytes.map_values(|byte: u8| ascii_char(byte))
}

/// The decimal digits of `n`, most significant first, without leading zeros;
/// `0` is written as one digit.
pub open spec fn decimal_digits(n: nat) -> Seq<u8>
    decreases n,
{
    if n < 10 {
        seq![(0x30 + n) as u8]
    } else {
        decimal_digits(n / 10).push((0x30 + n % 10) as u8)
    }
}

/// A number is written with digits and nothing else, with at least one
/// digit, and without a zero in front unless it is zero itself.
pub proof fn lemma_decimal_digits(n: nat)
    ensures
        decimal_digits(n).len() >= 1,
        all_digits(decimal_digits(n)),
        n > 0 ==> decimal_digits(n)[0] != DIGIT_0,
        n == 0 ==> decimal_digits(n) == seq![DIGIT_0],
    decreases n,
{
    if n >= 10 {
        lemma_decimal_digits(n / 10);
        let front = decimal_digits(n / 10);
        let all = decimal_digits(n);
        assert(all == front.push((0x30 + n % 10) as u8));
        assert forall|i: int| 0 <= i < all.len() implies is_digit(#[trigger] all[i]) by {
            if i < front.len() {
                assert(all[i] == front[i]);
            }
        }
        assert(all[0] == front[0]);
    }
}

/// What is written can be read back: the digits of a number write that
/// number.
pub proof fn lemma_decimal_round_trip(n: nat)
    ensures
        decimal_value(decimal_digits(n)) == n,
    decreases n,
{
    if n < 10 {
        let digits = decimal_digits(n);
        assert(digits.drop_last() =~= Seq::<u8>::empty());
        assert(decimal_value(digits.drop_last()) == 0);
    } else {
        lemma_decimal_round_trip(n / 10);
        let front = decimal_digits(n / 10);
        let digits = decimal_digits(n);
        assert(digits.drop_last() =~= front);
        assert(digits.last() == (0x30 + n % 10) as u8);
    }
}

/// A larger number is not written with fewer digits.
pub proof fn lemma_decimal_len_grows(smaller: nat, larger: nat)
    requires
        smaller <= larger,
    ensures
        decimal_digits(smaller).len() <= decimal_digits(larger).len(),
    decreases larger,
{
    lemma_decimal_digits(smaller);
    lemma_decimal_digits(larger);
    if smaller >= 10 {
        lemma_decimal_len_grows(smaller / 10, larger / 10);
    }
}

/// Zeros in front do not change the number that digits write.
pub proof fn lemma_zeros_in_front(zeros: nat, digits: Seq<u8>)
    ensures
        decimal_value(Seq::new(zeros, |i: int| DIGIT_0) + digits) == decimal_value(digits),
    decreases digits.len(),
{
    let front = Seq::new(zeros, |i: int| DIGIT_0);
    if digits.len() == 0 {
        assert(front + digits =~= front);
        lemma_zeros_are_zero(zeros);
    } else {
        lemma_zeros_in_front(zeros, digits.drop_last());
        assert((front + digits).drop_last() =~= front + digits.drop_last());
        assert((front + digits).last() == digits.last());
    }
}

/// Nothing but zeros writes zero.
pub proof fn lemma_zeros_are_zero(zeros: nat)
    ensures
        decimal_value(Seq::new(zeros, |i: int| DIGIT_0)) == 0,
    decreases zeros,
{
    if zeros > 0 {
        lemma_zeros_are_zero((zeros - 1) as nat);
        assert(Seq::new(zeros, |i: int| DIGIT_0).drop_last() =~= Seq::new(
            (zeros - 1) as nat,
            |i: int| DIGIT_0,
        ));
    }
}

/// Writes `n` in decimal.
pub fn decimal(n: u64) -> (digits: Vec<u8>)
    ensures
        digits@ == decimal_digits(n as nat),
{
    let mut reversed: Vec<u8> = Vec::new();
    let mut rest = n;
    while rest >= 10
        invariant
            decimal_digits(n as nat) == decimal_digits(rest as nat) + reversed@.reverse(),
        decreases rest,
    {
        let digit = (rest % 10) as u8 + 0x30;
        let ghost before = reversed@;
        reversed.push(digit);
        proof {
            assert(reversed@.reverse() =~= seq![digit] + before.reverse());
            assert(decimal_digits(rest as nat) == decimal_digits((rest / 10) as nat).push(digit));
            assert(decimal_digits((rest / 10) as nat).push(digit) + before.reverse()
                =~= decimal_digits((rest / 10) as nat) + (seq![digit] + before.reverse()));
        }
        rest = rest / 10;
    }
    let mut digits: Vec<u8> = Vec::new();
    digits.push(rest as u8 + 0x30);
    let mut i: usize = reversed.len();
    while i > 0
        invariant
            i <= reversed.len(),
            rest < 10,
            digits@ == decimal_digits(rest as nat) + reversed@.reverse().take(reversed.len() - i),
        decreases i,
    {
        i -= 1;
        let ghost before = digits@;
        digits.push(reversed[i]);
        proof {
            let r = reversed@.reverse();
            assert(r[reversed.len() - 1 - i] == reversed@[i as int]);
            assert(r.take(reversed.len() - i) =~= r.take(reversed.len() - i - 1).push(
                reversed@[i as int],
            ));
            assert(digits@ =~= decimal_digits(rest as nat) + r.take(reversed.len() - i));
        }
    }
    proof {
        assert(reversed@.reverse().take(reversed.len() as int) =~= reversed@.reverse());
    }
    digits
}

/// The text of a string of ASCII bytes.
pub fn ascii_string(bytes: &Vec<u8>) -> (text: String)
    ensures
        text@ == ascii_text(bytes@),
{
    let mut text = String::new();
    let mut i: usize = 0;
    while i < bytes.len()
        invariant
            i <= bytes.len(),
            text@ == ascii_text(bytes@.take(i as int)),
        decreases bytes.len() - i,
    {
        push_char(&mut text, bytes[i] as char);
        proof {
            assert(bytes@.take(i + 1) =~= bytes@.take(i as int).push(bytes[i as int]));
            assert(ascii_text(bytes@.take(i + 1)) =~= ascii_text(bytes@.take(i as int)).push(
                ascii_char(bytes[i as int]),
            ));
        }
        i += 1;
    }
    proof {
        assert(bytes@.take(i as int) =~= bytes@);
    }
    text
}

/// Whether the bytes of `token`, each read as one character, spell `text`.
pub fn is_text(token: &Vec<u8>, text: &str) -> (same: bool)
    ensures
        same == (ascii_text(token@) == text@),
{
    let len = text.unicode_len();
    if token.len() != len {
        return false;
    }
    let mut i: usize = 0;
    while i < len
        invariant
            i <= len,
            len == text@.len(),
            token.len() == len,
            forall|j: int| 0 <= j < i ==> ascii_char(token[j]) == text@[j],
        decreases len - i,
    {
        if token[i] as char != text.get_char(i) {
            assert(ascii_text(token@)[i as int] != text@[i as int]);
            return false;
        }
        i += 1;
    }
    assert(ascii_text(token@) =~= text@);
    true
}

/// The number that a run of decimal digits writes, most significant first.
pub open spec fn decimal_value(digits: Seq<u8>) -> nat
    decreases digits.len(),
{
    if digits.len() == 0 {
        0
    } else {
        decimal_value(digits.drop_last()) * 10 + (digits.last() - DIGIT_0) as nat
    }
}

/// The digits of an unsigned decimal number: `text` without one leading `+`,
/// where what is left is at least one digit and nothing but digits.
pub open spec fn unsigned_digits(text: Seq<u8>) -> Option<Seq<u8>> {
    let digits = if text.len() > 0 && text[0] == PLUS {
        text.skip(1)
    } else {
        text
    };
    if digits.len() > 0 && all_digits(digits) {
        Some(digits)
    } else {
        None
    }
}

/// The number that `text` writes, if it writes one that fits.
pub open spec fn unsigned_value(text: Seq<u8>) -> Option<usize> {
    match unsigned_digits(text) {
        Some(digits) => if decimal_value(digits) <= usize::MAX {
            Some(decimal_value(digits) as usize)
        } else {
            None
        },
        None => None,
    }
}

/// A number never gets smaller when digits are appended to it.
proof fn lemma_decimal_value_grows(digits: Seq<u8>, k: int)
    requires
        0 <= k <= digits.len(),
        all_digits(digits),
    ensures
        decimal_value(digits.take(k)) <= decimal_value(digits),
    decreases digits.len() - k,
{
    if k == digits.len() {
        assert(digits.take(k) =~= digits);
    } else {
        lemma_decimal_value_grows(digits, k + 1);
        assert(digits.take(k + 1).drop_last() =~= digits.take(k));
        assert(is_digit(digits[k]));
        assert(digits.take(k + 1).last() == digits[k]);
    }
}

/// Reads an unsigned decimal number: an optional `+`, then decimal digits
/// and nothing else. A number too large for the machine, or any other text,
/// gives `None`.
pub fn parse_unsigned(text: &Vec<u8>) -> (value: Option<usize>)
    ensures
        value == unsigned_value(text@),
{
    let start: usize = if text.len() > 0 && text[0] == PLUS {
        1
    } else {
        0
    };
    if start == text.len() {
        return None;
    }
    let ghost digits = text@.skip(start as int);
    assert(text@.skip(0) =~= text@);
    let mut value: usize = 0;
    let mut i: usize = start;
    while i < text.len()
        invariant
            start <= i <= text.len(),
            digits == text@.skip(start as int),
            unsigned_digits(text@) == if all_digits(digits) {
                Some(digits)
            } else {
                None
            },
            forall|j: int| 0 <= j < i - start ==> is_digit(#[trigger] digits[j]),
            value == decimal_value(digits.take(i - start)),
        decreases text.len() - i,
    {
        let byte = text[i];
        if byte < DIGIT_0 || byte > DIGIT_9 {
            assert(digits[i - start] == byte);
            return None;
        }
        let ghost next = decimal_value(digits.take(i - start + 1));
        proof {
            assert(digits.take(i - start + 1).drop_last() =~= digits.take(i - start));
            assert(digits.take(i - start + 1).last() == byte);
            assert(next == value * 10 + (byte - DIGIT_0));
            if all_digits(digits) {
                lemma_decimal_value_grows(digits, i - start + 1);
            }
        }
        let scaled = match value.checked_mul(10) {
            Some(scaled) => scaled,
            None => {
                return None;
            },
        };
        value = match scaled.checked_add((byte - DIGIT_0) as usize) {
            Some(sum) => sum,
            None => {
                return None;
            },
        };
        i += 1;
    }
    proof {
        assert(digits.take(i - start) =~= digits);
        assert(all_digits(digits));
    }
    Some(value)
}


/// Whether two texts are the same.
pub fn same_text(left: &str, right: &str) -> (same: bool)
    ensures
        same == (left@ == right@),
{
    let len = left.unicode_len();
    if right.unicode_len() != len {
        return false;
    }
    let mut i: usize = 0;
    while i < len
        invariant
            i <= len,
            len == left@.len(),
            len == right@.len(),
            forall|j: int| 0 <= j < i ==> left@[j] == right@[j],
        decreases len - i,
    {
        if left.get_char(i) != right.get_char(i) {
            return false;
        }
        i += 1;
    }
    assert(left@ =~= right@);
    true
}

/// The bytes of a text of ASCII characters; `None` where a character is
/// not ASCII.
pub fn ascii_bytes(text: &str) -> (bytes: Option<Vec<u8>>)
    ensures
        match bytes {
            Some(bytes) => ascii_text(bytes@) == text@ && forall|i: int|
                0 <= i < bytes@.len() ==> (#[trigger] bytes@[i]) < 0x80,
            None => exists|i: int| 0 <= i < text@.len() && text@[i] as u32 >= 0x80,
        },
{
    let len = text.unicode_len();
    let mut bytes: Vec<u8> = Vec::new();
    let mut i: usize = 0;
    while i < len
        invariant
            i <= len,
            len == text@.len(),
            bytes@.len() == i,
            forall|j: int|
                0 <= j < i ==> (#[trigger] bytes@[j]) < 0x80 && ascii_char(bytes@[j]) == text@[j],
        decreases len - i,
    {
        let c = text.get_char(i);
        if c as u32 >= 0x80 {
            return None;
        }
        let byte = c as u8;
        assert(byte as char == c);
        assert(byte < 0x80);
        bytes.push(byte);
        i += 1;
    }
    assert(ascii_text(bytes@) =~= text@);
    Some(bytes)
}

/// The number that `text` writes, if it writes one that fits: an optional
/// sign, then decimal digits and nothing else.
pub open spec fn signed_value(text: Seq<u8>) -> Option<i32> {
    if text.len() > 0 && text[0] == MINUS {
        let digits = text.skip(1);
        if digits.len() > 0 && all_digits(digits) && decimal_value(digits) <= 0x8000_0000 {
            Some((-decimal_value(digits)) as i32)
        } else {
            None
        }
    } else {
        match unsigned_digits(text) {
            Some(digits) => if decimal_value(digits) <= i32::MAX {
                Some(decimal_value(digits) as i32)
            } else {
                None
            },
            None => None,
        }
    }
}

/// Reads a signed decimal number.
pub fn parse_signed(text: &Vec<u8>) -> (value: Option<i32>)
    ensures
        value == signed_value(text@),
{
    if text.len() > 0 && text[0] == MINUS {
        let mut digits: Vec<u8> = Vec::new();
        let mut i: usize = 1;
        while i < text.len()
            invariant
                1 <= i <= text.len(),
                digits@ == text@.subrange(1, i as int),
            decreases text.len() - i,
        {
            digits.push(text[i]);
            assert(text@.subrange(1, i + 1) =~= text@.subrange(1, i as int).push(text[i as int]));
            i += 1;
        }
        assert(digits@ =~= text@.skip(1));
        if digits.len() == 0 || digits[0] == PLUS {
            assert(digits.len() > 0 ==> !is_digit(digits@[0]));
            return None;
        }
        assert(digits@.skip(0) =~= digits@);
        match parse_unsigned(&digits) {
            Some(magnitude) => if magnitude <= 0x8000_0000 {
                if magnitude == 0x8000_0000 {
                    Some(i32::MIN)
                } else {
                    Some(-(magnitude as i32))
                }
            } else {
                None
            },
            None => None,
        }
    } else {
        match parse_unsigned(text) {
            Some(magnitude) => if magnitude <= 0x7fff_ffff {
                Some(magnitude as i32)
            } else {
                None
            },
            None => None,
        }
    }
}

/// The upper-case form of a text, as `str::to_uppercase` gives it.
pub uninterp spec fn uppercased(text: Seq<char>) -> Seq<char>;

/// The lower-case form of a text, as `str::to_lowercase` gives it.
pub uninterp spec fn lowercased(text: Seq<char>) -> Seq<char>;

/// Whether `part` stands somewhere in `whole`, character for character.
pub open spec fn is_part(whole: Seq<char>, part: Seq<char>) -> bool {
    exists|i: int|
        0 <= i <= whole.len() - part.len() && #[trigger] whole.subrange(i, i + part.len()) == part
}

/// The upper-case form of a text.
///
/// Trusted: this is `str::to_uppercase` of the standard library; its result
/// is named by [`uppercased`].
#[verifier::external_body]
pub(crate) fn to_upper_text(text: &str) -> (upper: String)
    ensures
        upper@ == uppercased(text@),
{
    text.to_uppercase()
}

/// The lower-case form of a text.
///
/// Trusted: this is `str::to_lowercase` of the standard library; its result
/// is named by [`lowercased`].
#[verifier::external_body]
pub(crate) fn to_lower_text(text: &str) -> (lower: String)
    ensures
        lower@ == lowercased(text@),
{
    text.to_lowercase()
}

/// Whether `part` stands in `whole` at the place `at`.
fn stands_at(whole: &str, part: &str, at: usize) -> (same: bool)
    requires
        at + part@.len() <= whole@.len(),
    ensures
        same == (whole@.subrange(at as int, at + part@.len()) == part@),
{
    let len = part.unicode_len();
    let whole_len = whole.unicode_len();
    let ghost cut = whole@.subrange(at as int, at + part@.len());
    let mut k: usize = 0;
    while k < len
        invariant
            k <= len,
            len == part@.len(),
            whole_len == whole@.len(),
            at + len <= whole_len,
            cut == whole@.subrange(at as int, at + part@.len()),
            forall|j: int| 0 <= j < k ==> cut[j] == part@[j],
        decreases len - k,
    {
        if whole.get_char(at + k) != part.get_char(k) {
            assert(cut[k as int] != part@[k as int]);
            return false;
        }
        k += 1;
    }
    assert(cut =~= part@);
    true
}

/// Whether `part` stands somewhere in `whole`.
pub(crate) fn contains_text(whole: &str, part: &str) -> (found: bool)
    ensures
        found == is_part(whole@, part@),
{
    let len = whole.unicode_len();
    let part_len = part.unicode_len();
    if part_len > len {
        return false;
    }
    let last = len - part_len;
    let mut at: usize = 0;
    loop
        invariant
            at <= last,
            last == whole@.len() - part@.len(),
            forall|i: int|
                0 <= i < at ==> #[trigger] whole@.subrange(i, i + part@.len()) != part@,
        decreases last - at,
    {
        if stands_at(whole, part, at) {
            return true;
        }
        if at == last {
            return false;
        }
        at += 1;
    }
}

/// `n` in decimal, with a minus sign where it is negative.
pub open spec fn signed_digits(n: int) -> Seq<u8> {
    if n < 0 {
        seq![MINUS] + decimal_digits((-n) as nat)
    } else {
        decimal_digits(n as nat)
    }
}

/// Writes `n` in decimal.
pub fn signed_decimal(n: i32) -> (digits: Vec<u8>)
    ensures
        digits@ == signed_digits(n as int),
{
    if n < 0 {
        let magnitude = decimal((-(n as i64)) as u64);
        let mut digits: Vec<u8> = Vec::new();
        digits.push(MINUS);
        let mut i: usize = 0;
        while i < magnitude.len()
            invariant
                i <= magnitude.len(),
                digits@ == seq![MINUS] + magnitude@.take(i as int),
            decreases magnitude.len() - i,
        {
            digits.push(magnitude[i]);
            assert(seq![MINUS] + magnitude@.take(i + 1) =~= (seq![MINUS]
                + magnitude@.take(i as int)).push(magnitude[i as int]));
            i += 1;
        }
        assert(magnitude@.take(i as int) =~= magnitude@);
        digits
    } else {
        decimal(n as u64)
    }
}

} // verus!
