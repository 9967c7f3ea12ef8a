//! Text as the listings and symbol names need it: numbers written out in
//! decimal and hexadecimal, and names taken apart again.

use vstd::prelude::*;

verus! {

pub assume_specification[ String::push ](text: &mut String, c: char)
    ensures
        final(text)@ == old(text)@.push(c),
;

/// The character of the digit `d` in a base up to sixteen, with capitals
/// for ten and above.
pub open spec fn digit_char(d: int) -> char {
    if d < 10 {
        (48 + d) as u8 as char
    } else {
        (55 + d) as u8 as char
    }
}

/// The character of the digit `d`.
pub fn digit(d: u8) -> (r: char)
    requires
        d < 16,
    ensures
        r == digit_char(d as int),
{
    if d < 10 {
        (48 + d) as char
    } else {
        (55 + d) as char
    }
}

/// The digits of `n` in decimal, without leading zeros.
pub open spec fn decimal_digits(n: nat) -> Seq<char>
    decreases n,
{
    if n < 10 {
        seq![digit_char(n as int)]
    } else {
        decimal_digits(n / 10).push(digit_char((n % 10) as int))
    }
}

/// The last `width` digits of `n` in hexadecimal, with leading zeros.
pub open spec fn hex_digits(n: nat, width: nat) -> Seq<char>
    decreases width,
{
    if width == 0 {
        Seq::empty()
    } else {
        hex_digits(n / 16, (width - 1) as nat).push(digit_char((n % 16) as int))
    }
}

/// The digits of `n` in hexadecimal, without leading zeros.
pub open spec fn hex_plain(n: nat) -> Seq<char>
    decreases n,
{
    if n < 16 {
        seq![digit_char(n as int)]
    } else {
        hex_plain(n / 16).push(digit_char((n % 16) as int))
    }
}

/// `count` copies of `c`.
pub open spec fn repeated(c: char, count: nat) -> Seq<char> {
    Seq::new(count, |i: int| c)
}

/// The number that `digits` spells in decimal: `None` for an empty run and
/// for one that holds anything but the digits `0` to `9`.
pub open spec fn decimal_value(digits: Seq<char>) -> Option<nat>
    decreases digits.len(),
{
    if digits.len() == 0 {
        None
    } else if !('0' <= digits.last() <= '9') {
        None
    } else if digits.len() == 1 {
        Some((digits.last() as u32 - 48) as nat)
    } else {
        match decimal_value(digits.drop_last()) {
            Some(high) => Some(high * 10 + (digits.last() as u32 - 48) as nat),
            None => None,
        }
    }
}

/// The value of the hexadecimal digit `c`, in either case.
pub open spec fn hex_digit_value(c: char) -> Option<nat> {
    if '0' <= c <= '9' {
        Some((c as u32 - 48) as nat)
    } else if 'A' <= c <= 'F' {
        Some((c as u32 - 55) as nat)
    } else if 'a' <= c <= 'f' {
        Some((c as u32 - 87) as nat)
    } else {
        None
    }
}

/// The number that `digits` spells in hexadecimal: `None` for an empty run
/// and for one that holds anything but hexadecimal digits.
pub open spec fn hex_value(digits: Seq<char>) -> Option<nat>
    decreases digits.len(),
{
    if digits.len() == 0 {
        None
    } else {
        match hex_digit_value(digits.last()) {
            None => None,
            Some(low) => if digits.len() == 1 {
                Some(low)
            } else {
                match hex_value(digits.drop_last()) {
                    Some(high) => Some(high * 16 + low),
                    None => None,
                }
            },
        }
    }
}

/// Writes `n` in decimal behind `text`.
pub fn push_decimal(text: &mut String, n: usize)
    ensures
        final(text)@ == old(text)@ + decimal_digits(n as nat),
    decreases n,
{
    if n >= 10 {
        push_decimal(text, n / 10);
    }
    text.push(digit((n % 10) as u8));
    proof {
        if n >= 10 {
            assert(final(text)@ =~= old(text)@ + decimal_digits(n as nat));
        } else {
            assert(final(text)@ =~= old(text)@ + decimal_digits(n as nat));
        }
    }
}

/// Writes the last `width` digits of `n` in hexadecimal behind `text`.
pub fn push_hex(text: &mut String, n: u64, width: usize)
    ensures
        final(text)@ == old(text)@ + hex_digits(n as nat, width as nat),
    decreases width,
{
    if width > 0 {
        push_hex(text, n / 16, width - 1);
        text.push(digit((n % 16) as u8));
    }
    proof {
        assert(final(text)@ =~= old(text)@ + hex_digits(n as nat, width as nat));
    }
}

/// Writes `n` in hexadecimal behind `text`, without leading zeros.
pub fn push_hex_plain(text: &mut String, n: u64)
    ensures
        final(text)@ == old(text)@ + hex_plain(n as nat),
    decreases n,
{
    if n >= 16 {
        push_hex_plain(text, n / 16);
    }
    text.push(digit((n % 16) as u8));
    proof {
        assert(final(text)@ =~= old(text)@ + hex_plain(n as nat));
    }
}

/// Writes `count` copies of `c` behind `text`.
pub fn push_repeated(text: &mut String, c: char, count: usize)
    ensures
        final(text)@ == old(text)@ + repeated(c, count as nat),
{
    let mut i: usize = 0;
    while i < count
        invariant
            i <= count,
            text@ == old(text)@ + repeated(c, i as nat),
        decreases count - i,
    {
        text.push(c);
        i += 1;
        proof {
            assert(text@ =~= old(text)@ + repeated(c, i as nat));
        }
    }
}

/// `bytes` as text, each byte as the character with its number.
pub open spec fn byte_chars(bytes: Seq<u8>) -> Seq<char> {
    Seq::new(bytes.len(), |i: int| bytes[i] as char)
}

/// Writes `bytes` behind `text`, each byte as the character with its
/// number.
pub fn push_bytes(text: &mut String, bytes: &[u8])
    ensures
        final(text)@ == old(text)@ + byte_chars(bytes@),
{
    let mut i: usize = 0;
    proof {
        assert(text@ =~= old(text)@ + byte_chars(bytes@.take(0)));
    }
    while i < bytes.len()
        invariant
            i <= bytes@.len(),
            text@ == old(text)@ + byte_chars(bytes@.take(i as int)),
        decreases bytes@.len() - i,
    {
        text.push(bytes[i] as char);
        i += 1;
        proof {
            assert(text@ =~= old(text)@ + byte_chars(bytes@.take(i as int)));
        }
    }
    proof {
        assert(bytes@.take(bytes@.len() as int) =~= bytes@);
    }
}

/// Writes `other` behind `text`.
pub fn push_text(text: &mut String, other: &str)
    ensures
        final(text)@ == old(text)@ + other@,
{
    let length = other.unicode_len();
    let mut i: usize = 0;
    while i < length
        invariant
            i <= length,
            length == other@.len(),
            text@ == old(text)@ + other@.take(i as int),
        decreases length - i,
    {
        text.push(other.get_char(i));
        i += 1;
        proof {
            assert(text@ =~= old(text)@ + other@.take(i as int));
        }
    }
    proof {
        assert(other@.take(length as int) =~= other@);
    }
}

/// Index of the first `c` in `text` at or behind `from`, or the length of
/// `text` where there is none.
pub open spec fn first_index(text: Seq<char>, c: char, from: int) -> int
    decreases text.len() - from,
{
    if from < 0 || from >= text.len() {
        text.len() as int
    } else if text[from] == c {
        from
    } else {
        first_index(text, c, from + 1)
    }
}

/// Index of the first `c` in `text`, or the length of `text` where there
/// is none.
pub fn find_char(text: &str, c: char) -> (r: usize)
    ensures
        r == first_index(text@, c, 0),
        r <= text@.len(),
{
    let length = text.unicode_len();
    let mut i: usize = 0;
    while i < length
        invariant
            i <= length,
            length == text@.len(),
            first_index(text@, c, i as int) == first_index(text@, c, 0),
        decreases length - i,
    {
        if text.get_char(i) == c {
            return i;
        }
        i += 1;
    }
    length
}

/// The part of `text` from `from` up to `to`.
pub fn part(text: &str, from: usize, to: usize) -> (r: String)
    requires
        from <= to <= text@.len(),
    ensures
        r@ == text@.subrange(from as int, to as int),
{
    let mut out = String::new();
    let mut i: usize = from;
    while i < to
        invariant
            from <= i <= to <= text@.len(),
            out@ == text@.subrange(from as int, i as int),
        decreases to - i,
    {
        out.push(text.get_char(i));
        i += 1;
        proof {
            assert(out@ =~= text@.subrange(from as int, i as int));
        }
    }
    out
}

/// Whether two texts hold the same characters.
pub fn same_text(a: &str, b: &str) -> (r: bool)
    ensures
        r == (a@ == b@),
{
    let length = a.unicode_len();
    if b.unicode_len() != length {
        return false;
    }
    let mut i: usize = 0;
    while i < length
        invariant
            i <= length,
            length == a@.len(),
            length == b@.len(),
            a@.take(i as int) == b@.take(i as int),
        decreases length - i,
    {
        if a.get_char(i) != b.get_char(i) {
            return false;
        }
        i += 1;
        proof {
            assert(a@.take(i as int) =~= a@.take(i - 1).push(a@[i - 1]));
            assert(b@.take(i as int) =~= b@.take(i - 1).push(b@[i - 1]));
        }
    }
    proof {
        assert(a@.take(length as int) =~= a@);
        assert(b@.take(length as int) =~= b@);
    }
    true
}

/// Whether `text` begins with `prefix`.
pub fn has_prefix(text: &str, prefix: &str) -> (r: bool)
    ensures
        r == (prefix@.len() <= text@.len() && text@.take(prefix@.len() as int) == prefix@),
{
    let length = prefix.unicode_len();
    if text.unicode_len() < length {
        return false;
    }
    let mut i: usize = 0;
    while i < length
        invariant
            i <= length,
            length == prefix@.len(),
            length <= text@.len(),
            text@.take(i as int) == prefix@.take(i as int),
        decreases length - i,
    {
        if text.get_char(i) != prefix.get_char(i) {
            proof {
                if text@.take(length as int) == prefix@ {
                    assert(text@.take(length as int)[i as int] == prefix@[i as int]);
                }
            }
            return false;
        }
        i += 1;
        proof {
            assert(text@.take(i as int) =~= text@.take(i - 1).push(text@[i - 1]));
            assert(prefix@.take(i as int) =~= prefix@.take(i - 1).push(prefix@[i - 1]));
        }
    }
    proof {
        assert(prefix@.take(length as int) =~= prefix@);
    }
    true
}

/// Reads the decimal number that `text` spells from position `from` to its
/// end. `None` where that part is empty, holds anything but digits, or spells
/// a number too large for the machine.
pub fn parse_decimal(text: &str, from: usize) -> (r: Option<usize>)
    requires
        from <= text@.len(),
    ensures
        match r {
            Some(n) => decimal_value(text@.skip(from as int)) == Some(n as nat),
            None => match decimal_value(text@.skip(from as int)) {
                Some(n) => n > usize::MAX,
                None => true,
            },
        },
{
    let length = text.unicode_len();
    if from >= length {
        return None;
    }
    let ghost digits = text@.skip(from as int);
    let mut value: usize = 0;
    let mut i: usize = from;
    while i < length
        invariant
            from <= i <= length,
            from < length,
            length == text@.len(),
            digits == text@.skip(from as int),
            i > from ==> decimal_value(digits.take(i - from)) == Some(value as nat),
        decreases length - i,
    {
        let c = text.get_char(i);
        proof {
            assert(digits.take(i - from + 1).drop_last() =~= digits.take(i - from));
            assert(digits.take(i - from + 1).last() == c);
        }
        if !('0' <= c && c <= '9') {
            proof {
                lemma_decimal_value_prefix(digits, i - from + 1);
            }
            return None;
        }
        let d = (c as u32 - 48) as usize;
        let next = if i == from {
            Some(d)
        } else {
            match value.checked_mul(10) {
                Some(shifted) => shifted.checked_add(d),
                None => None,
            }
        };
        match next {
            Some(n) => {
                value = n;
            },
            None => {
                proof {
                    lemma_decimal_value_grows(digits, i - from + 1);
                }
                return None;
            },
        }
        i += 1;
    }
    proof {
        assert(digits.take(length - from) =~= digits);
    }
    Some(value)
}

/// The value of the hexadecimal digit `c`.
pub fn hex_digit(c: char) -> (r: Option<u8>)
    ensures
        match r {
            Some(d) => hex_digit_value(c) == Some(d as nat) && d < 16,
            None => hex_digit_value(c) is None,
        },
{
    if '0' <= c && c <= '9' {
        Some((c as u32 - 48) as u8)
    } else if 'A' <= c && c <= 'F' {
        Some((c as u32 - 55) as u8)
    } else if 'a' <= c && c <= 'f' {
        Some((c as u32 - 87) as u8)
    } else {
        None
    }
}

/// Reads the hexadecimal number that `text` spells. `None` where the text
/// is empty, holds anything but hexadecimal digits, or spells a number of
/// more than 64 bits.
pub fn parse_hex(text: &str) -> (r: Option<u64>)
    ensures
        match r {
            Some(n) => hex_value(text@) == Some(n as nat),
            None => match hex_value(text@) {
                Some(n) => n > u64::MAX,
                None => true,
            },
        },
{
    let length = text.unicode_len();
    if length == 0 {
        return None;
    }
    let mut value: u64 = 0;
    let mut i: usize = 0;
    while i < length
        invariant
            i <= length,
            0 < length == text@.len(),
            i > 0 ==> hex_value(text@.take(i as int)) == Some(value as nat),
        decreases length - i,
    {
        let c = text.get_char(i);
        proof {
            assert(text@.take(i + 1).drop_last() =~= text@.take(i as int));
            assert(text@.take(i + 1).last() == c);
        }
        let d = match hex_digit(c) {
            Some(d) => d,
            None => {
                proof {
                    lemma_hex_value_prefix(text@, i + 1);
                }
                return None;
            },
        };
        if i > 0 && value > (u64::MAX - d as u64) / 16 {
            proof {
                lemma_hex_value_grows(text@, i + 1);
            }
            return None;
        }
        value = if i == 0 {
            d as u64
        } else {
            value * 16 + d as u64
        };
        i += 1;
    }
    proof {
        assert(text@.take(length as int) =~= text@);
    }
    Some(value)
}

/// A run has a hexadecimal value only if each of its prefixes has one.
pub proof fn lemma_hex_value_prefix(digits: Seq<char>, length: int)
    requires
        1 <= length <= digits.len(),
        hex_value(digits.take(length)) is None,
    ensures
        hex_value(digits) is None,
    decreases digits.len(),
{
    if length < digits.len() {
        assert(digits.drop_last().take(length) =~= digits.take(length));
        lemma_hex_value_prefix(digits.drop_last(), length);
    } else {
        assert(digits.take(length) =~= digits);
    }
}

/// The hexadecimal value of a run is at least the value of each of its
/// prefixes.
pub proof fn lemma_hex_value_grows(digits: Seq<char>, length: int)
    requires
        1 <= length <= digits.len(),
    ensures
        match (hex_value(digits.take(length)), hex_value(digits)) {
            (Some(low), Some(all)) => low <= all,
            (None, Some(_)) => false,
            _ => true,
        },
    decreases digits.len(),
{
    if length < digits.len() {
        assert(digits.drop_last().take(length) =~= digits.take(length));
        lemma_hex_value_grows(digits.drop_last(), length);
    } else {
        assert(digits.take(length) =~= digits);
    }
}

/// A number written in decimal reads back as itself.
pub proof fn lemma_decimal_round_trip(n: nat)
    ensures
        decimal_digits(n).len() >= 1,
        decimal_value(decimal_digits(n)) == Some(n),
    decreases n,
{
    if n >= 10 {
        lemma_decimal_round_trip(n / 10);
        assert(decimal_digits(n).drop_last() =~= decimal_digits(n / 10));
    }
}

/// A run has a value only if each of its prefixes has one.
pub proof fn lemma_decimal_value_prefix(digits: Seq<char>, length: int)
    requires
        1 <= length <= digits.len(),
        decimal_value(digits.take(length)) is None,
    ensures
        decimal_value(digits) is None,
    decreases digits.len(),
{
    if length < digits.len() {
        assert(digits.drop_last().take(length) =~= digits.take(length));
        lemma_decimal_value_prefix(digits.drop_last(), length);
    } else {
        assert(digits.take(length) =~= digits);
    }
}

/// The value of a run is at least the value of each of its prefixes.
pub proof fn lemma_decimal_value_grows(digits: Seq<char>, length: int)
    requires
        1 <= length <= digits.len(),
    ensures
        match (decimal_value(digits.take(length)), decimal_value(digits)) {
            (Some(low), Some(all)) => low <= all,
            (None, Some(_)) => false,
            _ => true,
        },
    decreases digits.len(),
{
    if length < digits.len() {
        assert(digits.drop_last().take(length) =~= digits.take(length));
        lemma_decimal_value_grows(digits.drop_last(), length);
        match (decimal_value(digits.drop_last()), decimal_value(digits)) {
            (Some(high), Some(all)) => {
                assert(all >= high * 10) by (nonlinear_arith)
                    requires
                        all >= high * 10,
                ;
            },
            _ => {},
        }
    } else {
        assert(digits.take(length) =~= digits);
    }
}

} // verus!
