use vstd::prelude::*;

verus! {

/// Why no number could be read.
#[derive(Debug, PartialEq)]
pub enum ReadError {
    /// The source could not be read; holds the reason.
    Io(String),
    /// The first word is not a decimal number that fits in 64 bits.
    ParseInt(String),
}

/// White space among the characters U+0000 to U+00FF, each read from one byte.
pub open spec fn is_space_byte(b: u8) -> bool {
    b == 9 || b == 10 || b == 11 || b == 12 || b == 13 || b == 32 || b == 0x85 || b == 0xA0
}

/// Index of the first byte at or after `i` that is not white space.
pub open spec fn skip_spaces(s: Seq<u8>, i: int) -> int
    decreases s.len() - i,
{
    if i < 0 || i >= s.len() || !is_space_byte(s[i]) {
        i
    } else {
        skip_spaces(s, i + 1)
    }
}

/// Index of the first byte at or after `i` that is white space.
pub open spec fn word_end(s: Seq<u8>, i: int) -> int
    decreases s.len() - i,
{
    if i < 0 || i >= s.len() || is_space_byte(s[i]) {
        i
    } else {
        word_end(s, i + 1)
    }
}

/// The first word of `s`: leading white space skipped, up to the next white space.
pub open spec fn first_word(s: Seq<u8>) -> Seq<u8> {
    s.subrange(skip_spaces(s, 0), word_end(s, skip_spaces(s, 0)))
}

pub open spec fn is_digit_byte(b: u8) -> bool {
    48 <= b <= 57
}

/// Value of a string of decimal digit bytes.
pub open spec fn bytes_value(s: Seq<u8>) -> int
    decreases s.len(),
{
    if s.len() == 0 {
        0
    } else {
        bytes_value(s.drop_last()) * 10 + (s.last() - 48)
    }
}

/// An optional `+` or `-` followed by at least one digit: its value.
pub open spec fn integer_value(t: Seq<u8>) -> Option<int> {
    let a: int = if t.len() > 0 && (t[0] == 43 || t[0] == 45) {
        1
    } else {
        0
    };
    if t.len() > a && forall|i: int| a <= i < t.len() ==> is_digit_byte(#[trigger] t[i]) {
        let v = bytes_value(t.subrange(a, t.len() as int));
        Some(if a == 1 && t[0] == 45 { -v } else { v })
    } else {
        None
    }
}

pub open spec fn fits_i64(x: int) -> bool {
    i64::MIN <= x <= i64::MAX
}

fn is_space(b: u8) -> (r: bool)
    ensures
        r == is_space_byte(b),
{
    b == 9 || b == 10 || b == 11 || b == 12 || b == 13 || b == 32 || b == 0x85 || b == 0xA0
}

/// Reads the first word of `src` as a signed decimal number.
pub fn read_next(src: &[u8]) -> (r: Result<i64, ReadError>)
    ensures
        match integer_value(first_word(src@)) {
            Some(v) => if fits_i64(v) {
                r == Ok::<i64, ReadError>(v as i64)
            } else {
                r is Err && r->Err_0 is ParseInt
            },
            None => r is Err && r->Err_0 is ParseInt,
        },
{
    let len = src.len();
    let mut start: usize = 0;
    while start < len && is_space(src[start])
        invariant
            start <= len,
            len == src@.len(),
            skip_spaces(src@, 0) == skip_spaces(src@, start as int),
        decreases len - start,
    {
        start = start + 1;
    }
    let mut end: usize = start;
    while end < len && !is_space(src[end])
        invariant
            start <= end <= len,
            len == src@.len(),
            start == skip_spaces(src@, 0),
            word_end(src@, start as int) == word_end(src@, end as int),
        decreases len - end,
    {
        end = end + 1;
    }
    let ghost word = src@.subrange(start as int, end as int);
    assert(word == first_word(src@));
    let negative = end > start && src[start] == 45;
    let a: usize = if end > start && (src[start] == 43 || negative) {
        start + 1
    } else {
        start
    };
    assert(a - start == (if word.len() > 0 && (word[0] == 43 || word[0] == 45) {
        1int
    } else {
        0int
    }));
    if a >= end {
        return Err(ReadError::ParseInt(String::from_str("cannot parse integer from empty string")));
    }
    // the value saturates at `cap`, which is already out of range for both signs
    let cap: i128 = 9_223_372_036_854_775_809;
    let mut acc: i128 = 0;
    let mut i = a;
    while i < end
        invariant
            start <= a <= i <= end <= len,
            len == src@.len(),
            word == src@.subrange(start as int, end as int),
            word == first_word(src@),
            a - start == (if word.len() > 0 && (word[0] == 43 || word[0] == 45) {
                1int
            } else {
                0int
            }),
            negative == (a - start == 1 && word[0] == 45),
            cap == 9_223_372_036_854_775_809,
            forall|j: int| a <= j < i ==> is_digit_byte(#[trigger] src@[j]),
            0 <= acc <= cap,
            acc == (if bytes_value(src@.subrange(a as int, i as int)) < cap {
                bytes_value(src@.subrange(a as int, i as int))
            } else {
                cap as int
            }),
        decreases end - i,
    {
        let b = src[i];
        if b < 48 || b > 57 {
            assert(word[i - start] == b);
            assert(!is_digit_byte(word[i - start]));
            return Err(ReadError::ParseInt(String::from_str("invalid digit found in string")));
        }
        assert(src@.subrange(a as int, i + 1).drop_last() =~= src@.subrange(a as int, i as int));
        let next = acc * 10 + (b - 48) as i128;
        acc = if next < cap {
            next
        } else {
            cap
        };
        i = i + 1;
    }
    assert(word.subrange(a - start, word.len() as int) =~= src@.subrange(a as int, end as int));
    let value: i128 = if negative {
        -acc
    } else {
        acc
    };
    if value < i64::MIN as i128 || value > i64::MAX as i128 {
        Err(ReadError::ParseInt(String::from_str("number too large to fit in target type")))
    } else {
        Ok(value as i64)
    }
}

} // verus!
