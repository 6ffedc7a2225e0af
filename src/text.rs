use vstd::prelude::*;

verus! {

/// Largest decimal value that `decimal_value` reads exactly.
pub const DECIMAL_LIMIT: i64 = 1_000_000_000_000;

pub open spec fn is_digit(c: char) -> bool {
    '0' <= c <= '9'
}

pub open spec fn is_ascii_letter(c: char) -> bool {
    ('a' <= c <= 'z') || ('A' <= c <= 'Z')
}

pub open spec fn digit_value(c: char) -> int {
    c as int - '0' as int
}

/// Value of a string of decimal digits (most significant first).
pub open spec fn digits_value(s: Seq<char>) -> int
    decreases s.len(),
{
    if s.len() == 0 {
        0
    } else {
        digits_value(s.drop_last()) * 10 + digit_value(s.last())
    }
}

pub open spec fn all_digits(s: Seq<char>) -> bool {
    forall|i: int| 0 <= i < s.len() ==> is_digit(#[trigger] s[i])
}

/// Length of the run of digits that starts at `from`.
pub open spec fn digit_run(s: Seq<char>, from: int) -> int
    decreases s.len() - from,
{
    if from < 0 || from >= s.len() || !is_digit(s[from]) {
        0
    } else {
        1 + digit_run(s, from + 1)
    }
}

pub fn is_digit_char(c: char) -> (r: bool)
    ensures
        r == is_digit(c),
{
    '0' <= c && c <= '9'
}

pub fn is_letter_char(c: char) -> (r: bool)
    ensures
        r == is_ascii_letter(c),
{
    ('a' <= c && c <= 'z') || ('A' <= c && c <= 'Z')
}

proof fn lemma_digit_run_facts(s: Seq<char>, from: int)
    requires
        0 <= from,
    ensures
        0 <= digit_run(s, from),
        from + digit_run(s, from) <= s.len() || digit_run(s, from) == 0,
        forall|i: int| from <= i < from + digit_run(s, from) ==> is_digit(#[trigger] s[i]),
        from + digit_run(s, from) < s.len() ==> !is_digit(s[from + digit_run(s, from)]),
    decreases s.len() - from,
{
    if from < s.len() && is_digit(s[from]) {
        lemma_digit_run_facts(s, from + 1);
    }
}

/// The length of the run of digits that starts at `from`.
pub fn digit_run_at(s: &str, from: usize) -> (r: usize)
    requires
        from <= s@.len(),
    ensures
        r == digit_run(s@, from as int),
        from + r <= s@.len(),
        all_digits(s@.subrange(from as int, from + r)),
        from + r < s@.len() ==> !is_digit(s@[from + r]),
{
    let len = s.unicode_len();
    let mut i = from;
    while i < len && is_digit_char(s.get_char(i))
        invariant
            from <= i <= len,
            len == s@.len(),
            digit_run(s@, from as int) == (i - from) + digit_run(s@, i as int),
            forall|j: int| from <= j < i ==> is_digit(#[trigger] s@[j]),
        decreases len - i,
    {
        i = i + 1;
    }
    proof {
        lemma_digit_run_facts(s@, from as int);
    }
    i - from
}

proof fn lemma_digits_value_nonneg(s: Seq<char>)
    requires
        all_digits(s),
    ensures
        0 <= digits_value(s),
    decreases s.len(),
{
    if s.len() > 0 {
        assert(all_digits(s.drop_last())) by {
            assert forall|i: int| 0 <= i < s.drop_last().len() implies is_digit(
                #[trigger] s.drop_last()[i],
            ) by {
                assert(s.drop_last()[i] == s[i]);
            }
        }
        lemma_digits_value_nonneg(s.drop_last());
        assert(is_digit(s[s.len() - 1]));
    }
}

proof fn lemma_digits_value_monotone(s: Seq<char>, i: int, j: int)
    requires
        0 <= i <= j <= s.len(),
        all_digits(s),
    ensures
        digits_value(s.subrange(0, i)) <= digits_value(s.subrange(0, j)),
    decreases j - i,
{
    if i < j {
        lemma_digits_value_monotone(s, i, j - 1);
        assert(s.subrange(0, j).drop_last() =~= s.subrange(0, j - 1));
        let p = s.subrange(0, j - 1);
        assert(all_digits(p)) by {
            assert forall|k: int| 0 <= k < p.len() implies is_digit(#[trigger] p[k]) by {
                assert(p[k] == s[k]);
            }
        }
        lemma_digits_value_nonneg(p);
        assert(is_digit(s[j - 1]));
    }
}

/// Reads the digits `s[from..to]` as a decimal number; `None` when the value
/// exceeds `DECIMAL_LIMIT`.
pub fn decimal_value(s: &str, from: usize, to: usize) -> (r: Option<i64>)
    requires
        from <= to <= s@.len(),
        all_digits(s@.subrange(from as int, to as int)),
    ensures
        r is Some <==> digits_value(s@.subrange(from as int, to as int)) <= DECIMAL_LIMIT,
        r matches Some(v) ==> v == digits_value(s@.subrange(from as int, to as int)) && 0 <= v
            <= DECIMAL_LIMIT,
{
    let ghost digits = s@.subrange(from as int, to as int);
    let mut acc: i64 = 0;
    let mut i = from;
    while i < to
        invariant
            from <= i <= to <= s@.len(),
            digits == s@.subrange(from as int, to as int),
            all_digits(digits),
            acc == digits_value(digits.subrange(0, i - from)),
            0 <= acc <= DECIMAL_LIMIT,
        decreases to - i,
    {
        let c = s.get_char(i);
        assert(c == digits[i - from]);
        assert(is_digit(digits[i - from]));
        assert(digits.subrange(0, i - from + 1).drop_last() =~= digits.subrange(0, i - from));
        let d = (c as u32 - '0' as u32) as i64;
        let next = acc * 10 + d;
        if next > DECIMAL_LIMIT {
            proof {
                lemma_digits_value_monotone(digits, i - from + 1, digits.len() as int);
                assert(digits.subrange(0, digits.len() as int) =~= digits);
            }
            return None;
        }
        acc = next;
        i = i + 1;
    }
    assert(digits.subrange(0, to - from) =~= digits);
    Some(acc)
}


/// A run of at most four digits has a value below ten to its length.
pub proof fn lemma_small_digits_value(s: Seq<char>)
    requires
        s.len() <= 4,
        all_digits(s),
    ensures
        0 <= digits_value(s),
        s.len() == 0 ==> digits_value(s) == 0,
        s.len() <= 1 ==> digits_value(s) < 10,
        s.len() <= 2 ==> digits_value(s) < 100,
        s.len() <= 3 ==> digits_value(s) < 1000,
        digits_value(s) < 10_000,
    decreases s.len(),
{
    if s.len() > 0 {
        let p = s.drop_last();
        assert(all_digits(p)) by {
            assert forall|i: int| 0 <= i < p.len() implies is_digit(#[trigger] p[i]) by {
                assert(p[i] == s[i]);
            }
        }
        lemma_small_digits_value(p);
        assert(is_digit(s[s.len() - 1]));
    }
}

/// A part of an all-digit range is all digits.
pub proof fn lemma_all_digits_subrange(s: Seq<char>, from: int, to: int, i: int, j: int)
    requires
        0 <= from <= i <= j <= to <= s.len(),
        all_digits(s.subrange(from, to)),
    ensures
        all_digits(s.subrange(i, j)),
{
    assert forall|k: int| 0 <= k < j - i implies is_digit(#[trigger] s.subrange(i, j)[k]) by {
        assert(s.subrange(i, j)[k] == s.subrange(from, to)[k + i - from]);
    }
}

} // verus!
