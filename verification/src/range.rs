use vstd::prelude::*;
use vstd::string::*;

verus! {

/// Why a range string was rejected.
#[derive(Debug, PartialEq, Eq, Clone, Copy)]
pub enum RangeError {
    /// The string holds no `:` separator.
    MissingSeparator,
    /// A bound is empty, holds a non-digit, or does not fit in `usize`.
    InvalidNumber,
}

/// Is `c` a decimal digit?
pub open spec fn is_digit(c: char) -> bool {
    48 <= c as int <= 57
}

/// The value of a digit character; other characters count as zero.
pub open spec fn digit_val(c: char) -> nat {
    if is_digit(c) {
        (c as int - 48) as nat
    } else {
        0
    }
}

/// The value of a digit string read in base ten.
pub open spec fn digits_val(s: Seq<char>) -> nat
    decreases s.len(),
{
    if s.len() == 0 {
        0
    } else {
        digits_val(s.drop_last()) * 10 + digit_val(s.last())
    }
}

/// Is every character of `s` a decimal digit?
pub open spec fn all_digits(s: Seq<char>) -> bool {
    forall|i: int| 0 <= i < s.len() ==> is_digit(s[i])
}

/// Does `s` denote a `usize`: non-empty, digits only, and in range?
pub open spec fn is_usize_num(s: Seq<char>) -> bool {
    s.len() > 0 && all_digits(s) && digits_val(s) <= usize::MAX
}

/// The first index at or after `from` holding `c`, or `s.len()` if
/// there is none.
pub open spec fn find_char(s: Seq<char>, from: int, c: char) -> int
    decreases s.len() - from,
{
    if !(0 <= from < s.len()) {
        s.len() as int
    } else if s[from] == c {
        from
    } else {
        find_char(s, from + 1, c)
    }
}

/// The index of the first `:`.
pub open spec fn range_sep_idx(s: Seq<char>) -> int {
    find_char(s, 0, ':')
}

/// The text before the first `:`.
pub open spec fn start_seg(s: Seq<char>) -> Seq<char> {
    s.subrange(0, range_sep_idx(s))
}

/// The text between the first `:` and the second (or the end).
pub open spec fn end_seg(s: Seq<char>) -> Seq<char> {
    s.subrange(range_sep_idx(s) + 1, find_char(s, range_sep_idx(s) + 1, ':'))
}

/// Is `s` a well-formed range string: a separator is present and
/// both bounds denote `usize` values?
pub open spec fn range_str_wf(s: Seq<char>) -> bool {
    range_sep_idx(s) < s.len() && is_usize_num(start_seg(s)) && is_usize_num(end_seg(s))
}

proof fn lemma_find_char_is(s: Seq<char>, from: int, c: char, i: int)
    requires
        0 <= from <= i <= s.len(),
        forall|j: int| from <= j < i ==> s[j] != c,
        i < s.len() ==> s[i] == c,
    ensures
        find_char(s, from, c) == i,
    decreases i - from,
{
    if from < i {
        lemma_find_char_is(s, from + 1, c, i);
    }
}

proof fn lemma_digits_val_prefix(s: Seq<char>, m: int)
    requires
        0 <= m <= s.len(),
    ensures
        digits_val(s.subrange(0, m)) <= digits_val(s),
    decreases s.len() - m,
{
    if m == s.len() {
        assert(s.subrange(0, m) =~= s);
    } else {
        lemma_digits_val_prefix(s.drop_last(), m);
        assert(s.drop_last().subrange(0, m) =~= s.subrange(0, m));
    }
}

/// Parse the digits of `s` between positions `lo` and `hi` as a
/// `usize`: `Some` exactly when that text is a non-empty, in-range
/// digit string, and then its base-ten value.
fn parse_usize_seg(s: &str, lo: usize, hi: usize) -> (r: Option<usize>)
    requires
        lo <= hi <= s@.len(),
    ensures
        r is Some <==> is_usize_num(s@.subrange(lo as int, hi as int)),
        r is Some ==> r.unwrap() as nat == digits_val(s@.subrange(lo as int, hi as int)),
{
    let ghost seg = s@.subrange(lo as int, hi as int);
    if lo == hi {
        proof {
            assert(!is_usize_num(seg));
        }
        return None;
    }
    let mut val: usize = 0;
    let mut k: usize = lo;
    while k < hi
        invariant
            lo <= k <= hi <= s@.len(),
            seg == s@.subrange(lo as int, hi as int),
            all_digits(s@.subrange(lo as int, k as int)),
            val as nat == digits_val(s@.subrange(lo as int, k as int)),
        decreases hi - k,
    {
        let c = s.get_char(k);
        let cu = c as u32;
        let ghost prefix = s@.subrange(lo as int, k as int);
        let ghost extended = s@.subrange(lo as int, (k + 1) as int);
        proof {
            assert(extended.drop_last() =~= prefix);
            assert(extended.last() == s@[k as int]);
        }
        if cu < 48 || cu > 57 {
            proof {
                assert(!all_digits(seg)) by {
                    assert(seg[k - lo] == s@[k as int]);
                }
            }
            return None;
        }
        let digit = (cu - 48) as usize;
        if val > (usize::MAX - digit) / 10 {
            proof {
                let m = usize::MAX as int;
                assert(val * 10 + digit > m) by (nonlinear_arith)
                    requires
                        val > (m - digit) / 10,
                        0 <= digit <= 9,
                        digit <= m,
                        val >= 0,
                ;
                assert(digits_val(extended) > usize::MAX);
                lemma_digits_val_prefix(seg, k + 1 - lo);
                assert(extended =~= seg.subrange(0, k + 1 - lo));
                assert(!is_usize_num(seg));
            }
            return None;
        }
        proof {
            let m = usize::MAX as int;
            assert(val * 10 + digit <= m) by (nonlinear_arith)
                requires
                    val <= (m - digit) / 10,
                    0 <= digit <= 9,
                    digit <= m,
                    val >= 0,
            ;
        }
        val = val * 10 + digit;
        proof {
            assert(all_digits(extended)) by {
                assert(forall|i: int|
                    0 <= i < extended.len() - 1 ==> extended[i] == prefix[i] && is_digit(
                        prefix[i],
                    ));
            }
            assert(val as nat == digits_val(extended));
        }
        k = k + 1;
    }
    proof {
        assert(s@.subrange(lo as int, k as int) == seg);
        assert(is_usize_num(seg));
    }
    Some(val)
}

/// Find the first `:` at or after `from`, returning `s@.len()` when
/// there is none; agrees with `find_char`.
fn find_colon(s: &str, from: usize) -> (r: usize)
    requires
        from <= s@.len(),
    ensures
        r as int == find_char(s@, from as int, ':'),
        from <= r <= s@.len(),
{
    let n = s.unicode_len();
    let mut i: usize = from;
    while i < n
        invariant
            from <= i <= n,
            n == s@.len(),
            forall|j: int| from <= j < i ==> s@[j] != ':',
        decreases n - i,
    {
        if s.get_char(i) == ':' {
            proof {
                lemma_find_char_is(s@, from as int, ':', i as int);
            }
            return i;
        }
        i = i + 1;
    }
    proof {
        lemma_find_char_is(s@, from as int, ':', n as int);
    }
    n
}

/// Parse a range string of the form `<start>:<end>`: the text before
/// the first `:` and the text between the first and second `:` (or
/// the end) are read as base-ten `usize` values. With no `:` at all
/// the separator is reported missing; with a bound that is empty,
/// non-numeric or out of range, the number is reported invalid.
pub fn parse_range(s: &str) -> (r: Result<(usize, usize), RangeError>)
    ensures
        r is Ok <==> range_str_wf(s@),
        r is Ok ==> r.unwrap().0 as nat == digits_val(start_seg(s@)) && r.unwrap().1 as nat
            == digits_val(end_seg(s@)),
        range_sep_idx(s@) == s@.len() ==> r == Err::<(usize, usize), RangeError>(
            RangeError::MissingSeparator,
        ),
        range_sep_idx(s@) < s@.len() && !range_str_wf(s@) ==> r == Err::<(usize, usize), RangeError>(
            RangeError::InvalidNumber,
        ),
{
    let n = s.unicode_len();
    let sep = find_colon(s, 0);
    if sep == n {
        return Err(RangeError::MissingSeparator);
    }
    let second = find_colon(s, sep + 1);
    let start = match parse_usize_seg(s, 0, sep) {
        Option::Some(v) => v,
        Option::None => {
            return Err(RangeError::InvalidNumber);
        },
    };
    let end = match parse_usize_seg(s, sep + 1, second) {
        Option::Some(v) => v,
        Option::None => {
            return Err(RangeError::InvalidNumber);
        },
    };
    Ok((start, end))
}

} // verus!
