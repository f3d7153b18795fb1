use vstd::prelude::*;
use vstd::string::*;

verus! {

/// The digit character for a value below ten.
pub open spec fn dec_digit(d: nat) -> char {
    if d == 0 {
        '0'
    } else if d == 1 {
        '1'
    } else if d == 2 {
        '2'
    } else if d == 3 {
        '3'
    } else if d == 4 {
        '4'
    } else if d == 5 {
        '5'
    } else if d == 6 {
        '6'
    } else if d == 7 {
        '7'
    } else if d == 8 {
        '8'
    } else {
        '9'
    }
}

/// The decimal representation of `n`, most significant digit first,
/// with no leading zeros (except for `n == 0`, which is "0").
pub open spec fn dec_rep(n: nat) -> Seq<char>
    decreases n,
{
    if n < 10 {
        seq![dec_digit(n)]
    } else {
        dec_rep(n / 10).push(dec_digit(n % 10))
    }
}

/// A run of `k` space characters.
pub open spec fn spaces(k: nat) -> Seq<char> {
    Seq::new(k, |i: int| ' ')
}

/// `s` right-aligned in a field of width 6: too-short text gets
/// spaces on the left, longer text is kept as it is.
pub open spec fn pad_left6(s: Seq<char>) -> Seq<char> {
    if s.len() >= 6 {
        s
    } else {
        spaces((6 - s.len()) as nat) + s
    }
}

/// A numbered output line: the number right-aligned in width 6,
/// a tab, then the line's text.
pub open spec fn numbered_line(n: nat, line: Seq<char>) -> Seq<char> {
    pad_left6(dec_rep(n)) + seq!['\t'] + line
}

fn digit_str(d: u64) -> (s: &'static str)
    requires
        d < 10,
    ensures
        s@ == seq![dec_digit(d as nat)],
{
    proof {
        reveal_strlit("0");
        reveal_strlit("1");
        reveal_strlit("2");
        reveal_strlit("3");
        reveal_strlit("4");
        reveal_strlit("5");
        reveal_strlit("6");
        reveal_strlit("7");
        reveal_strlit("8");
        reveal_strlit("9");
    }
    let s: &'static str = if d == 0 {
        "0"
    } else if d == 1 {
        "1"
    } else if d == 2 {
        "2"
    } else if d == 3 {
        "3"
    } else if d == 4 {
        "4"
    } else if d == 5 {
        "5"
    } else if d == 6 {
        "6"
    } else if d == 7 {
        "7"
    } else if d == 8 {
        "8"
    } else {
        "9"
    };
    proof {
        assert(s@ =~= seq![dec_digit(d as nat)]);
    }
    s
}

/// The decimal representation of `n` as a `String`.
pub fn u64_to_dec(n: u64) -> (s: String)
    ensures
        s@ == dec_rep(n as nat),
    decreases n,
{
    if n < 10 {
        String::from_str(digit_str(n))
    } else {
        let mut s = u64_to_dec(n / 10);
        s.append(digit_str(n % 10));
        s
    }
}

/// Render one numbered output line: `n` right-aligned in a field of
/// width 6, a tab, then the line text.
pub fn format_numbered(n: u64, line: &str) -> (r: String)
    ensures
        r@ == numbered_line(n as nat, line@),
{
    let digits = u64_to_dec(n);
    let dlen = digits.as_str().unicode_len();
    let mut r = String::new();
    let pad: usize = if dlen >= 6 {
        0
    } else {
        6 - dlen
    };
    let mut i: usize = 0;
    while i < pad
        invariant
            i <= pad,
            r@ =~= spaces(i as nat),
        decreases pad - i,
    {
        r.append(" ");
        proof {
            reveal_strlit(" ");
            assert(r@ =~= spaces((i + 1) as nat));
        }
        i = i + 1;
    }
    r.append(digits.as_str());
    proof {
        assert(r@ =~= pad_left6(dec_rep(n as nat)));
    }
    r.append("\t");
    r.append(line);
    proof {
        reveal_strlit("\t");
        assert(r@ =~= numbered_line(n as nat, line@));
    }
    r
}

} // verus!
