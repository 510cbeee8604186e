//! Small verified text helpers: decimal rendering, blank tests, word
//! counting.

use vstd::prelude::*;
use vstd::string::StrSliceExecFns;
use vstd::string::StringExecFns;

verus! {

/// The decimal digit character for a value below ten.
pub open spec fn digit_char(d: int) -> char {
    if d == 0 {
        '0'
    } else if d == 1 {
        '1'
    } else if d == 2 {
        '2'
    } else if d == 3 {
        '3'
    } else if d == 4 {
        '4'
    } else if d == 5 {
        '5'
    } else if d == 6 {
        '6'
    } else if d == 7 {
        '7'
    } else if d == 8 {
        '8'
    } else {
        '9'
    }
}

/// The decimal digits of `n`, most significant first.
pub open spec fn decimal_digits(n: int) -> Seq<char>
    recommends
        n >= 0,
    decreases n,
{
    if n < 10 {
        seq![digit_char(n)]
    } else {
        decimal_digits(n / 10) + seq![digit_char(n % 10)]
    }
}

/// One digit as a string slice.
fn digit_str(d: u64) -> (r: &'static str)
    requires
        d < 10,
    ensures
        r@ == seq![digit_char(d as int)],
{
    proof {
        reveal_strlit("0");
        reveal_strlit("1");
        reveal_strlit("2");
        reveal_strlit("3");
        reveal_strlit("4");
        reveal_strlit("5");
        reveal_strlit("6");
        reveal_strlit("7");
        reveal_strlit("8");
        reveal_strlit("9");
    }
    match d {
        0 => "0",
        1 => "1",
        2 => "2",
        3 => "3",
        4 => "4",
        5 => "5",
        6 => "6",
        7 => "7",
        8 => "8",
        _ => "9",
    }
}

/// Render a number in decimal, exactly the digits `decimal_digits` states.
pub fn u64_to_string(n: u64) -> (r: String)
    ensures
        r@ == decimal_digits(n as int),
    decreases n,
{
    if n < 10 {
        String::from_str(digit_str(n))
    } else {
        let mut s = u64_to_string(n / 10);
        s.append(digit_str(n % 10));
        s
    }
}

/// ASCII whitespace.
pub open spec fn is_space_char(c: char) -> bool {
    c == ' ' || c == '\t' || c == '\n' || c == '\r'
}

/// A text is blank when every character is whitespace.
pub open spec fn blank(s: Seq<char>) -> bool {
    forall|i: int| 0 <= i < s.len() ==> is_space_char(#[trigger] s[i])
}

/// Whether the text trims to nothing.
pub fn is_blank(s: &str) -> (r: bool)
    ensures
        r == blank(s@),
{
    let n = s.unicode_len();
    let mut i: usize = 0;
    while i < n
        invariant
            n == s@.len(),
            i <= n,
            forall|k: int| 0 <= k < i ==> is_space_char(#[trigger] s@[k]),
        decreases n - i,
    {
        let c = s.get_char(i);
        if !(c == ' ' || c == '\t' || c == '\n' || c == '\r') {
            return false;
        }
        i += 1;
    }
    true
}

/// Character-for-character equality of two string slices.
pub fn str_eq(a: &str, b: &str) -> (r: bool)
    ensures
        r == (a@ == b@),
{
    let n = a.unicode_len();
    let m = b.unicode_len();
    if n != m {
        proof {
            assert(a@ != b@);
        }
        return false;
    }
    let mut i: usize = 0;
    while i < n
        invariant
            n == a@.len(),
            n == b@.len(),
            i <= n,
            forall|k: int| 0 <= k < i ==> a@[k] == b@[k],
        decreases n - i,
    {
        if a.get_char(i) != b.get_char(i) {
            proof {
                assert(a@ != b@);
            }
            return false;
        }
        i += 1;
    }
    proof {
        assert(a@ =~= b@);
    }
    true
}

/// Words counted in the first `n` characters: a word begins at every
/// non-space character that follows a space or the start of the text.
pub open spec fn words_upto(s: Seq<char>, n: int) -> int
    decreases n,
{
    if n <= 0 {
        0
    } else {
        words_upto(s, n - 1) + if !is_space_char(s[n - 1]) && (n == 1 || is_space_char(
            s[n - 2],
        )) {
            1int
        } else {
            0int
        }
    }
}

/// Number of whitespace-separated words in the text.
pub open spec fn word_count(s: Seq<char>) -> int {
    words_upto(s, s.len() as int)
}

/// Count the whitespace-separated words; an empty text has none.
pub fn estimate_word_count(text: &str) -> (r: usize)
    ensures
        r == word_count(text@),
{
    let n = text.unicode_len();
    let mut count: usize = 0;
    let mut prev_space = true;
    let mut i: usize = 0;
    while i < n
        invariant
            n == text@.len(),
            i <= n,
            count == words_upto(text@, i as int),
            count <= i,
            prev_space == (i == 0 || is_space_char(text@[i as int - 1])),
        decreases n - i,
    {
        let c = text.get_char(i);
        let space = c == ' ' || c == '\t' || c == '\n' || c == '\r';
        if !space && prev_space {
            count += 1;
        }
        prev_space = space;
        i += 1;
    }
    count
}

} // verus!
