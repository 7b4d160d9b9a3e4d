//! Decimal numbers: how an index is read from a word, and how a number is
//! written out.

use crate::text::to_chars;
use vstd::prelude::*;

verus! {

/// Whether `c` is one of the ten ASCII digits.
pub open spec fn is_digit(c: char) -> bool {
    '0' <= c <= '9'
}

/// The number that the digit `c` stands for.
pub open spec fn digit_value(c: char) -> nat
    recommends
        is_digit(c),
{
    (c as int - '0' as int) as nat
}

/// The digit that stands for `d`.
pub open spec fn digit_char(d: nat) -> char
    recommends
        d < 10,
{
    ('0' as nat + d) as char
}

/// Whether `s` holds ASCII digits only.
pub open spec fn all_digits(s: Seq<char>) -> bool {
    forall|k: int| 0 <= k < s.len() ==> is_digit(#[trigger] s[k])
}

/// The number that the digits `s` denote in base ten; zero for no digits.
pub open spec fn decimal_value(s: Seq<char>) -> nat
    recommends
        all_digits(s),
    decreases s.len(),
{
    if s.len() == 0 {
        0
    } else {
        10 * decimal_value(s.drop_last()) + digit_value(s.last())
    }
}

/// `word` without the plus sign that may lead it.
pub open spec fn unsigned_part(word: Seq<char>) -> Seq<char> {
    if word.len() > 0 && word[0] == '+' {
        word.skip(1)
    } else {
        word
    }
}

/// The index that `word` denotes, if any: `word` is an optional plus sign
/// followed by one or more ASCII digits, and their value fits in a `usize`.
pub open spec fn index_of(word: Seq<char>) -> Option<usize> {
    let digits = unsigned_part(word);
    if digits.len() > 0 && all_digits(digits) && decimal_value(digits) <= usize::MAX {
        Some(decimal_value(digits) as usize)
    } else {
        None
    }
}

/// The decimal digits of `n`, without leading zeros.
pub open spec fn decimal(n: nat) -> Seq<char>
    decreases n,
{
    if n < 10 {
        seq![digit_char(n)]
    } else {
        decimal(n / 10).push(digit_char(n % 10))
    }
}

/// Reads `word` as an index.
pub fn parse_index(word: &str) -> (r: Option<usize>)
    ensures
        r == index_of(word@),
{
    let chars = to_chars(word);
    let n = chars.len();
    let first: usize = if n > 0 && chars[0] == '+' {
        1
    } else {
        0
    };
    if first == n {
        return None;
    }
    let ghost digits = unsigned_part(word@);
    let mut value: usize = 0;
    let mut i: usize = first;
    while i < n
        invariant
            chars@ == word@,
            n == chars.len(),
            first <= i <= n,
            digits == unsigned_part(word@),
            digits == word@.subrange(first as int, n as int),
            all_digits(digits.take(i - first)),
            value == decimal_value(digits.take(i - first)),
        decreases n - i,
    {
        let c = chars[i];
        assert(digits.take(i - first + 1).drop_last() == digits.take(i - first));
        if !('0' <= c && c <= '9') {
            assert(!is_digit(digits[i - first]));
            return None;
        }
        let digit: usize = (c as u32 - '0' as u32) as usize;
        proof {
            lemma_decimal_value_prefix(digits, i - first + 1);
        }
        let scaled = match value.checked_mul(10) {
            Some(scaled) => scaled,
            None => {
                return None;
            },
        };
        value = match scaled.checked_add(digit) {
            Some(sum) => sum,
            None => {
                return None;
            },
        };
        i += 1;
    }
    assert(digits.take(n - first) == digits);
    Some(value)
}

/// The text of one digit.
fn digit_text(d: usize) -> (text: &'static str)
    requires
        d < 10,
    ensures
        text@ == seq![digit_char(d as nat)],
{
    proof {
        reveal_strlit("0");
        reveal_strlit("1");
        reveal_strlit("2");
        reveal_strlit("3");
        reveal_strlit("4");
        reveal_strlit("5");
        reveal_strlit("6");
        reveal_strlit("7");
        reveal_strlit("8");
        reveal_strlit("9");
    }
    let text = if d == 0 {
        "0"
    } else if d == 1 {
        "1"
    } else if d == 2 {
        "2"
    } else if d == 3 {
        "3"
    } else if d == 4 {
        "4"
    } else if d == 5 {
        "5"
    } else if d == 6 {
        "6"
    } else if d == 7 {
        "7"
    } else if d == 8 {
        "8"
    } else {
        "9"
    };
    text
}

/// Writes `n` in decimal digits.
pub fn to_decimal(n: usize) -> (out: String)
    ensures
        out@ == decimal(n as nat),
    decreases n,
{
    if n < 10 {
        String::from_str(digit_text(n))
    } else {
        let mut out = to_decimal(n / 10);
        out.append(digit_text(n % 10));
        out
    }
}

/// The value of the first `k` digits never exceeds the value of all of them.
pub proof fn lemma_decimal_value_prefix(s: Seq<char>, k: int)
    requires
        0 <= k <= s.len(),
    ensures
        decimal_value(s.take(k)) <= decimal_value(s),
    decreases s.len(),
{
    if k == s.len() {
        assert(s.take(k) == s);
    } else {
        lemma_decimal_value_prefix(s.drop_last(), k);
        assert(s.drop_last().take(k) == s.take(k));
    }
}

/// A word is not an index if it holds a character that is neither a digit
/// nor a plus sign at its front.
pub proof fn lemma_not_an_index(word: Seq<char>, j: int)
    requires
        0 <= j < word.len(),
        !is_digit(word[j]),
        j > 0 || word[0] != '+',
    ensures
        index_of(word) is None,
{
    if word[0] == '+' {
        assert(unsigned_part(word)[j - 1] == word[j]);
    }
}

/// A number that was written out reads back as itself.
pub proof fn lemma_decimal_reads_back(n: nat)
    ensures
        decimal(n).len() > 0,
        all_digits(decimal(n)),
        decimal_value(decimal(n)) == n,
        n <= usize::MAX ==> index_of(decimal(n)) == Some(n as usize),
    decreases n,
{
    let s = decimal(n);
    if n < 10 {
        assert(decimal_value(s.drop_last()) == 0);
    } else {
        lemma_decimal_reads_back(n / 10);
        assert(s.drop_last() == decimal(n / 10));
    }
}

} // verus!
