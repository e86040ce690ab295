//! Character-level text helpers: whitespace trimming, ASCII case-insensitive
//! comparison, decimal parsing and decimal rendering of integers.

use vstd::prelude::*;

verus! {

/// Whether `c` carries the Unicode `White_Space` property.
pub open spec fn spec_is_white_space(c: char) -> bool {
    let v = c as u32;
    ||| 9 <= v <= 13
    ||| v == 32
    ||| v == 0x85
    ||| v == 0xA0
    ||| v == 0x1680
    ||| 0x2000 <= v <= 0x200A
    ||| v == 0x2028
    ||| v == 0x2029
    ||| v == 0x202F
    ||| v == 0x205F
    ||| v == 0x3000
}

/// Decides the Unicode `White_Space` property of a character.
pub fn is_white_space(c: char) -> (b: bool)
    ensures
        b == spec_is_white_space(c),
{
    let v = c as u32;
    (9 <= v && v <= 13) || v == 32 || v == 0x85 || v == 0xA0 || v == 0x1680 || (0x2000 <= v
        && v <= 0x200A) || v == 0x2028 || v == 0x2029 || v == 0x202F || v == 0x205F || v == 0x3000
}

/// A text is blank when every character is whitespace (the empty text included).
pub open spec fn spec_is_blank(s: Seq<char>) -> bool {
    forall|i: int| 0 <= i < s.len() ==> spec_is_white_space(#[trigger] s[i])
}

/// Whether the text is empty once surrounding whitespace is removed.
pub fn is_blank(s: &str) -> (b: bool)
    ensures
        b == spec_is_blank(s@),
{
    let n = s.unicode_len();
    let mut i: usize = 0;
    while i < n
        invariant
            n == s@.len(),
            i <= n,
            forall|k: int| 0 <= k < i ==> spec_is_white_space(#[trigger] s@[k]),
        decreases n - i,
    {
        if !is_white_space(s.get_char(i)) {
            return false;
        }
        i = i + 1;
    }
    true
}

/// Index of the first non-whitespace character at or after `i` (or the length).
pub open spec fn leading_end(s: Seq<char>, i: int) -> int
    decreases s.len() - i,
{
    if 0 <= i < s.len() && spec_is_white_space(s[i]) {
        leading_end(s, i + 1)
    } else {
        i
    }
}

/// Index just past the last non-whitespace character before `j` (or zero).
pub open spec fn trailing_end(s: Seq<char>, j: int) -> int
    decreases j,
{
    if 0 < j <= s.len() && spec_is_white_space(s[j - 1]) {
        trailing_end(s, j - 1)
    } else {
        j
    }
}

/// The text without its leading and trailing whitespace.
pub open spec fn spec_trim(s: Seq<char>) -> Seq<char> {
    let a = leading_end(s, 0);
    if a >= s.len() {
        Seq::empty()
    } else {
        s.subrange(a, trailing_end(s, s.len() as int))
    }
}

proof fn lemma_leading_end_bounds(s: Seq<char>, i: int)
    requires
        0 <= i <= s.len(),
    ensures
        i <= leading_end(s, i) <= s.len(),
        leading_end(s, i) < s.len() ==> !spec_is_white_space(s[leading_end(s, i)]),
    decreases s.len() - i,
{
    if i < s.len() && spec_is_white_space(s[i]) {
        lemma_leading_end_bounds(s, i + 1);
    }
}

proof fn lemma_trailing_end_above(s: Seq<char>, j: int, a: int)
    requires
        0 <= a < j <= s.len(),
        !spec_is_white_space(s[a]),
    ensures
        a < trailing_end(s, j) <= j,
    decreases j,
{
    if 0 < j <= s.len() && spec_is_white_space(s[j - 1]) {
        lemma_trailing_end_above(s, j - 1, a);
    }
}

/// Removes leading and trailing whitespace.
pub fn trim(s: &str) -> (r: &str)
    ensures
        r@ == spec_trim(s@),
{
    let n = s.unicode_len();
    let mut a: usize = 0;
    while a < n && is_white_space(s.get_char(a))
        invariant
            n == s@.len(),
            a <= n,
            leading_end(s@, 0) == leading_end(s@, a as int),
        decreases n - a,
    {
        a = a + 1;
    }
    proof {
        lemma_leading_end_bounds(s@, a as int);
    }
    if a >= n {
        return s.substring_char(0, 0);
    }
    let mut b: usize = n;
    proof {
        lemma_trailing_end_above(s@, n as int, a as int);
    }
    while b > a + 1 && is_white_space(s.get_char(b - 1))
        invariant
            n == s@.len(),
            a < b <= n,
            a < leading_end(s@, 0) + 1,
            leading_end(s@, 0) == a,
            trailing_end(s@, n as int) == trailing_end(s@, b as int),
        decreases b,
    {
        b = b - 1;
    }
    s.substring_char(a, b)
}

/// ASCII upper-case mapping of a character (other characters are unchanged).
pub open spec fn spec_ascii_upper(c: char) -> char {
    if 97 <= (c as u32) <= 122 {
        ((c as u32) - 32) as char
    } else {
        c
    }
}

/// Equality of two texts when ASCII letters are compared without regard to case.
pub open spec fn spec_eq_ignore_ascii_case(a: Seq<char>, b: Seq<char>) -> bool {
    &&& a.len() == b.len()
    &&& forall|i: int| 0 <= i < a.len() ==> spec_ascii_upper(#[trigger] a[i]) == spec_ascii_upper(b[i])
}

fn ascii_upper_code(c: char) -> (v: u32)
    ensures
        v == spec_ascii_upper(c) as u32,
{
    let v = c as u32;
    if 97 <= v && v <= 122 {
        v - 32
    } else {
        v
    }
}

/// Compares two texts ignoring ASCII case.
pub fn eq_ignore_ascii_case(a: &str, b: &str) -> (r: bool)
    ensures
        r == spec_eq_ignore_ascii_case(a@, b@),
{
    let n = a.unicode_len();
    let m = b.unicode_len();
    if n != m {
        return false;
    }
    let mut i: usize = 0;
    while i < n
        invariant
            n == a@.len(),
            n == b@.len(),
            i <= n,
            forall|k: int| 0 <= k < i ==> spec_ascii_upper(#[trigger] a@[k]) == spec_ascii_upper(b@[k]),
        decreases n - i,
    {
        let x = ascii_upper_code(a.get_char(i));
        let y = ascii_upper_code(b.get_char(i));
        if x != y {
            proof {
                assert(spec_ascii_upper(a@[i as int]) as u32 != spec_ascii_upper(b@[i as int]) as u32);
            }
            return false;
        }
        proof {
            lemma_upper_code_injective(a@[i as int], b@[i as int]);
        }
        i = i + 1;
    }
    true
}

proof fn lemma_upper_code_injective(x: char, y: char)
    requires
        spec_ascii_upper(x) as u32 == spec_ascii_upper(y) as u32,
    ensures
        spec_ascii_upper(x) == spec_ascii_upper(y),
{
}

/// Whether the character is an ASCII decimal digit.
pub open spec fn spec_is_digit(c: char) -> bool {
    48 <= (c as u32) <= 57
}

/// Numeric value of a sequence of decimal digits (most significant first).
pub open spec fn digits_value(s: Seq<char>) -> nat
    decreases s.len(),
{
    if s.len() == 0 {
        0
    } else {
        digits_value(s.drop_last()) * 10 + ((s.last() as u32) - 48) as nat
    }
}

/// The digits that a decimal numeral holds after an optional leading `+`.
pub open spec fn numeral_digits(s: Seq<char>) -> Seq<char> {
    if s.len() > 0 && s[0] == '+' {
        s.drop_first()
    } else {
        s
    }
}

/// The value of a decimal numeral for an unsigned machine integer: an optional `+`
/// followed by at least one digit, with a value that fits in `usize`.
pub open spec fn spec_parse_usize(s: Seq<char>) -> Option<usize> {
    let d = numeral_digits(s);
    if d.len() > 0 && (forall|i: int| 0 <= i < d.len() ==> spec_is_digit(#[trigger] d[i]))
        && digits_value(d) <= usize::MAX {
        Some(digits_value(d) as usize)
    } else {
        None
    }
}

proof fn lemma_digits_value_prefix_monotone(d: Seq<char>, k: int)
    requires
        0 <= k <= d.len(),
    ensures
        digits_value(d.take(k)) <= digits_value(d),
    decreases d.len() - k,
{
    if k < d.len() {
        lemma_digits_value_prefix_monotone(d, k + 1);
        assert(d.take(k + 1).drop_last() =~= d.take(k));
    } else {
        assert(d.take(k) =~= d);
    }
}

/// Parses an unsigned decimal numeral (no surrounding whitespace allowed).
pub fn parse_usize(s: &str) -> (r: Option<usize>)
    ensures
        r == spec_parse_usize(s@),
{
    let n = s.unicode_len();
    let mut start: usize = 0;
    if n > 0 && s.get_char(0) == '+' {
        start = 1;
    }
    let ghost d = numeral_digits(s@);
    assert(d =~= s@.subrange(start as int, n as int));
    if start >= n {
        return None;
    }
    let mut acc: usize = 0;
    let mut i: usize = start;
    let mut overflow = false;
    while i < n
        invariant
            n == s@.len(),
            start <= i <= n,
            d =~= s@.subrange(start as int, n as int),
            d == numeral_digits(s@),
            forall|k: int| 0 <= k < i - start ==> spec_is_digit(#[trigger] d[k]),
            !overflow ==> acc == digits_value(d.take(i - start)),
            overflow ==> digits_value(d.take(i - start)) > usize::MAX,
        decreases n - i,
    {
        let c = s.get_char(i);
        let v = c as u32;
        if !(48 <= v && v <= 57) {
            proof {
                assert(d[i - start] == c);
                assert(!spec_is_digit(d[i - start]));
                assert(!(forall|j: int| 0 <= j < d.len() ==> spec_is_digit(#[trigger] d[j])));
            }
            return None;
        }
        let ghost k = i - start;
        proof {
            assert(d.take(k + 1).drop_last() =~= d.take(k));
            assert(d.take(k + 1).last() == c);
        }
        if !overflow {
            let digit = (v - 48) as usize;
            if acc > (usize::MAX - digit) / 10 {
                overflow = true;
                proof {
                    assert(digits_value(d.take(k + 1)) == acc * 10 + digit);
                    assert(acc * 10 + digit > usize::MAX) by (nonlinear_arith)
                        requires
                            acc > (usize::MAX - digit) / 10,
                            digit <= 9,
                    ;
                }
            } else {
                proof {
                    assert(acc * 10 + digit <= usize::MAX) by (nonlinear_arith)
                        requires
                            acc <= (usize::MAX - digit) / 10,
                            digit <= 9,
                    ;
                }
                acc = acc * 10 + digit;
            }
        } else {
            proof {
                assert(digits_value(d.take(k + 1)) >= digits_value(d.take(k)));
            }
        }
        i = i + 1;
    }
    proof {
        assert(d.take(n - start) =~= d);
    }
    if overflow {
        None
    } else {
        Some(acc)
    }
}

/// The character of a decimal digit.
pub open spec fn digit_char(d: nat) -> char {
    (d + 48) as char
}

/// Decimal representation of a natural number, most significant digit first.
pub open spec fn decimal_digits(n: nat) -> Seq<char>
    decreases n,
{
    if n < 10 {
        seq![digit_char(n)]
    } else {
        decimal_digits(n / 10).push(digit_char(n % 10))
    }
}

/// The numeral of a single decimal digit.
fn digit_text(d: usize) -> (r: &'static str)
    requires
        d < 10,
    ensures
        r@ == seq![digit_char(d as nat)],
{
    match d {
        0 => {
            proof {
                reveal_strlit("0");
            }
            "0"
        },
        1 => {
            proof {
                reveal_strlit("1");
            }
            "1"
        },
        2 => {
            proof {
                reveal_strlit("2");
            }
            "2"
        },
        3 => {
            proof {
                reveal_strlit("3");
            }
            "3"
        },
        4 => {
            proof {
                reveal_strlit("4");
            }
            "4"
        },
        5 => {
            proof {
                reveal_strlit("5");
            }
            "5"
        },
        6 => {
            proof {
                reveal_strlit("6");
            }
            "6"
        },
        7 => {
            proof {
                reveal_strlit("7");
            }
            "7"
        },
        8 => {
            proof {
                reveal_strlit("8");
            }
            "8"
        },
        _ => {
            proof {
                reveal_strlit("9");
            }
            "9"
        },
    }
}

/// The plain decimal numeral of `n`, without sign, padding or separators.
pub(crate) fn decimal(n: usize) -> (s: String)
    ensures
        s@ == decimal_digits(n as nat),
    decreases n,
{
    if n < 10 {
        let mut s = String::new();
        s.append(digit_text(n));
        s
    } else {
        let mut s = decimal(n / 10);
        s.append(digit_text(n % 10));
        s
    }
}

} // verus!
