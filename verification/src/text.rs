//! Reading `key=value` words and decimal numbers from text.

use vstd::prelude::*;

verus! {

/// The characters of `s`, one by one.
pub fn chars_of(s: &str) -> (v: Vec<char>)
    ensures
        v@ == s@,
{
    let mut v: Vec<char> = Vec::new();
    for c in it: s.chars()
        invariant
            it.seq() == s@,
            v@ == s@.take(it.index() as int),
    {
        v.push(c);
        assert(v@ =~= s@.take(it.index() + 1));
    }
    assert(v@ =~= s@);
    v
}

/// Position `i` of `s` holds the only `=` of `s`.
pub open spec fn sole_separator(s: Seq<char>, i: int) -> bool {
    &&& 0 <= i < s.len()
    &&& s[i] == '='
    &&& forall|j: int| 0 <= j < s.len() && j != i ==> s[j] != '='
}

/// The key and the value of a word with exactly one `=`: what stands before
/// it and what stands after it. A word with no `=` or with several has neither.
pub open spec fn spec_split_pair(s: Seq<char>) -> Option<(Seq<char>, Seq<char>)> {
    if exists|i: int| sole_separator(s, i) {
        let i = choose|i: int| sole_separator(s, i);
        Some((s.subrange(0, i), s.subrange(i + 1, s.len() as int)))
    } else {
        None
    }
}

/// Splits a word of the form `key=value`. Either side may be empty.
pub fn split_pair(s: &str) -> (r: Option<(String, String)>)
    ensures
        match r {
            Some((k, v)) => spec_split_pair(s@) == Some((k@, v@)),
            None => spec_split_pair(s@) is None,
        },
{
    let chars = chars_of(s);
    let n: usize = chars.len();
    let mut at: Option<usize> = None;
    let mut i: usize = 0;
    while i < n
        invariant
            i <= n,
            n == chars@.len(),
            chars@ == s@,
            match at {
                Some(p) => p < i && sole_separator(chars@.take(i as int), p as int),
                None => forall|j: int| 0 <= j < i ==> chars@[j] != '=',
            },
        decreases n - i,
    {
        if chars[i] == '=' {
            match at {
                Some(p) => {
                    proof {
                        assert forall|k: int| !sole_separator(s@, k) by {
                            if k == p as int {
                                assert(s@[i as int] == '=');
                            } else {
                                assert(chars@.take(i as int)[p as int] == '=');
                            }
                        }
                    }
                    return None;
                },
                None => {
                    at = Some(i);
                },
            }
        }
        proof {
            let shorter = chars@.take(i as int);
            let longer = chars@.take(i as int + 1);
            match at {
                Some(p) => {
                    assert forall|j: int| 0 <= j < longer.len() && j != p implies longer[j]
                        != '=' by {
                        if j < i {
                            assert(shorter[j] == longer[j]);
                        }
                    }
                    if p < i {
                        assert(shorter[p as int] == '=');
                    }
                },
                None => {},
            }
        }
        i += 1;
    }
    proof {
        assert(chars@.take(n as int) =~= s@);
    }
    match at {
        Some(p) => {
            let key = s.substring_char(0, p);
            let value = s.substring_char(p + 1, n);
            proof {
                let q = choose|q: int| sole_separator(s@, q);
                assert(sole_separator(s@, p as int));
                assert(q == p);
            }
            Some((key.to_owned(), value.to_owned()))
        },
        None => {
            assert forall|k: int| !sole_separator(s@, k) by {}
            None
        },
    }
}

/// Whether `c` is one of the ten decimal digits.
pub open spec fn is_digit(c: char) -> bool {
    '0' <= c <= '9'
}

/// The number that a digit stands for.
pub open spec fn digit_value(c: char) -> int {
    c as int - '0' as int
}

/// The number that a run of decimal digits stands for.
pub open spec fn decimal(s: Seq<char>) -> int
    decreases s.len(),
{
    if s.len() == 0 {
        0
    } else {
        10 * decimal(s.drop_last()) + digit_value(s.last())
    }
}

pub open spec fn all_digits(s: Seq<char>) -> bool {
    forall|i: int| 0 <= i < s.len() ==> is_digit(#[trigger] s[i])
}

/// The digits of a number in text, without the sign that may stand before them.
pub open spec fn unsigned_part(s: Seq<char>) -> Seq<char> {
    if s.len() > 0 && (s[0] == '-' || s[0] == '+') {
        s.drop_first()
    } else {
        s
    }
}

/// The 64-bit integer that `s` stands for: an optional `+` or `-`, then at
/// least one decimal digit and nothing else, with a value in range.
pub open spec fn spec_parse_i64(s: Seq<char>) -> Option<i64> {
    let digits = unsigned_part(s);
    let magnitude = decimal(digits);
    let value = if s.len() > 0 && s[0] == '-' {
        -magnitude
    } else {
        magnitude
    };
    if digits.len() > 0 && all_digits(digits) && i64::MIN <= value <= i64::MAX {
        Some(value as i64)
    } else {
        None
    }
}

proof fn lemma_decimal_grows(s: Seq<char>, i: int, j: int)
    requires
        all_digits(s),
        0 <= i <= j <= s.len(),
    ensures
        0 <= decimal(s.take(i)) <= decimal(s.take(j)),
    decreases j,
{
    if j == 0 {
        assert(s.take(0).len() == 0);
    } else {
        assert(s.take(j).drop_last() =~= s.take(j - 1));
        assert(s.take(j).last() == s[j - 1]);
        assert(is_digit(s[j - 1]));
        if i < j {
            lemma_decimal_grows(s, i, j - 1);
        } else {
            lemma_decimal_grows(s, j - 1, j - 1);
        }
    }
}

/// Reads a 64-bit integer in decimal notation.
pub fn parse_i64(s: &str) -> (r: Option<i64>)
    ensures
        r == spec_parse_i64(s@),
{
    let chars = chars_of(s);
    let n: usize = chars.len();
    let negative: bool = n > 0 && chars[0] == '-';
    let start: usize = if n > 0 && (chars[0] == '-' || chars[0] == '+') {
        1
    } else {
        0
    };
    if start == n {
        return None;
    }
    let ghost digits = unsigned_part(s@);
    proof {
        assert(digits =~= s@.subrange(start as int, n as int));
    }
    let limit: i128 = 9_223_372_036_854_775_808;
    let mut acc: i128 = 0;
    let mut i: usize = start;
    while i < n
        invariant
            start <= i <= n,
            n == chars@.len(),
            chars@ == s@,
            digits == unsigned_part(s@),
            digits.len() == n - start,
            forall|k: int| 0 <= k < n - start ==> digits[k] == s@[start + k],
            all_digits(digits.take(i - start)),
            acc == decimal(digits.take(i - start)),
            0 <= acc <= limit,
            limit == 9_223_372_036_854_775_808,
        decreases n - i,
    {
        let c: char = chars[i];
        proof {
            assert(digits[i - start] == c);
        }
        if !(c >= '0' && c <= '9') {
            proof {
                assert(!is_digit(digits[i - start]));
            }
            return None;
        }
        let d: i128 = (c as u32 - '0' as u32) as i128;
        let next: i128 = acc * 10 + d;
        proof {
            let shorter = digits.take(i - start);
            let longer = digits.take(i - start + 1);
            assert(longer.drop_last() =~= shorter);
            assert(longer.last() == c);
            assert(next == decimal(longer));
            assert forall|k: int| 0 <= k < longer.len() implies is_digit(#[trigger] longer[k]) by {
                if k < shorter.len() {
                    assert(shorter[k] == longer[k]);
                }
            }
        }
        if next > limit {
            proof {
                if all_digits(digits) {
                    lemma_decimal_grows(digits, i - start + 1, digits.len() as int);
                    assert(digits.take(digits.len() as int) =~= digits);
                }
            }
            return None;
        }
        acc = next;
        i += 1;
    }
    proof {
        assert(digits.take(n - start) =~= digits);
    }
    if negative {
        Some((-acc) as i64)
    } else if acc == limit {
        None
    } else {
        Some(acc as i64)
    }
}

} // verus!
