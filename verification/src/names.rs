//! Checking a declared element name against its positional index.
//!
//! Under the newer protocol era the server expresses positional arguments
//! through a named shape whose element names are the decimal indices
//! "0", "1", ...; a name counts as positional when it parses as a decimal
//! numeral (an optional leading plus sign, then digits) denoting the index.

use vstd::prelude::*;
use vstd::string::*;

verus! {

/// Whether `c` is a decimal digit.
pub open spec fn decimal_digit(c: char) -> bool {
    ('0' as u32) <= (c as u32) && (c as u32) <= ('9' as u32)
}

/// The value of the digit `c`.
pub open spec fn digit_value(c: char) -> int {
    (c as u32) - ('0' as u32)
}

/// Whether every character of `s` is a decimal digit.
pub open spec fn all_digits(s: Seq<char>) -> bool {
    forall|i: int| 0 <= i < s.len() ==> decimal_digit(#[trigger] s[i])
}

/// The integer a string of decimal digits denotes.
pub open spec fn decimal_value(s: Seq<char>) -> int
    decreases s.len(),
{
    if s.len() == 0 {
        0
    } else {
        decimal_value(s.drop_last()) * 10 + digit_value(s.last())
    }
}

/// `s` parses as the decimal integer `n`: after an optional leading plus
/// sign there is at least one character, all of them digits, and together
/// they denote `n`.
pub open spec fn parses_to_index(s: Seq<char>, n: int) -> bool {
    let digits = if s.len() > 0 && s[0] == '+' {
        s.skip(1)
    } else {
        s
    };
    &&& digits.len() > 0
    &&& all_digits(digits)
    &&& decimal_value(digits) == n
}

proof fn lemma_all_digits_prefix(s: Seq<char>, k: int)
    requires
        all_digits(s),
        0 <= k <= s.len(),
    ensures
        all_digits(s.take(k)),
{
    assert forall|i: int| 0 <= i < s.take(k).len() implies decimal_digit(#[trigger] s.take(k)[i]) by {
        assert(s.take(k)[i] == s[i]);
    }
}

proof fn lemma_decimal_value_nonneg(s: Seq<char>)
    requires
        all_digits(s),
    ensures
        decimal_value(s) >= 0,
    decreases s.len(),
{
    if s.len() > 0 {
        assert forall|i: int| 0 <= i < s.drop_last().len() implies decimal_digit(
            #[trigger] s.drop_last()[i],
        ) by {
            assert(s.drop_last()[i] == s[i]);
        }
        lemma_decimal_value_nonneg(s.drop_last());
        assert(decimal_digit(s.last()));
    }
}

proof fn lemma_decimal_take_succ(s: Seq<char>, k: int)
    requires
        0 <= k < s.len(),
    ensures
        decimal_value(s.take(k + 1)) == decimal_value(s.take(k)) * 10 + digit_value(s[k]),
{
    assert(s.take(k + 1).drop_last() =~= s.take(k));
    assert(s.take(k + 1).last() == s[k]);
}

proof fn lemma_decimal_prefix_le(s: Seq<char>, k: int)
    requires
        all_digits(s),
        0 <= k <= s.len(),
    ensures
        decimal_value(s.take(k)) <= decimal_value(s),
    decreases s.len() - k,
{
    if k == s.len() {
        assert(s.take(k) =~= s);
    } else {
        lemma_decimal_take_succ(s, k);
        lemma_all_digits_prefix(s, k);
        lemma_decimal_value_nonneg(s.take(k));
        assert(decimal_digit(s[k]));
        lemma_decimal_prefix_le(s, k + 1);
    }
}

/// Whether `name` parses as exactly the decimal index `idx`, the way the
/// protocol reads positional element names.
pub fn name_is_index(name: &str, idx: usize) -> (b: bool)
    ensures
        b == parses_to_index(name@, idx as int),
{
    let len = name.unicode_len();
    let start: usize = if len > 0 && name.get_char(0) == '+' {
        1
    } else {
        0
    };
    let ghost digits = name@.skip(start as int);
    if len == start {
        return false;
    }
    let mut i: usize = start;
    let mut acc: u128 = 0;
    while i < len
        invariant
            start <= i <= len,
            start < len,
            len == name@.len(),
            start == if name@.len() > 0 && name@[0] == '+' {
                1int
            } else {
                0int
            },
            digits == name@.skip(start as int),
            all_digits(digits.take(i - start)),
            acc == decimal_value(digits.take(i - start)),
            acc <= idx,
        decreases len - i,
    {
        let c = name.get_char(i);
        let cv = c as u32;
        if cv < 48 || cv > 57 {
            proof {
                assert(digits[(i - start) as int] == name@[i as int]);
                assert(!decimal_digit(digits[(i - start) as int]));
            }
            return false;
        }
        let d: u128 = (cv - 48) as u128;
        let acc2: u128 = acc * 10 + d;
        proof {
            lemma_decimal_take_succ(digits, i - start);
            assert(digits[(i - start) as int] == name@[i as int]);
            assert(digits.take(i - start).push(name@[i as int]) =~= digits.take(i + 1 - start));
        }
        if acc2 > idx as u128 {
            proof {
                if start == 0 {
                    assert(digits =~= name@);
                }
                if parses_to_index(name@, idx as int) {
                    lemma_decimal_prefix_le(digits, i + 1 - start);
                }
            }
            return false;
        }
        acc = acc2;
        i += 1;
    }
    proof {
        if start == 0 {
            assert(digits =~= name@);
        }
        assert(digits.take(i - start) =~= digits);
    }
    acc == idx as u128
}

} // verus!
