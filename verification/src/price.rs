//! The optional target price of a tracked product: a nonnegative
//! base-10 decimal, kept exactly as an integer mantissa and a decimal
//! scale, so `"399.99"` is kept as mantissa 39999 with scale 2.

use vstd::prelude::*;

verus! {

/// A decimal amount, read as `mantissa / 10^scale`.
#[derive(Clone, Copy, PartialEq, Eq, Structural, Debug)]
pub struct Price {
    pub mantissa: u64,
    pub scale: usize,
}

pub open spec fn is_ascii_digit(c: char) -> bool {
    48 <= c as u32 <= 57
}

pub open spec fn digit_val(c: char) -> nat {
    (c as u32 - 48) as nat
}

pub open spec fn all_digits(s: Seq<char>) -> bool {
    forall|i: int| 0 <= i < s.len() ==> is_ascii_digit(#[trigger] s[i])
}

/// The number a digit string writes, most significant digit first.
pub open spec fn digits_value(s: Seq<char>) -> nat
    decreases s.len(),
{
    if s.len() == 0 {
        0
    } else {
        digits_value(s.drop_last()) * 10 + digit_val(s.last())
    }
}

/// Position `i` splits `s` into an integer part, a dot, and a
/// fractional part, each part one or more digits.
pub open spec fn valid_dot_split(s: Seq<char>, i: int) -> bool {
    &&& 1 <= i <= s.len() - 2
    &&& s[i] == '.'
    &&& all_digits(s.take(i))
    &&& all_digits(s.skip(i + 1))
}

/// One or more digits, optionally followed by a dot and one or more
/// digits.
pub open spec fn decimal_shape(s: Seq<char>) -> bool {
    if all_digits(s) {
        s.len() > 0
    } else {
        exists|i: int| #[trigger] valid_dot_split(s, i)
    }
}

pub open spec fn dot_index(s: Seq<char>) -> int {
    choose|i: int| valid_dot_split(s, i)
}

/// The digits of the decimal with the dot taken out.
pub open spec fn mantissa_digits(s: Seq<char>) -> Seq<char> {
    if all_digits(s) {
        s
    } else {
        s.take(dot_index(s)) + s.skip(dot_index(s) + 1)
    }
}

/// How many digits follow the dot.
pub open spec fn scale_of(s: Seq<char>) -> int {
    if all_digits(s) {
        0
    } else {
        s.len() - dot_index(s) - 1
    }
}

/// What a submitted target-price text comes to: a price when the text
/// is a decimal whose digits fit a `u64` mantissa, nothing otherwise.
pub open spec fn target_price_of(s: Seq<char>) -> Option<Price> {
    if decimal_shape(s) && digits_value(mantissa_digits(s)) <= u64::MAX {
        Some(
            Price {
                mantissa: digits_value(mantissa_digits(s)) as u64,
                scale: scale_of(s) as usize,
            },
        )
    } else {
        None
    }
}

proof fn lemma_dot_unique(s: Seq<char>, i: int, j: int)
    requires
        valid_dot_split(s, i),
        valid_dot_split(s, j),
    ensures
        i == j,
{
    if i < j {
        assert(s.take(j)[i] == s[i]);
    }
    if j < i {
        assert(s.take(i)[j] == s[j]);
    }
}

/// Every character of a well-shaped decimal is a digit, except the one
/// dot, which splits it.
proof fn lemma_shape_char(s: Seq<char>, i: int)
    requires
        decimal_shape(s),
        0 <= i < s.len(),
    ensures
        is_ascii_digit(s[i]) || (s[i] == '.' && valid_dot_split(s, i)),
{
    if !all_digits(s) {
        let d = choose|d: int| valid_dot_split(s, d);
        if i < d {
            assert(s.take(d)[i] == s[i]);
        } else if i > d {
            assert(s.skip(d + 1)[i - d - 1] == s[i]);
        }
    }
}

proof fn lemma_digits_value_push(s: Seq<char>, c: char)
    ensures
        digits_value(s.push(c)) == digits_value(s) * 10 + digit_val(c),
{
    assert(s.push(c).drop_last() =~= s);
    assert(s.push(c).last() == c);
}

/// Dropping trailing digits never increases the written number.
proof fn lemma_digits_value_prefix(s: Seq<char>, k: int)
    requires
        0 <= k <= s.len(),
    ensures
        digits_value(s.take(k)) <= digits_value(s),
    decreases s.len(),
{
    if k == s.len() {
        assert(s.take(k) =~= s);
    } else {
        lemma_digits_value_prefix(s.drop_last(), k);
        assert(s.drop_last().take(k) =~= s.take(k));
    }
}

/// The digits already consumed at a scan position `i` past a dot at
/// `dot`: the integer part and the fraction read so far.
spec fn digits_upto(s: Seq<char>, dot: int, i: int) -> Seq<char> {
    s.take(dot) + s.subrange(dot + 1, i)
}

/// Parses a submitted target-price text. Anything but a plain decimal
/// of the shape `digits [ '.' digits ]` whose digits fit a `u64`
/// mantissa yields no target price rather than an error.
pub fn parse_target_price(text: &str) -> (r: Option<Price>)
    ensures
        r == target_price_of(text@),
{
    let ghost s = text@;
    let n = text.unicode_len();
    if n == 0 {
        return None;
    }
    let mut mantissa: u64 = 0;
    let mut dot: usize = 0;
    let mut seen_dot: bool = false;
    let mut i: usize = 0;
    while i < n
        invariant
            n == s.len(),
            s == text@,
            1 <= n,
            i <= n,
            !seen_dot ==> all_digits(s.take(i as int)) && mantissa == digits_value(
                s.take(i as int),
            ),
            seen_dot ==> {
                &&& 1 <= dot < i
                &&& s[dot as int] == '.'
                &&& all_digits(s.take(dot as int))
                &&& forall|k: int| dot < k < i ==> is_ascii_digit(#[trigger] s[k])
                &&& mantissa == digits_value(digits_upto(s, dot as int, i as int))
            },
        decreases n - i,
    {
        let c = text.get_char(i);
        let cv = c as u32;
        if 48 <= cv && cv <= 57 {
            let d = (cv - 48) as u64;
            let ghost pre = if seen_dot {
                digits_upto(s, dot as int, i as int)
            } else {
                s.take(i as int)
            };
            proof {
                lemma_digits_value_push(pre, c);
            }
            let stepped = match mantissa.checked_mul(10) {
                Some(m) => m.checked_add(d),
                None => None,
            };
            match stepped {
                Some(m) => {
                    mantissa = m;
                    proof {
                        if seen_dot {
                            assert(digits_upto(s, dot as int, i as int + 1) =~= pre.push(s[i as int]));
                        } else {
                            assert(s.take(i as int + 1) =~= pre.push(s[i as int]));
                        }
                    }
                },
                None => {
                    proof {
                        let full = pre.push(s[i as int]);
                        assert(digits_value(full) > u64::MAX);
                        if decimal_shape(s) {
                            if all_digits(s) {
                                assert(!seen_dot) by {
                                    if seen_dot {
                                        assert(is_ascii_digit(s[dot as int]));
                                    }
                                }
                                assert(full =~= s.take(i as int + 1));
                                lemma_digits_value_prefix(s, i as int + 1);
                            } else if !seen_dot {
                                let dd = dot_index(s);
                                assert(valid_dot_split(s, dd));
                                assert(dd > i) by {
                                    if dd <= i {
                                        assert(all_digits(s.take(i as int + 1)));
                                        assert(is_ascii_digit(s.take(i as int + 1)[dd]));
                                    }
                                }
                                assert(full =~= mantissa_digits(s).take(i as int + 1));
                                lemma_digits_value_prefix(mantissa_digits(s), i as int + 1);
                            } else {
                                lemma_shape_char(s, dot as int);
                                assert(valid_dot_split(s, dot as int));
                                let dd = dot_index(s);
                                assert(valid_dot_split(s, dd));
                                lemma_dot_unique(s, dd, dot as int);
                                assert(full =~= mantissa_digits(s).take(i as int));
                                lemma_digits_value_prefix(mantissa_digits(s), i as int);
                            }
                        }
                    }
                    return None;
                },
            }
        } else if cv == 46 {
            if seen_dot || i == 0 {
                proof {
                    if decimal_shape(s) {
                        lemma_shape_char(s, i as int);
                        if seen_dot {
                            lemma_shape_char(s, dot as int);
                            lemma_dot_unique(s, i as int, dot as int);
                        }
                    }
                }
                return None;
            }
            seen_dot = true;
            dot = i;
            proof {
                assert(digits_upto(s, i as int, i as int + 1) =~= s.take(i as int));
            }
        } else {
            proof {
                if decimal_shape(s) {
                    lemma_shape_char(s, i as int);
                }
            }
            return None;
        }
        i += 1;
    }
    if !seen_dot {
        proof {
            assert(s.take(n as int) =~= s);
        }
        Some(Price { mantissa, scale: 0 })
    } else if dot == n - 1 {
        proof {
            if decimal_shape(s) {
                lemma_shape_char(s, n - 1);
            }
        }
        None
    } else {
        proof {
            assert(s[dot as int] == '.');
            assert(!is_ascii_digit(s[dot as int]));
            assert(!all_digits(s));
            assert(all_digits(s.skip(dot as int + 1))) by {
                assert(forall|j: int|
                    0 <= j < s.skip(dot as int + 1).len() ==> #[trigger] s.skip(dot as int + 1)[j]
                        == s[dot + 1 + j]);
            }
            assert(valid_dot_split(s, dot as int));
            let dd = dot_index(s);
            assert(valid_dot_split(s, dd));
            lemma_dot_unique(s, dd, dot as int);
            assert(mantissa_digits(s) =~= digits_upto(s, dot as int, n as int));
        }
        Some(Price { mantissa, scale: n - dot - 1 })
    }
}

} // verus!
