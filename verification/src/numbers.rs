//! Decimal representation of unsigned integers: formatting an id into a
//! URL and reading an id the user typed.

use vstd::prelude::*;
use crate::dates::{digit_str, digit_val, is_digit_char, lemma_digit_roundtrip, spec_digit_char};

verus! {

/// The decimal digits of `n`, most significant first, with no leading
/// zeros (the single digit `0` for zero).
pub open spec fn spec_dec_digits(n: nat) -> Seq<char>
    decreases n,
{
    if n < 10 {
        seq![spec_digit_char(n as int)]
    } else {
        spec_dec_digits(n / 10).push(spec_digit_char((n % 10) as int))
    }
}

/// Writes `n` in decimal.
pub fn u32_to_string(n: u32) -> (r: String)
    ensures
        r@ == spec_dec_digits(n as nat),
    decreases n,
{
    if n < 10 {
        let r = digit_str(n).to_owned();
        proof {
            assert(r@ =~= spec_dec_digits(n as nat));
        }
        r
    } else {
        let q = u32_to_string(n / 10);
        let r = q.concat(digit_str(n % 10));
        proof {
            assert(r@ =~= spec_dec_digits(n as nat));
        }
        r
    }
}

/// The value of a digit string read as a decimal number.
pub open spec fn spec_digits_val(s: Seq<char>) -> int
    decreases s.len(),
{
    if s.len() == 0 {
        0
    } else {
        spec_digits_val(s.drop_last()) * 10 + digit_val(s.last())
    }
}

/// Whether every character of `s` is a decimal digit.
pub open spec fn all_digits(s: Seq<char>) -> bool {
    forall|i: int| 0 <= i < s.len() ==> is_digit_char(s[i])
}

/// A nonempty digit string whose value fits in a `u32`. This is what the
/// id parser accepts.
pub open spec fn spec_is_u32_str(s: Seq<char>) -> bool {
    s.len() > 0 && all_digits(s) && spec_digits_val(s) <= u32::MAX
}

/// The value of a digit string is never negative.
pub proof fn lemma_digits_val_nonneg(s: Seq<char>)
    requires
        all_digits(s),
    ensures
        spec_digits_val(s) >= 0,
    decreases s.len(),
{
    if s.len() > 0 {
        assert(all_digits(s.drop_last()));
        lemma_digits_val_nonneg(s.drop_last());
    }
}

/// A digit string is worth at least as much as any of its prefixes.
pub proof fn lemma_digits_val_prefix_le(s: Seq<char>, j: int)
    requires
        all_digits(s),
        0 <= j <= s.len(),
    ensures
        spec_digits_val(s.take(j)) <= spec_digits_val(s),
    decreases s.len() - j,
{
    if j == s.len() {
        assert(s.take(j) =~= s);
    } else {
        let t = s.take(j + 1);
        assert(t.drop_last() =~= s.take(j));
        assert(t.last() == s[j]);
        assert(all_digits(s.take(j)));
        lemma_digits_val_nonneg(s.take(j));
        assert(spec_digits_val(t) == spec_digits_val(s.take(j)) * 10 + digit_val(s[j]));
        assert(spec_digits_val(s.take(j)) * 10 >= spec_digits_val(s.take(j)));
        lemma_digits_val_prefix_le(s, j + 1);
    }
}

/// Reads a `u32` from a nonempty string of decimal digits. Returns `None`
/// exactly when the string is empty, holds a non-digit, or names a value
/// above `u32::MAX`.
pub fn parse_u32(s: &str) -> (r: Option<u32>)
    ensures
        r is Some <==> spec_is_u32_str(s@),
        r is Some ==> r->Some_0 == spec_digits_val(s@),
{
    let n = s.unicode_len();
    if n == 0 {
        return None;
    }
    let mut acc: u32 = 0;
    let mut i: usize = 0;
    while i < n
        invariant
            0 < n == s@.len(),
            0 <= i <= n,
            all_digits(s@.take(i as int)),
            acc == spec_digits_val(s@.take(i as int)),
        decreases n - i,
    {
        let c = s.get_char(i);
        if !('0' <= c && c <= '9') {
            assert(!is_digit_char(s@[i as int]));
            return None;
        }
        let d = c as u32 - '0' as u32;
        proof {
            assert(s@.take(i as int + 1).drop_last() =~= s@.take(i as int));
            assert(s@.take(i as int + 1).last() == s@[i as int]);
            assert(digit_val(s@[i as int]) == d);
            assert forall|k: int| 0 <= k < i + 1 implies #[trigger] is_digit_char(
                s@.take(i as int + 1)[k],
            ) by {
                if k < i {
                    assert(is_digit_char(s@.take(i as int)[k]));
                }
            }
            assert(all_digits(s@.take(i as int + 1)));
            assert(spec_digits_val(s@.take(i as int + 1)) == acc * 10 + d);
        }
        if acc > (u32::MAX - d) / 10 {
            proof {
                assert(acc * 10 + d > u32::MAX) by (nonlinear_arith)
                    requires
                        acc > (u32::MAX as int - d) / 10,
                        0 <= d <= 9,
                        acc >= 0,
                ;
                if all_digits(s@) {
                    lemma_digits_val_prefix_le(s@, i as int + 1);
                    assert(spec_digits_val(s@) > u32::MAX);
                }
            }
            return None;
        }
        acc = acc * 10 + d;
        i = i + 1;
    }
    proof {
        assert(s@.take(n as int) =~= s@);
    }
    Some(acc)
}

/// The decimal digits of `n` are digits and read back as `n`.
pub proof fn lemma_dec_digits_value(n: nat)
    ensures
        spec_dec_digits(n).len() >= 1,
        all_digits(spec_dec_digits(n)),
        spec_digits_val(spec_dec_digits(n)) == n,
    decreases n,
{
    let s = spec_dec_digits(n);
    if n < 10 {
        lemma_digit_roundtrip(n as int);
        assert(s.len() == 1);
        assert(s.last() == spec_digit_char(n as int));
        assert(s.drop_last() =~= Seq::<char>::empty());
        assert(spec_digits_val(s.drop_last()) == 0);
        assert(spec_digits_val(s) == digit_val(spec_digit_char(n as int)));
    } else {
        lemma_dec_digits_value(n / 10);
        lemma_digit_roundtrip((n % 10) as int);
        assert(s.drop_last() =~= spec_dec_digits(n / 10));
        assert(spec_digits_val(s) == (n / 10) * 10 + (n % 10));
        assert((n / 10) * 10 + (n % 10) == n);
        assert forall|i: int| 0 <= i < s.len() implies is_digit_char(s[i]) by {
            if i < s.len() - 1 {
                assert(is_digit_char(spec_dec_digits(n / 10)[i]));
            }
        }
    }
}

/// Round trip: an id written in decimal is a digit string that reads back
/// as the same id.
pub proof fn lemma_u32_decimal_roundtrip(n: u32)
    ensures
        spec_is_u32_str(spec_dec_digits(n as nat)),
        spec_digits_val(spec_dec_digits(n as nat)) == n,
{
    lemma_dec_digits_value(n as nat);
}

} // verus!
