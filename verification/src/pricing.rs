//! Building a price submission: validating the user's date and price,
//! and producing the exact URL and JSON body of the request.

use vstd::prelude::*;
use crate::dates::{is_digit_char, is_valid_date_str, spec_is_valid_date_str};
use crate::numbers::{parse_u32, spec_dec_digits, spec_digits_val, spec_is_u32_str, u32_to_string};

verus! {

/// The characters of `s` from `from` (inclusive) to `to` (exclusive) are
/// decimal digits, and there is at least one of them.
pub open spec fn spec_digit_run(s: Seq<char>, from: int, to: int) -> bool {
    from < to <= s.len() && (forall|i: int| from <= i < to ==> is_digit_char(s[i]))
}

/// From `from` to the end of `s`: an optional sign followed by at least
/// one digit. This is the part of a number literal after its `e` or `E`.
pub open spec fn spec_exponent_digits(s: Seq<char>, from: int) -> bool {
    let d = if from < s.len() && (s[from] == '+' || s[from] == '-') {
        from + 1
    } else {
        from
    };
    spec_digit_run(s, d, s.len() as int)
}

/// At position `p` the number either ends or continues with an exponent
/// part `e`/`E`, an optional sign, and at least one digit to the end.
pub open spec fn spec_tail_after_mantissa(s: Seq<char>, p: int) -> bool {
    p == s.len() || (0 <= p < s.len() && (s[p] == 'e' || s[p] == 'E') && spec_exponent_digits(
        s,
        p + 1,
    ))
}

/// After the integer digits, which end at `k`: either the mantissa is
/// done, or a `.` with at least one fraction digit follows, and then the
/// number ends or carries an exponent.
pub open spec fn spec_after_int_part(s: Seq<char>, k: int) -> bool {
    ||| spec_tail_after_mantissa(s, k)
    ||| (0 <= k < s.len() && s[k] == '.' && exists|p: int|
        #[trigger] spec_digit_run(s, k + 1, p) && spec_tail_after_mantissa(s, p))
}

/// Where the digits of a number literal start: after an optional leading
/// minus sign.
pub open spec fn spec_num_start(s: Seq<char>) -> int {
    if s.len() > 0 && s[0] == '-' {
        1
    } else {
        0
    }
}

/// A decimal number literal: an optional leading `-`, at least one integer
/// digit, an optional `.` with at least one fraction digit, and an
/// optional exponent (`e` or `E`, an optional sign, at least one digit).
/// This is the JSON number grammar; a price string must satisfy it before
/// any request is made.
pub open spec fn spec_is_number_str(s: Seq<char>) -> bool {
    exists|k: int| #[trigger] spec_digit_run(s, spec_num_start(s), k) && spec_after_int_part(s, k)
}

/// The first position at or after `from` whose character is not a decimal
/// digit (or the end of the string).
fn scan_digits(s: &str, from: usize) -> (k: usize)
    requires
        from <= s@.len(),
    ensures
        from <= k <= s@.len(),
        forall|i: int| from <= i < k ==> is_digit_char(s@[i]),
        k < s@.len() ==> !is_digit_char(s@[k as int]),
{
    let n = s.unicode_len();
    let mut k = from;
    while k < n
        invariant
            from <= k <= n == s@.len(),
            forall|i: int| from <= i < k ==> is_digit_char(s@[i]),
        decreases n - k,
    {
        let c = s.get_char(k);
        if !('0' <= c && c <= '9') {
            return k;
        }
        k = k + 1;
    }
    k
}

/// Whether `s` is a decimal number literal.
pub fn is_number_str(s: &str) -> (r: bool)
    ensures
        r == spec_is_number_str(s@),
{
    let ghost n_spec = s@.len();
    let n = s.unicode_len();
    let b: usize = if n > 0 && s.get_char(0) == '-' {
        1
    } else {
        0
    };
    let k = scan_digits(s, b);
    if k == b {
        proof {
            assert(spec_num_start(s@) == b as int);
            assert forall|k2: int| !(#[trigger] spec_digit_run(s@, spec_num_start(s@), k2)
                && spec_after_int_part(s@, k2)) by {
                if spec_digit_run(s@, spec_num_start(s@), k2) {
                    assert(is_digit_char(s@[b as int]));
                }
            }
        }
        return false;
    }
    let mut p = k;
    let mut has_frac = false;
    if k < n && s.get_char(k) == '.' {
        has_frac = true;
        let q = scan_digits(s, k + 1);
        if q == k + 1 {
            proof {
                assert(spec_num_start(s@) == b as int);
                assert forall|k2: int| (#[trigger] spec_digit_run(s@, spec_num_start(s@), k2))
                    implies !spec_after_int_part(s@, k2) by {
                    if k2 > k {
                        assert(is_digit_char(s@[k as int]));
                    } else if k2 < k {
                        assert(is_digit_char(s@[k2]));
                        assert(!spec_tail_after_mantissa(s@, k2));
                    } else {
                        assert(!spec_tail_after_mantissa(s@, k2));
                        assert forall|p2: int| !(#[trigger] spec_digit_run(s@, k2 + 1, p2)
                            && spec_tail_after_mantissa(s@, p2)) by {
                            if spec_digit_run(s@, k2 + 1, p2) {
                                assert(is_digit_char(s@[k as int + 1]));
                            }
                        }
                    }
                }
            }
            return false;
        }
        p = q;
    }
    if p == n {
        proof {
            assert(spec_num_start(s@) == b as int);
            assert(spec_digit_run(s@, spec_num_start(s@), k as int));
            if has_frac {
                assert(spec_digit_run(s@, k as int + 1, p as int));
                assert(spec_tail_after_mantissa(s@, p as int));
                assert(spec_after_int_part(s@, k as int));
            } else {
                assert(spec_tail_after_mantissa(s@, k as int));
            }
        }
        return true;
    }
    let c = s.get_char(p);
    let ghost frac_end = p as int;
    if c != 'e' && c != 'E' {
        proof {
            assert(spec_num_start(s@) == b as int);
            lemma_reject_at(s@, b as int, k as int, frac_end, has_frac);
        }
        return false;
    }
    let mut e = p + 1;
    if e < n {
        let c2 = s.get_char(e);
        if c2 == '+' || c2 == '-' {
            e = e + 1;
        }
    }
    let q2 = scan_digits(s, e);
    if q2 == n && q2 > e {
        proof {
            assert(spec_digit_run(s@, e as int, n_spec as int));
            assert(spec_exponent_digits(s@, p as int + 1));
            assert(spec_tail_after_mantissa(s@, p as int));
            assert(spec_num_start(s@) == b as int);
            assert(spec_digit_run(s@, spec_num_start(s@), k as int));
            if has_frac {
                assert(spec_digit_run(s@, k as int + 1, p as int));
            }
            assert(spec_after_int_part(s@, k as int));
        }
        true
    } else {
        proof {
            assert(!spec_exponent_digits(s@, p as int + 1)) by {
                if spec_exponent_digits(s@, p as int + 1) {
                    if q2 < n_spec {
                        assert(is_digit_char(s@[q2 as int]));
                    } else {
                        assert(is_digit_char(s@[e as int]));
                    }
                }
            }
            assert(spec_num_start(s@) == b as int);
            lemma_reject_at(s@, b as int, k as int, frac_end, has_frac);
        }
        false
    }
}

/// If the integer digits end at `k`, the fraction digits (if any) end at
/// `p`, and the character at `p` neither is a digit nor starts a valid
/// exponent part, then `s` is not a number literal.
proof fn lemma_reject_at(s: Seq<char>, b: int, k: int, p: int, has_frac: bool)
    requires
        b == spec_num_start(s),
        0 <= b <= k <= p < s.len(),
        b < k,
        forall|i: int| b <= i < k ==> is_digit_char(s[i]),
        has_frac ==> s[k] == '.' && k + 1 < p && (forall|i: int|
            k + 1 <= i < p ==> is_digit_char(s[i])),
        !has_frac ==> p == k && s[k] != '.',
        !is_digit_char(s[p]),
        !((s[p] == 'e' || s[p] == 'E') && spec_exponent_digits(s, p + 1)),
    ensures
        !spec_is_number_str(s),
{
    assert forall|k2: int| (#[trigger] spec_digit_run(s, spec_num_start(s), k2))
        implies !spec_after_int_part(s, k2) by {
        if k2 > k {
            if has_frac {
                assert(is_digit_char(s[k]));
            } else {
                assert(is_digit_char(s[p]));
            }
        } else if k2 < k {
            assert(is_digit_char(s[k2]));
            assert(!spec_tail_after_mantissa(s, k2));
        } else {
            assert(!spec_tail_after_mantissa(s, k2));
            if has_frac {
                assert forall|p2: int| !(#[trigger] spec_digit_run(s, k2 + 1, p2)
                    && spec_tail_after_mantissa(s, p2)) by {
                    if spec_digit_run(s, k2 + 1, p2) && spec_tail_after_mantissa(s, p2) {
                        if p2 > p {
                            assert(is_digit_char(s[p]));
                        } else if p2 < p {
                            assert(is_digit_char(s[p2]));
                            assert(!spec_tail_after_mantissa(s, p2));
                        } else {
                            assert(!spec_tail_after_mantissa(s, p));
                        }
                    }
                }
            }
        }
    }
}


/// The URL of the price-submission endpoint for one investment.
pub open spec fn spec_prices_url(id: nat) -> Seq<char> {
    "https://api.sharesight.com/api/v3/custom_investment/"@ + spec_dec_digits(id)
        + "/prices.json"@
}

/// Writes the price-submission URL for the investment `id`.
pub fn build_prices_url(id: u32) -> (r: String)
    ensures
        r@ == spec_prices_url(id as nat),
{
    let mut u = String::from_str("https://api.sharesight.com/api/v3/custom_investment/");
    let digits = u32_to_string(id);
    u.append(digits.as_str());
    u.append("/prices.json");
    proof {
        assert(u@ =~= spec_prices_url(id as nat));
    }
    u
}

/// The JSON body of a price submission: an object holding the date under
/// `last_traded_on` and the price, as a bare number, under
/// `last_traded_price`.
pub open spec fn spec_price_body(date: Seq<char>, price: Seq<char>) -> Seq<char> {
    "{\"last_traded_on\":\""@ + date + "\",\"last_traded_price\":"@ + price + "}"@
}

/// Writes the JSON body submitting `price` for `date`.
pub fn build_price_body(date: &str, price: &str) -> (r: String)
    ensures
        r@ == spec_price_body(date@, price@),
{
    let mut b = String::from_str("{\"last_traded_on\":\"");
    b.append(date);
    b.append("\",\"last_traded_price\":");
    b.append(price);
    b.append("}");
    proof {
        assert(b@ =~= spec_price_body(date@, price@));
    }
    b
}

/// The submitted body carries the date and the price exactly as given:
/// the date is the ten characters after the opening key and quote, and the
/// price follows the second key unchanged.
pub proof fn lemma_price_body_parts(date: Seq<char>, price: Seq<char>)
    ensures
        spec_price_body(date, price).len() == 42 + date.len() + price.len(),
        spec_price_body(date, price).subrange(19, 19 + date.len() as int) == date,
        spec_price_body(date, price).subrange(
            41 + date.len() as int,
            41 + date.len() + price.len() as int,
        ) == price,
{
    reveal_strlit("{\"last_traded_on\":\"");
    reveal_strlit("\",\"last_traded_price\":");
    reveal_strlit("}");
    let whole = spec_price_body(date, price);
    assert(whole.subrange(19, 19 + date.len() as int) =~= date);
    assert(whole.subrange(41 + date.len() as int, 41 + date.len() + price.len() as int) =~= price);
}

/// A usage error found before any network activity.
#[derive(Debug)]
pub enum UsageError {
    InvalidDate,
    InvalidPrice,
}

/// A ready price submission: where to POST and what to send.
pub struct Submission {
    pub url: String,
    pub body: String,
}

/// Checks the user's date and price and, when both are well formed, builds
/// the one request that submits them for `investment_id`. A date not of
/// the strict `YYYY-MM-DD` calendar form is rejected first; a price that
/// is not a decimal number literal is rejected next; nothing is built in
/// either case, so no request can be attempted for rejected input.
pub fn build_update_submission(investment_id: u32, date: &str, price: &str) -> (r: Result<
    Submission,
    UsageError,
>)
    ensures
        r is Ok <==> spec_is_valid_date_str(date@) && spec_is_number_str(price@),
        r is Ok ==> r->Ok_0.url@ == spec_prices_url(investment_id as nat) && r->Ok_0.body@
            == spec_price_body(date@, price@),
        r == Err::<Submission, UsageError>(UsageError::InvalidDate) <==> !spec_is_valid_date_str(
            date@,
        ),
        r == Err::<Submission, UsageError>(UsageError::InvalidPrice) <==> spec_is_valid_date_str(
            date@,
        ) && !spec_is_number_str(price@),
{
    if !is_valid_date_str(date) {
        return Err(UsageError::InvalidDate);
    }
    if !is_number_str(price) {
        return Err(UsageError::InvalidPrice);
    }
    Ok(Submission { url: build_prices_url(investment_id), body: build_price_body(date, price) })
}

/// How the `update` command will identify the investment.
pub enum UpdateTarget {
    /// The user passed the numeric id directly; no directory lookup is
    /// wanted.
    DirectId(u32),
    /// The argument is a code to resolve against the investment directory.
    ResolveCode(String),
    /// The user asked for a direct id but the argument is not one.
    InvalidId,
}

/// Decides how the `investment` argument names the investment. With
/// `use_id` the argument is read as a number and the directory is never
/// consulted; without it the argument is a code for the directory.
pub fn plan_investment(investment: &str, use_id: bool) -> (r: UpdateTarget)
    ensures
        use_id ==> !(r is ResolveCode),
        use_id && spec_is_u32_str(investment@) ==> r == UpdateTarget::DirectId(
            spec_digits_val(investment@) as u32,
        ),
        use_id && !spec_is_u32_str(investment@) ==> r == UpdateTarget::InvalidId,
        !use_id ==> (r matches UpdateTarget::ResolveCode(c) && c@ == investment@),
{
    if use_id {
        match parse_u32(investment) {
            Some(id) => UpdateTarget::DirectId(id),
            None => UpdateTarget::InvalidId,
        }
    } else {
        UpdateTarget::ResolveCode(investment.to_owned())
    }
}

/// The line confirming what is about to be submitted.
pub fn confirmation_line(investment_id: u32, date: &str, price: &str) -> (r: String)
    ensures
        r@ == "add_custom_investment_price "@ + spec_dec_digits(investment_id as nat) + " "@
            + date@ + " "@ + price@,
{
    let mut line = String::from_str("add_custom_investment_price ");
    let digits = u32_to_string(investment_id);
    line.append(digits.as_str());
    line.append(" ");
    line.append(date);
    line.append(" ");
    line.append(price);
    proof {
        assert(line@ =~= "add_custom_investment_price "@ + spec_dec_digits(investment_id as nat)
            + " "@ + date@ + " "@ + price@);
    }
    line
}

} // verus!
