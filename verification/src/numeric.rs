//! Numeric and unit decoding.
//!
//! Sizes come as decimal digit runs with optional thousands separators and an
//! optional `K`/`M`/`G` suffix (powers of 1024); durations come as decimal
//! numbers suffixed `ms`, `s` or `m`. Durations are decoded to integral
//! nanoseconds (the number itself counts milliseconds), sizes to bytes.
//! A token that does not fit its expected shape decodes to `None`.

use vstd::prelude::*;

use crate::text;

verus! {

/// Decimal digit.
pub open spec fn is_digit(c: char) -> bool {
    48 <= c as u32 <= 57
}

/// Numeric value of a digit.
pub open spec fn digit_val(c: char) -> int {
    c as u32 - 48
}

/// All characters of `s` are decimal digits.
pub open spec fn all_digits(s: Seq<char>) -> bool {
    forall|k: int| 0 <= k < s.len() ==> is_digit(s[k])
}

/// The number written by the digit run `s`, most significant digit first.
pub open spec fn digits_val(s: Seq<char>) -> nat
    decreases s.len(),
{
    if s.len() == 0 {
        0
    } else {
        10 * digits_val(s.drop_last()) + (digit_val(s.last()) as nat)
    }
}

/// A digit run's value only grows when more digits follow.
pub proof fn lemma_digits_val_prefix(s: Seq<char>, i: int)
    requires
        0 <= i <= s.len(),
    ensures
        digits_val(s) >= digits_val(s.take(i)),
    decreases s.len(),
{
    if i == s.len() {
        assert(s.take(i) =~= s);
    } else {
        assert(s.drop_last().take(i) =~= s.take(i));
        lemma_digits_val_prefix(s.drop_last(), i);
    }
}

/// Ten to the `n`.
pub open spec fn pow10(n: nat) -> nat
    decreases n,
{
    if n == 0 {
        1
    } else {
        10 * pow10((n - 1) as nat)
    }
}

/// A run of `n` digits writes a number below ten to the `n`.
pub proof fn lemma_digits_val_bound(s: Seq<char>)
    requires
        all_digits(s),
    ensures
        digits_val(s) < pow10(s.len()),
    decreases s.len(),
{
    if s.len() > 0 {
        assert(all_digits(s.drop_last())) by {
            assert(forall|k: int|
                0 <= k < s.len() - 1 ==> s.drop_last()[k] == s[k] && is_digit(s[k]));
        }
        lemma_digits_val_bound(s.drop_last());
        assert(is_digit(s.last()));
    }
}

/// The number written by `s`, when `s` is a non-empty digit run whose value
/// fits in a `u64`; `None` otherwise.
pub open spec fn spec_parse_u64(s: Seq<char>) -> Option<u64> {
    if s.len() > 0 && all_digits(s) && digits_val(s) <= u64::MAX {
        Some(digits_val(s) as u64)
    } else {
        None
    }
}

/// Decode a non-empty run of decimal digits as a `u64`.
pub fn parse_u64(s: &str) -> (r: Option<u64>)
    ensures
        r == spec_parse_u64(s@),
{
    let n = s.unicode_len();
    if n == 0 {
        return None;
    }
    let mut acc: u64 = 0;
    let mut i: usize = 0;
    proof {
        assert(s@.take(0) =~= Seq::<char>::empty());
    }
    while i < n
        invariant
            n == s@.len(),
            i <= n,
            all_digits(s@.take(i as int)),
            acc == digits_val(s@.take(i as int)),
        decreases n - i,
    {
        let c = s.get_char(i);
        let d32 = c as u32;
        if d32 < 48 || d32 > 57 {
            proof {
                assert(!is_digit(s@[i as int]));
            }
            return None;
        }
        let d = (d32 - 48) as u64;
        proof {
            assert(s@.take(i + 1).drop_last() =~= s@.take(i as int));
            assert(s@.take(i + 1).last() == s@[i as int]);
        }
        if acc > (u64::MAX - d) / 10 {
            proof {
                assert(10 * (acc as nat) + (d as nat) > u64::MAX) by (nonlinear_arith)
                    requires
                        acc > (u64::MAX - d) / 10,
                        d <= 9u64,
                ;
                lemma_digits_val_prefix(s@, i + 1);
            }
            return None;
        }
        proof {
            assert(10 * (acc as nat) + (d as nat) <= u64::MAX) by (nonlinear_arith)
                requires
                    acc <= (u64::MAX - d) / 10,
                    d <= 9u64,
            ;
        }
        acc = acc * 10 + d;
        i += 1;
    }
    proof {
        assert(s@.take(n as int) =~= s@);
    }
    Some(acc)
}

/// Whether every character of `s` is a decimal digit.
pub fn check_all_digits(s: &str) -> (r: bool)
    ensures
        r == all_digits(s@),
{
    let n = s.unicode_len();
    let mut i: usize = 0;
    while i < n
        invariant
            n == s@.len(),
            i <= n,
            forall|k: int| 0 <= k < i ==> is_digit(s@[k]),
        decreases n - i,
    {
        let d32 = s.get_char(i) as u32;
        if d32 < 48 || d32 > 57 {
            proof {
                assert(!is_digit(s@[i as int]));
            }
            return false;
        }
        i += 1;
    }
    true
}

/// Millionths written by the fractional digit run `f`: the first six digits
/// of `f`, padded on the right with zeros.
pub open spec fn frac_micro(f: Seq<char>) -> nat {
    digits_val((f + seq!['0', '0', '0', '0', '0', '0']).take(6))
}

/// Compute `frac_micro` for a run of digits.
fn frac_value(fp: &str) -> (v: u64)
    requires
        all_digits(fp@),
    ensures
        v == frac_micro(fp@),
        v < 1000000,
{
    let ghost padded = (fp@ + seq!['0', '0', '0', '0', '0', '0']).take(6);
    proof {
        assert(padded.take(0) =~= Seq::<char>::empty());
        assert(pow10(0) == 1);
        assert(pow10(1) == 10);
        assert(pow10(2) == 100);
        assert(pow10(3) == 1000);
        assert(pow10(4) == 10000);
        assert(pow10(5) == 100000);
        assert(pow10(6) == 1000000);
    }
    let m = fp.unicode_len();
    let mut acc: u64 = 0;
    let mut t: usize = 0;
    while t < 6
        invariant
            m == fp@.len(),
            all_digits(fp@),
            padded == (fp@ + seq!['0', '0', '0', '0', '0', '0']).take(6),
            t <= 6,
            acc == digits_val(padded.take(t as int)),
            acc < pow10(t as nat),
            pow10(0) == 1,
            pow10(1) == 10,
            pow10(2) == 100,
            pow10(3) == 1000,
            pow10(4) == 10000,
            pow10(5) == 100000,
            pow10(6) == 1000000,
        decreases 6 - t,
    {
        proof {
            assert(t == 0 || t == 1 || t == 2 || t == 3 || t == 4 || t == 5);
            assert(acc < 100000);
        }
        let d: u64 = if t < m {
            (fp.get_char(t) as u32 - 48) as u64
        } else {
            0
        };
        proof {
            assert(padded[t as int] == if t < m {
                fp@[t as int]
            } else {
                '0'
            });
            assert(is_digit(padded[t as int]));
            assert(d == digit_val(padded[t as int]));
            assert(padded.take(t + 1).drop_last() =~= padded.take(t as int));
            assert(padded.take(t + 1).last() == padded[t as int]);
            assert(pow10((t + 1) as nat) == 10 * pow10(t as nat));
        }
        acc = acc * 10 + d;
        t += 1;
    }
    proof {
        assert(padded.take(6) =~= padded);
    }
    acc
}

/// Millionths of the decimal number written `digits[.digits]` (at least one
/// digit in all); `None` when `s` is not of that shape.
pub open spec fn spec_decimal_micro(s: Seq<char>) -> Option<nat> {
    match text::spec_find(s, "."@) {
        None => if s.len() > 0 && all_digits(s) {
            Some(digits_val(s) * 1000000)
        } else {
            None
        },
        Some(d) => {
            let ip = s.take(d);
            let fp = s.skip(d + 1);
            if (ip.len() > 0 || fp.len() > 0) && all_digits(ip) && all_digits(fp) {
                Some(digits_val(ip) * 1000000 + frac_micro(fp))
            } else {
                None
            }
        },
    }
}

/// `spec_decimal_micro`, capped at what a `u64` can hold.
pub open spec fn spec_parse_decimal_micro(s: Seq<char>) -> Option<u64> {
    match spec_decimal_micro(s) {
        None => None,
        Some(v) => if v <= u64::MAX {
            Some(v as u64)
        } else {
            None
        },
    }
}

/// Decode a decimal number into millionths.
pub fn parse_decimal_micro(s: &str) -> (r: Option<u64>)
    ensures
        r == spec_parse_decimal_micro(s@),
{
    let n = s.unicode_len();
    proof {
        text::lemma_find_first(s@, "."@);
        reveal_strlit(".");
    }
    match text::find_sub(s, ".") {
        None => {
            match parse_u64(s) {
                None => None,
                Some(v) => {
                    let total: u128 = (v as u128) * 1000000;
                    if total > u64::MAX as u128 {
                        None
                    } else {
                        Some(total as u64)
                    }
                },
            }
        },
        Some(d) => {
            let ip = text::substring(s, 0, d);
            let fp = text::substring(s, d + 1, n);
            proof {
                assert(ip@ =~= s@.take(d as int));
                assert(fp@ =~= s@.skip(d + 1));
            }
            if ip.unicode_len() == 0 && fp.unicode_len() == 0 {
                return None;
            }
            if !check_all_digits(ip) {
                return None;
            }
            if !check_all_digits(fp) {
                return None;
            }
            let frac = frac_value(fp);
            if ip.unicode_len() == 0 {
                return Some(frac);
            }
            match parse_u64(ip) {
                None => {
                    proof {
                        assert(digits_val(ip@) * 1000000 + frac_micro(fp@) > u64::MAX)
                            by (nonlinear_arith)
                            requires
                                digits_val(ip@) > u64::MAX,
                        ;
                    }
                    None
                },
                Some(v) => {
                    let total: u128 = (v as u128) * 1000000 + (frac as u128);
                    if total > u64::MAX as u128 {
                        None
                    } else {
                        Some(total as u64)
                    }
                },
            }
        },
    }
}

/// Byte factor of a size token's unit suffix.
pub open spec fn spec_size_factor(tok: Seq<char>) -> nat {
    if tok.contains('K') {
        1024
    } else if tok.contains('M') {
        1048576
    } else if tok.contains('G') {
        1073741824
    } else {
        1
    }
}

/// Bytes written by a size token: its digits, with `K`/`M`/`G` and commas
/// removed and whitespace trimmed, times the unit factor; `None` when what
/// remains is not a digit run or the byte count exceeds a `u64`.
pub open spec fn spec_decode_size(tok: Seq<char>) -> Option<u64> {
    let cleaned = text::spec_trim(text::spec_remove_chars(tok, "KMG,"@));
    match spec_parse_u64(cleaned) {
        None => None,
        Some(v) => {
            let total = (v as nat) * spec_size_factor(tok);
            if total <= u64::MAX {
                Some(total as u64)
            } else {
                None
            }
        },
    }
}

/// Decode a size token into bytes.
pub fn decode_size(tok: &str) -> (r: Option<u64>)
    ensures
        r == spec_decode_size(tok@),
{
    let factor: u64 = if text::contains_char(tok, 'K') {
        1024
    } else if text::contains_char(tok, 'M') {
        1048576
    } else if text::contains_char(tok, 'G') {
        1073741824
    } else {
        1
    };
    let cleaned = text::remove_chars(tok, "KMG,");
    let trimmed = text::trim(cleaned.as_str());
    match parse_u64(trimmed) {
        None => None,
        Some(v) => {
            proof {
                assert((v as nat) * (factor as nat) <= (u64::MAX as nat) * 1073741824)
                    by (nonlinear_arith)
                    requires
                        v <= u64::MAX,
                        factor <= 1073741824u64,
                ;
            }
            let total: u128 = (v as u128) * (factor as u128);
            if total > u64::MAX as u128 {
                None
            } else {
                Some(total as u64)
            }
        },
    }
}

/// Milliseconds-per-unit factor of a duration token, judged on the raw
/// token: `ms` milliseconds, else `m` minutes, else `s` seconds, else none.
pub open spec fn spec_duration_factor(e: Seq<char>) -> nat {
    if text::contains_seq(e, "ms"@) {
        1
    } else if e.contains('m') {
        60000
    } else if e.contains('s') {
        1000
    } else {
        1
    }
}

/// Nanoseconds written by a duration token `e` carrying the field prefix
/// `column` (for example `cpu=`): the prefix is stripped, the literal `ms`
/// and `s` are removed, a decimal comma becomes a dot, and the remaining
/// decimal number of milliseconds-times-factor is scaled to nanoseconds.
/// `None` when the remainder is not a decimal number or the count exceeds a
/// `u64`. A bare minutes token keeps its literal `m` and therefore fails to
/// decode.
pub open spec fn spec_duration_nanos(e: Seq<char>, column: Seq<char>) -> Option<u64> {
    let body = if text::match_at(e, column, 0) {
        e.skip(column.len() as int)
    } else {
        e
    };
    let cleaned = text::spec_commas_to_dots(
        text::spec_remove_chars(text::spec_remove_all(body, "ms"@), "s"@),
    );
    match spec_decimal_micro(cleaned) {
        None => None,
        Some(v) => {
            let total = v * spec_duration_factor(e);
            if total <= u64::MAX {
                Some(total as u64)
            } else {
                None
            }
        },
    }
}

/// Decode a duration token into nanoseconds.
pub fn calculate_thread_time(e: &str, column: &str) -> (r: Option<u64>)
    ensures
        r == spec_duration_nanos(e@, column@),
{
    proof {
        reveal_strlit("ms");
    }
    let body: &str = if text::starts_with(e, column) {
        text::strip_prefix(e, column)
    } else {
        e
    };
    let no_ms = text::remove_all(body, "ms");
    let no_s = text::remove_chars(no_ms.as_str(), "s");
    let cleaned = text::commas_to_dots(no_s.as_str());
    let factor: u64 = if text::contains_sub(e, "ms") {
        1
    } else if text::contains_char(e, 'm') {
        60000
    } else if text::contains_char(e, 's') {
        1000
    } else {
        1
    };
    match parse_decimal_micro(cleaned.as_str()) {
        None => {
            proof {
                if spec_decimal_micro(cleaned@) is Some {
                    let v = spec_decimal_micro(cleaned@)->Some_0;
                    assert(v * (spec_duration_factor(e@)) >= v) by (nonlinear_arith)
                        requires
                            spec_duration_factor(e@) >= 1,
                    ;
                }
            }
            None
        },
        Some(v) => {
            proof {
                assert((v as nat) * (factor as nat) <= (u64::MAX as nat) * 60000)
                    by (nonlinear_arith)
                    requires
                        v <= u64::MAX,
                        factor <= 60000u64,
                ;
            }
            let total: u128 = (v as u128) * (factor as u128);
            if total > u64::MAX as u128 {
                None
            } else {
                Some(total as u64)
            }
        },
    }
}

} // verus!
