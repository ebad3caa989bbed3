//! Satoshi amounts: parsing a base-10 unsigned 64-bit amount from text.

use vstd::prelude::*;
use vstd::string::StrSliceExecFns;

verus! {

/// A decimal digit: `0-9`.
pub open spec fn is_dec_digit(c: char) -> bool {
    '0' <= c && c <= '9'
}

/// The numeric value of a decimal digit.
pub open spec fn dec_val(c: char) -> int
    recommends
        is_dec_digit(c),
{
    (c as u32) - ('0' as u32)
}

/// Every character of `s` is a decimal digit.
pub open spec fn dec_digits_only(s: Seq<char>) -> bool {
    forall|i: int| 0 <= i < s.len() ==> is_dec_digit(#[trigger] s[i])
}

/// The unbounded integer a digit string denotes, most-significant digit
/// first.
pub open spec fn spec_dec_int(s: Seq<char>) -> int
    recommends
        dec_digits_only(s),
    decreases s.len(),
{
    if s.len() == 0 {
        0
    } else {
        spec_dec_int(s.drop_last()) * 10 + dec_val(s.last())
    }
}

/// A parsable satoshi amount: non-empty, decimal digits only (so no sign and
/// no whitespace), and a value that fits in 64 bits.
pub open spec fn valid_amount(s: Seq<char>) -> bool {
    s.len() > 0 && dec_digits_only(s) && spec_dec_int(s) <= u64::MAX
}

/// A digit string denotes a non-negative value.
proof fn lemma_dec_int_nonneg(s: Seq<char>)
    requires
        dec_digits_only(s),
    ensures
        spec_dec_int(s) >= 0,
    decreases s.len(),
{
    if s.len() > 0 {
        assert(dec_digits_only(s.drop_last())) by {
            assert(forall|i: int|
                0 <= i < s.len() - 1 ==> #[trigger] s.drop_last()[i] == s[i]);
        }
        lemma_dec_int_nonneg(s.drop_last());
    }
}

/// Among prefixes of a digit string, a longer one denotes at least as large
/// a value.
proof fn lemma_dec_prefix_le(s: Seq<char>, i: int, j: int)
    requires
        0 <= i <= j <= s.len(),
        dec_digits_only(s.take(j)),
    ensures
        spec_dec_int(s.take(i)) <= spec_dec_int(s.take(j)),
    decreases j - i,
{
    if i < j {
        assert(dec_digits_only(s.take(j - 1))) by {
            assert(forall|k: int|
                0 <= k < j - 1 ==> #[trigger] s.take(j - 1)[k] == s.take(j)[k]);
        }
        lemma_dec_prefix_le(s, i, j - 1);
        lemma_dec_int_nonneg(s.take(j - 1));
        assert(s.take(j).drop_last() =~= s.take(j - 1));
        assert(spec_dec_int(s.take(j)) == spec_dec_int(s.take(j - 1)) * 10 + dec_val(
            s.take(j).last(),
        ));
    }
}

/// Parses a base-10 unsigned satoshi amount.
///
/// Succeeds exactly on a non-empty string of decimal digits whose value fits
/// in 64 bits; any other input (empty, a sign, whitespace, a non-digit, or a
/// value past `u64::MAX`) gives the error string.
pub fn parse_satoshis(input: &str) -> (r: Result<u64, String>)
    ensures
        r is Ok <==> valid_amount(input@),
        (r is Ok ==> r->Ok_0 == spec_dec_int(input@)),
        (r is Err ==> r->Err_0@ == "Invalid satoshi amount"@),
{
    let n = input.unicode_len();
    if n == 0 {
        return Err("Invalid satoshi amount".to_owned());
    }
    let mut acc: u64 = 0;
    let mut i: usize = 0;
    while i < n
        invariant
            0 < n == input@.len(),
            i <= n,
            dec_digits_only(input@.take(i as int)),
            acc == spec_dec_int(input@.take(i as int)),
        decreases n - i,
    {
        let c = input.get_char(i);
        let v = c as u32;
        if v < 48 || v > 57 {
            proof {
                assert(!is_dec_digit(input@[i as int]));
            }
            return Err("Invalid satoshi amount".to_owned());
        }
        let d: u64 = (v - 48) as u64;
        proof {
            assert(input@.take(i + 1).drop_last() =~= input@.take(i as int));
            assert(dec_digits_only(input@.take(i + 1))) by {
                assert(forall|k: int|
                    0 <= k < i ==> #[trigger] input@.take(i + 1)[k] == input@.take(i as int)[k]);
                assert(input@.take(i + 1)[i as int] == input@[i as int]);
            }
            assert(spec_dec_int(input@.take(i + 1)) == acc * 10 + d);
        }
        let shifted = match acc.checked_mul(10) {
            Some(m) => m,
            None => {
                proof {
                    overflow_means_invalid(input@, i as int, acc, d);
                }
                return Err("Invalid satoshi amount".to_owned());
            },
        };
        acc = match shifted.checked_add(d) {
            Some(a) => a,
            None => {
                proof {
                    overflow_means_invalid(input@, i as int, acc, d);
                }
                return Err("Invalid satoshi amount".to_owned());
            },
        };
        i += 1;
    }
    proof {
        assert(input@.take(n as int) =~= input@);
    }
    Ok(acc)
}

/// If one more digit pushes the accumulated value past `u64::MAX`, the whole
/// string denotes no 64-bit amount.
proof fn overflow_means_invalid(s: Seq<char>, i: int, acc: u64, d: u64)
    requires
        0 <= i < s.len(),
        dec_digits_only(s.take(i)),
        acc == spec_dec_int(s.take(i)),
        spec_dec_int(s.take(i + 1)) == acc * 10 + d,
        acc * 10 + d > u64::MAX,
    ensures
        !valid_amount(s),
{
    if valid_amount(s) {
        assert(s.take(s.len() as int) =~= s);
        lemma_dec_prefix_le(s, i + 1, s.len() as int);
    }
}

} // verus!
