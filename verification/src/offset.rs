//! Signed offsets and their resolution against a total extent.
//!
//! An offset names how much trailing content to extract, in lines or in
//! bytes. It is resolved against the measured total of an input into either
//! "nothing to emit" or a zero-based start index.

use vstd::prelude::*;
use vstd::string::StrSliceExecFns;

verus! {

/// A user-supplied signed count.
///
/// `PlusZero` is produced only by the literal token `+0` and means "start at
/// the first unit and emit everything". `TakeNum(n)` carries a count: a
/// positive `n` addresses the `n`-th unit from the start (1-based), a
/// negative `n` counts from the end, and `0` means "emit nothing".
#[derive(Clone, Copy, Debug, PartialEq, Eq, Structural)]
pub enum TakeValue {
    PlusZero,
    TakeNum(i64),
}

/// The zero-based start index that an offset selects in an input of `total`
/// units, or `None` when nothing is to be emitted.
pub open spec fn start_index(take_val: TakeValue, total: int) -> Option<int> {
    match take_val {
        TakeValue::PlusZero => if total > 0 {
            Some(0int)
        } else {
            None
        },
        TakeValue::TakeNum(n) => if n == 0 {
            None
        } else if n > 0 {
            if n > total {
                None
            } else {
                Some(n - 1)
            }
        } else {
            if total + n < 0 {
                Some(0int)
            } else {
                Some(total + n)
            }
        },
    }
}

/// Relies on `num::Zero::is_zero` for `i64`: it returns whether the value
/// equals zero.
#[verifier::external_body]
fn i64_is_zero(n: &i64) -> (r: bool)
    ensures
        r == (*n == 0),
{
    num::Zero::is_zero(n)
}

/// Resolves an offset against the total number of units of one input.
///
/// Returns `None` when nothing is to be emitted, and otherwise the zero-based
/// index of the first unit to emit.
pub fn get_start_index(take_val: &TakeValue, total: i64) -> (r: Option<u64>)
    requires
        total >= 0,
    ensures
        r is Some <==> start_index(*take_val, total as int) is Some,
        r is Some ==> r->0 as int == start_index(*take_val, total as int)->0,
{
    match take_val {
        TakeValue::PlusZero => {
            if total > 0 {
                Some(0)
            } else {
                None
            }
        },
        TakeValue::TakeNum(n) => {
            if i64_is_zero(n) {
                None
            } else if *n > 0 {
                if *n > total {
                    None
                } else {
                    Some((*n - 1) as u64)
                }
            } else {
                let res = total + *n;
                if res < 0 {
                    Some(0)
                } else {
                    Some(res as u64)
                }
            }
        },
    }
}

/// Whether `c` is an ASCII decimal digit.
pub open spec fn is_digit(c: char) -> bool {
    48 <= c as u32 <= 57
}

/// The numeric value of an ASCII decimal digit.
pub open spec fn digit_val(c: char) -> int {
    c as u32 - 48
}

/// Whether every character of `s` is an ASCII decimal digit.
pub open spec fn all_digits(s: Seq<char>) -> bool {
    forall|j: int| 0 <= j < s.len() ==> is_digit(s[j])
}

/// The non-negative integer that a digit string denotes in base 10.
pub open spec fn digits_value(s: Seq<char>) -> int
    decreases s.len(),
{
    if s.len() == 0 {
        0
    } else {
        digits_value(s.drop_last()) * 10 + digit_val(s.last())
    }
}

/// Whether the token opens with an explicit sign character.
pub open spec fn has_sign(s: Seq<char>) -> bool {
    s.len() > 0 && (s[0] == '+' || s[0] == '-')
}

/// The digit part of the token: everything behind an explicit sign.
pub open spec fn token_digits(s: Seq<char>) -> Seq<char> {
    if has_sign(s) {
        s.subrange(1, s.len() as int)
    } else {
        s
    }
}

/// Whether the token is a well-formed base-10 integer: an optional sign
/// followed by at least one digit and nothing else.
pub open spec fn is_int_token(s: Seq<char>) -> bool {
    token_digits(s).len() > 0 && all_digits(token_digits(s))
}

/// The magnitude that the token's digits denote.
pub open spec fn token_magnitude(s: Seq<char>) -> int {
    digits_value(token_digits(s))
}

/// The signed value that the token denotes.
pub open spec fn token_value(s: Seq<char>) -> int
    recommends
        is_int_token(s),
{
    if s.len() > 0 && s[0] == '-' {
        -token_magnitude(s)
    } else {
        token_magnitude(s)
    }
}

/// Whether the token denotes a signed 64-bit integer: well-formed, and its
/// value within the representable range.
pub open spec fn parse_i64_ok(s: Seq<char>) -> bool {
    is_int_token(s) && i64::MIN <= token_value(s) <= i64::MAX
}

/// The offset that a valid token denotes. A leading `+` keeps the value as an
/// absolute position, with the literal `+0` set apart; a bare count is read
/// as "the last so many units" and therefore negated.
pub open spec fn parsed_take_value(s: Seq<char>) -> TakeValue
    recommends
        parse_i64_ok(s),
{
    let v = token_value(s);
    if s[0] == '+' {
        if v == 0 {
            TakeValue::PlusZero
        } else {
            TakeValue::TakeNum(v as i64)
        }
    } else if v > 0 {
        TakeValue::TakeNum((-v) as i64)
    } else {
        TakeValue::TakeNum(v as i64)
    }
}

proof fn lemma_digits_value_nonneg(s: Seq<char>)
    requires
        all_digits(s),
    ensures
        digits_value(s) >= 0,
    decreases s.len(),
{
    if s.len() > 0 {
        assert(all_digits(s.drop_last()));
        lemma_digits_value_nonneg(s.drop_last());
    }
}

/// Appending further digits never shrinks the denoted value.
proof fn lemma_digits_value_mono(s: Seq<char>, p: int)
    requires
        0 <= p <= s.len(),
        all_digits(s),
    ensures
        digits_value(s.take(p)) <= digits_value(s),
    decreases s.len() - p,
{
    if p < s.len() {
        assert(s.take(p + 1).drop_last() =~= s.take(p));
        assert(all_digits(s.take(p)));
        lemma_digits_value_nonneg(s.take(p));
        lemma_digits_value_mono(s, p + 1);
    } else {
        assert(s.take(p) =~= s);
    }
}

/// Parses a textual offset token.
///
/// A well-formed base-10 integer token (optional sign, then digits) in the
/// 64-bit range yields the offset it denotes; any other token comes back
/// unchanged as the error.
pub fn parse_num(val: &str) -> (r: Result<TakeValue, String>)
    ensures
        r is Ok <==> parse_i64_ok(val@),
        r is Ok ==> r->Ok_0 == parsed_take_value(val@),
        r is Err ==> r->Err_0@ == val@,
{
    let n = val.unicode_len();
    if n == 0 {
        return Err(val.to_owned());
    }
    let first = val.get_char(0);
    let neg = first == '-';
    let signed = first == '+' || first == '-';
    let start: usize = if signed {
        1
    } else {
        0
    };
    proof {
        assert(val@.subrange(start as int, n as int) =~= token_digits(val@));
    }
    if n == start {
        return Err(val.to_owned());
    }
    // The largest magnitude that still fits, which depends on the sign.
    let bound: u64 = if neg {
        9223372036854775808
    } else {
        9223372036854775807
    };
    let mut acc: u64 = 0;
    let mut i: usize = start;
    while i < n
        invariant
            start <= i <= n == val@.len(),
            start == (if has_sign(val@) { 1int } else { 0int }),
            neg == (val@.len() > 0 && val@[0] == '-'),
            bound == (if neg { 9223372036854775808u64 } else { 9223372036854775807u64 }),
            acc <= bound,
            acc as int == digits_value(val@.subrange(start as int, i as int)),
            forall|j: int| start <= j < i ==> is_digit(val@[j]),
        decreases n - i,
    {
        let c = val.get_char(i);
        let cv = c as u32;
        if cv < 48 || cv > 57 {
            proof {
                assert(token_digits(val@)[i - start] == val@[i as int]);
                assert(!all_digits(token_digits(val@)));
            }
            return Err(val.to_owned());
        }
        let d = (cv - 48) as u64;
        if acc > (bound - d) / 10 {
            proof {
                vstd::arithmetic::div_mod::lemma_fundamental_div_mod((bound - d) as int, 10);
                assert(acc * 10 + d > bound);
                let dstr = token_digits(val@);
                assert(dstr.take(i - start + 1) =~= val@.subrange(start as int, i + 1));
                assert(dstr.take(i - start + 1).drop_last() =~= val@.subrange(
                    start as int,
                    i as int,
                ));
                if parse_i64_ok(val@) {
                    assert(digits_value(dstr.take(i - start + 1)) == acc * 10 + d);
                    lemma_digits_value_mono(dstr, i - start + 1);
                }
            }
            return Err(val.to_owned());
        }
        proof {
            vstd::arithmetic::div_mod::lemma_fundamental_div_mod((bound - d) as int, 10);
            assert(acc * 10 + d <= bound);
            assert(val@.subrange(start as int, i + 1).drop_last() =~= val@.subrange(
                start as int,
                i as int,
            ));
        }
        acc = acc * 10 + d;
        i = i + 1;
    }
    proof {
        assert(val@.subrange(start as int, n as int) =~= token_digits(val@));
        assert(forall|j: int|
            0 <= j < token_digits(val@).len() ==> token_digits(val@)[j] == val@[j + start]);
        assert(all_digits(token_digits(val@)));
        assert(acc as int == token_magnitude(val@));
    }
    let value: i64 = if neg {
        if acc == 9223372036854775808 {
            i64::MIN
        } else {
            -(acc as i64)
        }
    } else {
        acc as i64
    };
    proof {
        assert(value as int == token_value(val@));
    }
    if first == '+' {
        if value == 0 {
            Ok(TakeValue::PlusZero)
        } else {
            Ok(TakeValue::TakeNum(value))
        }
    } else if value > 0 {
        Ok(TakeValue::TakeNum(-value))
    } else {
        Ok(TakeValue::TakeNum(value))
    }
}

/// Absolute addressing: for a non-negative count `k` and a positive total,
/// `TakeNum(k)` resolves to nothing when `k` exceeds the total, and to the
/// zero-based index `k - 1` when `1 <= k <= total`.
pub proof fn lemma_resolve_from_start(k: i64, total: i64)
    requires
        k >= 0,
        total >= 1,
    ensures
        k > total ==> start_index(TakeValue::TakeNum(k), total as int) is None,
        1 <= k <= total ==> start_index(TakeValue::TakeNum(k), total as int) == Some(k - 1),
{
}

/// A zero count in its signed form always resolves to nothing, whatever the
/// total.
pub proof fn lemma_resolve_zero(total: i64)
    ensures
        start_index(TakeValue::TakeNum(0), total as int) is None,
{
}

/// The explicit `+0` form resolves to nothing on an empty input and to the
/// very first unit otherwise.
pub proof fn lemma_resolve_plus_zero(total: i64)
    requires
        total >= 0,
    ensures
        total == 0 ==> start_index(TakeValue::PlusZero, total as int) is None,
        total > 0 ==> start_index(TakeValue::PlusZero, total as int) == Some(0int),
{
}

/// Counting from the end: a negative count `n` resolves to `total + n`, and
/// clamps to the first unit when the request exceeds what is available.
pub proof fn lemma_resolve_from_end(n: i64, total: i64)
    requires
        n < 0,
        total >= 0,
    ensures
        total + n < 0 ==> start_index(TakeValue::TakeNum(n), total as int) == Some(0int),
        total + n >= 0 ==> start_index(TakeValue::TakeNum(n), total as int) == Some(
            total + n,
        ),
{
}

} // verus!

