//! Decimal strings: rendering an unsigned integer (the timestamp header)
//! and parsing the exchange's string-typed decimal fields into an exact
//! mantissa/scale pair.

use vstd::prelude::*;

use crate::errors::GateError;
use crate::hexstr::hex_digit_char;
use vstd::string::StringSliceAdditionalSpecFns;

verus! {

/// The decimal digit string of `n`, most significant digit first, with no
/// leading zeros (a single `'0'` for zero).
pub open spec fn dec_chars_of(n: nat) -> Seq<char>
    decreases n,
{
    if n < 10 {
        seq![hex_digit_char(n)]
    } else {
        dec_chars_of(n / 10) + seq![hex_digit_char(n % 10)]
    }
}

/// An ASCII decimal digit character.
pub open spec fn is_dec_char(c: char) -> bool {
    48 <= c as u32 && c as u32 <= 57
}

/// Every character of a decimal rendering is a digit.
pub proof fn lemma_dec_chars_digits(n: nat)
    ensures
        dec_chars_of(n).len() >= 1,
        forall|i: int| 0 <= i < dec_chars_of(n).len() ==> is_dec_char(#[trigger] dec_chars_of(n)[i]),
    decreases n,
{
    if n >= 10 {
        lemma_dec_chars_digits(n / 10);
    }
}

/// The decimal rendering is canonical: two numbers with the same digit
/// string are the same number.
pub proof fn lemma_dec_chars_injective(a: nat, b: nat)
    requires
        dec_chars_of(a) == dec_chars_of(b),
    ensures
        a == b,
    decreases a,
{
    if a < 10 && b < 10 {
        assert(dec_chars_of(a)[0] == hex_digit_char(a));
        assert(dec_chars_of(b)[0] == hex_digit_char(b));
    } else if a < 10 {
        lemma_dec_chars_digits(b / 10);
        assert(dec_chars_of(b).len() >= 2);
    } else if b < 10 {
        lemma_dec_chars_digits(a / 10);
        assert(dec_chars_of(a).len() >= 2);
    } else {
        let da = dec_chars_of(a);
        let db = dec_chars_of(b);
        lemma_dec_chars_digits(a / 10);
        lemma_dec_chars_digits(b / 10);
        assert(da.last() == hex_digit_char(a % 10));
        assert(db.last() == hex_digit_char(b % 10));
        assert(a % 10 == b % 10);
        assert(dec_chars_of(a / 10) =~= da.take(da.len() - 1));
        assert(dec_chars_of(b / 10) =~= db.take(db.len() - 1));
        lemma_dec_chars_injective(a / 10, b / 10);
    }
}

/// The digit characters of `digits` in reverse order: `digits` holds digit
/// values least significant first, the result reads most significant first.
spec fn rev_digit_chars(digits: Seq<u8>) -> Seq<char> {
    Seq::new(digits.len(), |i: int| hex_digit_char(digits[digits.len() - 1 - i] as nat))
}

/// Render `n` in decimal, matching `dec_chars_of`.
pub fn u64_to_dec_string(n: u64) -> (r: String)
    ensures
        r@ == dec_chars_of(n as nat),
{
    let mut digits: Vec<u8> = Vec::new();
    let mut m: u64 = n;
    while m >= 10
        invariant
            dec_chars_of(n as nat) =~= dec_chars_of(m as nat) + rev_digit_chars(digits@),
            forall|i: int| 0 <= i < digits@.len() ==> #[trigger] digits@[i] < 10,
        decreases m,
    {
        let ghost pre = digits@;
        let ghost m0 = m as nat;
        let d: u8 = (m % 10) as u8;
        digits.push(d);
        m = m / 10;
        proof {
            assert(rev_digit_chars(digits@) =~= seq![hex_digit_char(d as nat)] + rev_digit_chars(
                pre,
            ));
            assert(dec_chars_of(m0) == dec_chars_of(m0 / 10) + seq![hex_digit_char(m0 % 10)]);
            assert(dec_chars_of(m as nat) + rev_digit_chars(digits@) =~= (dec_chars_of(m as nat)
                + seq![hex_digit_char(d as nat)]) + rev_digit_chars(pre));
        }
    }
    let mut out = String::new();
    out.append(crate::hexstr::hex_digit_str(m as u8));
    let mut i: usize = digits.len();
    while i > 0
        invariant
            i <= digits@.len(),
            forall|j: int| 0 <= j < digits@.len() ==> #[trigger] digits@[j] < 10,
            out@ =~= seq![hex_digit_char(m as nat)] + rev_digit_chars(digits@).take(
                digits@.len() - i,
            ),
            dec_chars_of(n as nat) =~= dec_chars_of(m as nat) + rev_digit_chars(digits@),
            m < 10,
        decreases i,
    {
        let ghost done = digits@.len() - i;
        i = i - 1;
        out.append(crate::hexstr::hex_digit_str(digits[i]));
        proof {
            assert(rev_digit_chars(digits@)[done] == hex_digit_char(digits@[i as int] as nat));
            assert(rev_digit_chars(digits@).take(done + 1) =~= rev_digit_chars(digits@).take(done)
                + seq![hex_digit_char(digits@[i as int] as nat)]);
        }
    }
    proof {
        assert(rev_digit_chars(digits@).take(digits@.len() as int) =~= rev_digit_chars(digits@));
        assert(dec_chars_of(m as nat) =~= seq![hex_digit_char(m as nat)]);
    }
    out
}

/// An ASCII decimal digit byte.
pub open spec fn is_digit_byte(b: u8) -> bool {
    48 <= b && b <= 57
}

/// Every byte of `s` is a decimal digit.
pub open spec fn all_digits(s: Seq<u8>) -> bool {
    forall|i: int| 0 <= i < s.len() ==> is_digit_byte(#[trigger] s[i])
}

/// The value of a digit string read in base 10.
pub open spec fn digits_val(s: Seq<u8>) -> nat
    decreases s.len(),
{
    if s.len() == 0 {
        0
    } else {
        digits_val(s.drop_last()) * 10 + (s.last() - 48) as nat
    }
}

/// Ten to the `n`.
pub open spec fn pow10(n: nat) -> nat
    decreases n,
{
    if n == 0 {
        1
    } else {
        10 * pow10((n - 1) as nat)
    }
}

pub proof fn lemma_pow10_18()
    ensures
        pow10(18) == 1000000000000000000,
{
    reveal_with_fuel(pow10, 20);
}

pub proof fn lemma_pow10_pos(n: nat)
    ensures
        pow10(n) >= 1,
    decreases n,
{
    if n > 0 {
        lemma_pow10_pos((n - 1) as nat);
    }
}

pub proof fn lemma_pow10_le(a: nat, b: nat)
    requires
        a <= b,
    ensures
        pow10(a) <= pow10(b),
    decreases b,
{
    if a < b {
        lemma_pow10_le(a, (b - 1) as nat);
        lemma_pow10_pos((b - 1) as nat);
    }
}

/// A digit string is worth less than ten to its length.
proof fn lemma_digits_val_bound(s: Seq<u8>)
    requires
        all_digits(s),
    ensures
        digits_val(s) < pow10(s.len()),
    decreases s.len(),
{
    if s.len() > 0 {
        assert(forall|i: int|
            0 <= i < s.drop_last().len() ==> is_digit_byte(#[trigger] s.drop_last()[i]));
        lemma_digits_val_bound(s.drop_last());
    }
}

/// Appending a digit multiplies the value by ten and adds the digit.
proof fn lemma_digits_val_push(t: Seq<u8>, d: u8)
    ensures
        digits_val(t + seq![d]) == digits_val(t) * 10 + (d - 48) as nat,
{
    assert((t + seq![d]).drop_last() =~= t);
    assert((t + seq![d]).last() == d);
}

/// `k` splits `s` into a nonempty digit run, a dot, and a nonempty digit
/// run.
pub open spec fn dot_split(s: Seq<u8>, k: int) -> bool {
    &&& 1 <= k < s.len() - 1
    &&& s[k] == 46
    &&& all_digits(s.take(k))
    &&& all_digits(s.skip(k + 1))
}

/// Everything around the dot of a split numeral is a digit.
proof fn lemma_dot_split_digit_elsewhere(s: Seq<u8>, k: int, p: int)
    requires
        dot_split(s, k),
        0 <= p < s.len(),
        p != k,
    ensures
        is_digit_byte(s[p]),
{
    if p < k {
        assert(s.take(k)[p] == s[p]);
    } else {
        assert(s.skip(k + 1)[p - k - 1] == s[p]);
    }
}

/// A numeral has at most one dot.
proof fn lemma_dot_split_unique(s: Seq<u8>, k1: int, k2: int)
    requires
        dot_split(s, k1),
        dot_split(s, k2),
    ensures
        k1 == k2,
{
    if k1 != k2 {
        lemma_dot_split_digit_elsewhere(s, k1, k2);
    }
}

/// A byte that is neither a digit nor a dot invalidates the numeral.
proof fn lemma_bad_byte_invalid(s: Seq<u8>, p: int)
    requires
        0 <= p < s.len(),
        !is_digit_byte(s[p]),
        s[p] != 46,
    ensures
        !valid_unsigned_decimal(s),
{
    if valid_unsigned_decimal(s) {
        if !all_digits(s) {
            let k = choose|k: int| dot_split(s, k);
            lemma_dot_split_digit_elsewhere(s, k, p);
        }
    }
}

/// A second dot invalidates the numeral.
proof fn lemma_second_dot_invalid(s: Seq<u8>, p1: int, p2: int)
    requires
        0 <= p1 < p2 < s.len(),
        s[p1] == 46,
        s[p2] == 46,
    ensures
        !valid_unsigned_decimal(s),
{
    if valid_unsigned_decimal(s) {
        if all_digits(s) {
            assert(is_digit_byte(s[p1]));
        } else {
            let k = choose|k: int| dot_split(s, k);
            assert(dot_split(s, k));
            if k != p1 {
                lemma_dot_split_digit_elsewhere(s, k, p1);
            } else {
                lemma_dot_split_digit_elsewhere(s, k, p2);
            }
        }
    }
}

/// A dot opening or closing the numeral invalidates it.
proof fn lemma_edge_dot_invalid(s: Seq<u8>, p: int)
    requires
        0 <= p < s.len(),
        s[p] == 46,
        p == 0 || p == s.len() - 1,
    ensures
        !valid_unsigned_decimal(s),
{
    if valid_unsigned_decimal(s) {
        if all_digits(s) {
            assert(is_digit_byte(s[p]));
        } else {
            let k = choose|k: int| dot_split(s, k);
            assert(dot_split(s, k));
            lemma_dot_split_digit_elsewhere(s, k, p);
        }
    }
}

/// A nineteenth digit, the positions before it all digits, invalidates
/// the numeral.
proof fn lemma_too_many_digits_invalid(s: Seq<u8>, j: int)
    requires
        18 <= j < s.len(),
        all_digits(s.take(j)),
    ensures
        !valid_unsigned_decimal(s),
{
    if valid_unsigned_decimal(s) {
        if all_digits(s) && 1 <= s.len() <= 18 {
            assert(s.len() >= 19);
        } else {
            let k = choose|k: int| dot_split(s, k);
            assert(dot_split(s, k));
            assert(s.len() == 19);
            assert(k < 18);
            assert(s.take(j)[k] == s[k]);
        }
    }
}

/// A dot in a numeral of twenty or more bytes invalidates it.
proof fn lemma_long_with_dot_invalid(s: Seq<u8>, p: int)
    requires
        0 <= p < s.len(),
        s[p] == 46,
        s.len() >= 20,
    ensures
        !valid_unsigned_decimal(s),
{
    if valid_unsigned_decimal(s) {
        if all_digits(s) {
            assert(is_digit_byte(s[p]));
        }
    }
}

/// An unsigned decimal numeral: a nonempty digit run, or two nonempty
/// digit runs around one dot, with at most 18 digits in all.
pub open spec fn valid_unsigned_decimal(s: Seq<u8>) -> bool {
    ||| (all_digits(s) && 1 <= s.len() <= 18)
    ||| ((exists|k: int| dot_split(s, k)) && s.len() <= 19)
}

/// The dot position of a split numeral.
pub open spec fn dot_pos(s: Seq<u8>) -> int {
    choose|k: int| dot_split(s, k)
}

/// The digits of the numeral, the dot removed.
pub open spec fn unsigned_digits(s: Seq<u8>) -> Seq<u8> {
    if all_digits(s) {
        s
    } else {
        s.take(dot_pos(s)) + s.skip(dot_pos(s) + 1)
    }
}

pub open spec fn unsigned_mantissa(s: Seq<u8>) -> nat {
    digits_val(unsigned_digits(s))
}

/// The number of digits after the dot, zero when there is none.
pub open spec fn unsigned_scale(s: Seq<u8>) -> nat {
    if all_digits(s) {
        0
    } else {
        (s.len() - dot_pos(s) - 1) as nat
    }
}

pub open spec fn has_sign_byte(s: Seq<u8>) -> bool {
    s.len() > 0 && (s[0] == 43 || s[0] == 45)
}

/// The numeral after the optional sign byte.
pub open spec fn unsigned_part(s: Seq<u8>) -> Seq<u8> {
    if has_sign_byte(s) {
        s.skip(1)
    } else {
        s
    }
}

/// A decimal numeral with an optional leading `+` or `-`.
pub open spec fn valid_decimal(s: Seq<u8>) -> bool {
    valid_unsigned_decimal(unsigned_part(s))
}

pub open spec fn decimal_is_negative(s: Seq<u8>) -> bool {
    s.len() > 0 && s[0] == 45
}

pub open spec fn decimal_mantissa(s: Seq<u8>) -> nat {
    unsigned_mantissa(unsigned_part(s))
}

pub open spec fn decimal_scale(s: Seq<u8>) -> nat {
    unsigned_scale(unsigned_part(s))
}

/// An exact signed decimal value: `mantissa / 10^scale`, negated when
/// `negative` holds.
#[derive(Debug, Clone, Copy)]
pub struct Decimal {
    pub negative: bool,
    pub mantissa: u64,
    pub scale: u32,
}

/// Ten to the `n` as a machine integer.
pub fn pow10_u64(n: u32) -> (r: u64)
    requires
        n <= 18,
    ensures
        r == pow10(n as nat),
{
    let mut r: u64 = 1;
    let mut i: u32 = 0;
    while i < n
        invariant
            i <= n,
            n <= 18,
            r == pow10(i as nat),
        decreases n - i,
    {
        proof {
            lemma_pow10_le(i as nat + 1, 18);
            lemma_pow10_18();
        }
        r = r * 10;
        i = i + 1;
    }
    r
}

/// The digits consumed so far, the dot (at relative position `kr`, when
/// one was seen) removed; `j` is the relative position one past the last
/// consumed byte.
spec fn seen_digits(u: Seq<u8>, seen_dot: bool, kr: int, j: int) -> Seq<u8> {
    if seen_dot {
        u.take(kr) + u.subrange(kr + 1, j)
    } else {
        u.take(j)
    }
}

/// Parse a plain decimal numeral: an optional `+` or `-`, a digit run,
/// and an optional dot followed by another digit run, with at most 18
/// digits in all. Fails with `NumericParseFailure` on exactly the inputs
/// of any other shape.
#[verifier::rlimit(30)]
#[verifier::spinoff_prover]
pub fn parse_decimal(s: &str) -> (r: Result<Decimal, GateError>)
    ensures
        r is Ok <==> valid_decimal(s.spec_bytes()),
        r matches Ok(d) ==> {
            &&& d.negative == decimal_is_negative(s.spec_bytes())
            &&& d.mantissa == decimal_mantissa(s.spec_bytes())
            &&& d.scale == decimal_scale(s.spec_bytes())
            &&& d.scale <= 18
            &&& d.mantissa < pow10(18)
        },
        r matches Err(e) ==> e is NumericParseFailure,
{
    let bytes = s.as_bytes();
    let n = bytes.len();
    if n == 0 {
        return Err(GateError::NumericParseFailure);
    }
    let b0 = bytes[0];
    let has_sign = b0 == 43 || b0 == 45;
    let negative = b0 == 45;
    let start: usize = if has_sign {
        1
    } else {
        0
    };
    let ghost u = s.spec_bytes().skip(start as int);
    proof {
        assert(u == unsigned_part(s.spec_bytes()));
    }
    let mut i: usize = start;
    let mut acc: u64 = 0;
    let mut count: usize = 0;
    let mut dot: usize = 0;
    let mut seen_dot = false;
    while i < n
        invariant
            bytes@ == s.spec_bytes(),
            n == bytes@.len(),
            n >= 1,
            start == (if has_sign_byte(s.spec_bytes()) {
                1int
            } else {
                0int
            }),
            start <= i <= n,
            u == s.spec_bytes().skip(start as int),
            u == unsigned_part(s.spec_bytes()),
            u.len() == n - start,
            seen_dot ==> start < dot < i && u[dot - start] == 46,
            seen_dot ==> all_digits(u.take(dot - start)) && all_digits(
                u.subrange(dot - start + 1, i - start),
            ),
            !seen_dot ==> all_digits(u.take(i - start)),
            count == (if seen_dot {
                i - start - 1
            } else {
                i - start
            }),
            count <= 18,
            acc == digits_val(seen_digits(u, seen_dot, dot - start, i - start)),
            acc < pow10(count as nat),
        decreases n - i,
    {
        let ghost j = i - start;
        let ghost kr = dot - start;
        let ghost old_seen = seen_digits(u, seen_dot, kr, j);
        let b = bytes[i];
        proof {
            assert(u[j] == bytes@[i as int]);
        }
        if b == 46 {
            if seen_dot || i == start {
                proof {
                    if seen_dot {
                        lemma_second_dot_invalid(u, kr, j);
                    } else {
                        lemma_edge_dot_invalid(u, 0);
                    }
                }
                return Err(GateError::NumericParseFailure);
            }
            dot = i;
            seen_dot = true;
            proof {
                assert(u.subrange(j + 1, j + 1) =~= Seq::<u8>::empty());
                assert(seen_digits(u, true, j, j + 1) =~= u.take(j));
            }
        } else if 48 <= b && b <= 57 {
            if count == 18 {
                proof {
                    if seen_dot {
                        assert(u.len() >= 20);
                        lemma_long_with_dot_invalid(u, kr);
                    } else {
                        lemma_too_many_digits_invalid(u, j);
                    }
                }
                return Err(GateError::NumericParseFailure);
            }
            proof {
                lemma_digits_val_push(old_seen, b);
                if seen_dot {
                    assert(seen_digits(u, true, kr, j + 1) =~= old_seen + seq![u[j]]);
                } else {
                    assert(seen_digits(u, false, kr, j + 1) =~= old_seen + seq![u[j]]);
                }
                lemma_pow10_le(count as nat + 1, 18);
                lemma_pow10_18();
            }
            acc = acc * 10 + ((b - 48) as u64);
            count = count + 1;
        } else {
            proof {
                lemma_bad_byte_invalid(u, j);
            }
            return Err(GateError::NumericParseFailure);
        }
        i = i + 1;
    }
    if !seen_dot {
        if count == 0 {
            proof {
                if valid_unsigned_decimal(u) {
                    if !all_digits(u) {
                        let k = choose|k: int| dot_split(u, k);
                        assert(dot_split(u, k));
                    }
                }
            }
            return Err(GateError::NumericParseFailure);
        }
        proof {
            assert(u.take(n - start) =~= u);
            assert(valid_unsigned_decimal(u));
            lemma_digits_val_bound(u);
            lemma_pow10_le(u.len(), 18);
            lemma_pow10_18();
        }
        Ok(Decimal { negative, mantissa: acc, scale: 0 })
    } else {
        let ghost kr = dot - start;
        if dot == n - 1 {
            proof {
                lemma_edge_dot_invalid(u, kr);
            }
            return Err(GateError::NumericParseFailure);
        }
        proof {
            assert(u.subrange(kr + 1, n - start) =~= u.skip(kr + 1));
            assert(dot_split(u, kr));
            assert(!all_digits(u)) by {
                assert(u[kr] == 46);
            }
            let k = choose|k: int| dot_split(u, k);
            assert(dot_split(u, k));
            lemma_dot_split_unique(u, k, kr);
            assert(unsigned_digits(u) =~= seen_digits(u, true, kr, n - start));
            assert(valid_unsigned_decimal(u));
            lemma_pow10_le(count as nat, 18);
            lemma_pow10_18();
        }
        let scale: u32 = ((n - 1) - dot) as u32;
        Ok(Decimal { negative, mantissa: acc, scale })
    }
}

} // verus!

