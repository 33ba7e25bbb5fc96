//! Decimal text: rendering numbers into the log's CSV cells and
//! parsing them back.
//!
//! Everything is stated against three spec functions: `dec_digits`
//! (the digits of a number, most significant first), `pad_digits`
//! (a fixed-width, zero-padded digit run) and `digits_val` (the value
//! of a digit run). The parsers are proved to be exact inverses of the
//! renderers.

use vstd::prelude::*;
use vstd::string::*;
use vstd::arithmetic::mul::*;
use vstd::arithmetic::div_mod::*;
use crate::fixed::{Decimal, pow10, pow10_u64, MAX_EXP};

verus! {

/// The character for one decimal digit value.
pub open spec fn digit_char(d: nat) -> char {
    if d == 0 {
        '0'
    } else if d == 1 {
        '1'
    } else if d == 2 {
        '2'
    } else if d == 3 {
        '3'
    } else if d == 4 {
        '4'
    } else if d == 5 {
        '5'
    } else if d == 6 {
        '6'
    } else if d == 7 {
        '7'
    } else if d == 8 {
        '8'
    } else {
        '9'
    }
}

pub open spec fn is_digit(c: char) -> bool {
    c == '0' || c == '1' || c == '2' || c == '3' || c == '4' || c == '5' || c == '6' || c == '7'
        || c == '8' || c == '9'
}

/// The value of one digit character (0 for anything else).
pub open spec fn digit_val(c: char) -> nat {
    if c == '1' {
        1
    } else if c == '2' {
        2
    } else if c == '3' {
        3
    } else if c == '4' {
        4
    } else if c == '5' {
        5
    } else if c == '6' {
        6
    } else if c == '7' {
        7
    } else if c == '8' {
        8
    } else if c == '9' {
        9
    } else {
        0
    }
}

/// The decimal digits of `n`, most significant first, no leading zero
/// except for `n == 0` itself.
pub open spec fn dec_digits(n: nat) -> Seq<char>
    decreases n,
{
    if n < 10 {
        seq![digit_char(n)]
    } else {
        dec_digits(n / 10) + seq![digit_char(n % 10)]
    }
}

/// Exactly `e` digits: the last `e` decimal digits of `n`, zero-padded
/// on the left.
pub open spec fn pad_digits(n: nat, e: nat) -> Seq<char>
    decreases e,
{
    if e == 0 {
        Seq::empty()
    } else {
        pad_digits(n / 10, (e - 1) as nat) + seq![digit_char(n % 10)]
    }
}

pub open spec fn all_digits(s: Seq<char>) -> bool {
    forall|i: int| 0 <= i < s.len() ==> is_digit(#[trigger] s[i])
}

/// The number a digit run denotes.
pub open spec fn digits_val(s: Seq<char>) -> nat
    decreases s.len(),
{
    if s.len() == 0 {
        0
    } else {
        digits_val(s.drop_last()) * 10 + digit_val(s.last())
    }
}

/// A nonempty digit run denoting a number no larger than `max`.
pub open spec fn is_num(s: Seq<char>, max: nat) -> bool {
    s.len() > 0 && all_digits(s) && digits_val(s) <= max
}

/// Index of the first occurrence of `c` in `s` at or after `i`, or -1.
pub open spec fn find_from(s: Seq<char>, c: char, i: int) -> int
    decreases s.len() - i when 0 <= i <= s.len()
{
    if i >= s.len() {
        -1
    } else if s[i] == c {
        i
    } else {
        find_from(s, c, i + 1)
    }
}

pub proof fn lemma_find_found(s: Seq<char>, c: char, i: int, k: int)
    requires
        0 <= i <= k < s.len(),
        s[k] == c,
        forall|j: int| i <= j < k ==> s[j] != c,
    ensures
        find_from(s, c, i) == k,
    decreases k - i,
{
    if i < k {
        lemma_find_found(s, c, i + 1, k);
    }
}

pub proof fn lemma_find_none(s: Seq<char>, c: char, i: int)
    requires
        0 <= i <= s.len(),
        forall|j: int| i <= j < s.len() ==> s[j] != c,
    ensures
        find_from(s, c, i) == -1,
    decreases s.len() - i,
{
    if i < s.len() {
        lemma_find_none(s, c, i + 1);
    }
}

pub proof fn lemma_digit_char_val(d: nat)
    requires
        d < 10,
    ensures
        is_digit(digit_char(d)),
        digit_val(digit_char(d)) == d,
{
}

/// `dec_digits` renders only digits, at least one, and `digits_val`
/// reads the number back.
pub proof fn lemma_dec_digits_props(n: nat)
    ensures
        dec_digits(n).len() >= 1,
        all_digits(dec_digits(n)),
        digits_val(dec_digits(n)) == n,
    decreases n,
{
    if n < 10 {
        lemma_digit_char_val(n);
        let s = dec_digits(n);
        assert(s.drop_last() =~= Seq::<char>::empty());
        assert(digits_val(Seq::<char>::empty()) == 0);
        assert(s.last() == digit_char(n));
        assert(digits_val(s) == digits_val(s.drop_last()) * 10 + digit_val(s.last()));
    } else {
        lemma_dec_digits_props(n / 10);
        lemma_digit_char_val(n % 10);
        let s = dec_digits(n);
        assert(s.drop_last() =~= dec_digits(n / 10));
        assert(s.last() == digit_char(n % 10));
        assert(digits_val(s) == (n / 10) * 10 + n % 10);
        assert(n == 10 * (n / 10) + n % 10) by {
            lemma_fundamental_div_mod(n as int, 10);
        }
        assert((n / 10) * 10 == 10 * (n / 10)) by {
            lemma_mul_is_commutative(n as int / 10, 10);
        }
    }
}

/// `pad_digits` renders exactly `e` digit characters whose value is
/// `n % 10^e`.
pub proof fn lemma_pad_digits_props(n: nat, e: nat)
    ensures
        pad_digits(n, e).len() == e,
        all_digits(pad_digits(n, e)),
        digits_val(pad_digits(n, e)) == n % pow10(e),
    decreases e,
{
    if e == 0 {
        assert(n as int % 1 == 0) by (nonlinear_arith);
    } else {
        lemma_pad_digits_props(n / 10, (e - 1) as nat);
        lemma_digit_char_val(n % 10);
        let s = pad_digits(n, e);
        assert(s.drop_last() =~= pad_digits(n / 10, (e - 1) as nat));
        assert(digits_val(s) == ((n / 10) % pow10((e - 1) as nat)) * 10 + n % 10);
        let p = pow10((e - 1) as nat) as int;
        assert(p > 0) by {
            lemma_pow10_pos((e - 1) as nat);
        }
        assert(n % (10 * p) as nat == 10 * ((n as int / 10) % p) + n as int % 10) by {
            lemma_mod_breakdown(n as int, 10, p);
        }
        assert(((n / 10) % pow10((e - 1) as nat)) * 10 == 10 * ((n as int / 10) % p)) by {
            lemma_mul_is_commutative((n as int / 10) % p, 10);
        }
        assert(pow10(e) == 10 * p);
    }
}

pub proof fn lemma_pow10_pos(e: nat)
    ensures
        pow10(e) >= 1,
    decreases e,
{
    if e > 0 {
        lemma_pow10_pos((e - 1) as nat);
    }
}

/// Splitting a digit run splits its value by a power of ten.
pub proof fn lemma_digits_val_append(a: Seq<char>, b: Seq<char>)
    ensures
        digits_val(a + b) == digits_val(a) * pow10(b.len()) + digits_val(b),
    decreases b.len(),
{
    if b.len() == 0 {
        assert(a + b =~= a);
        lemma_mul_basics(digits_val(a) as int);
    } else {
        lemma_digits_val_append(a, b.drop_last());
        assert((a + b).drop_last() =~= a + b.drop_last());
        assert((a + b).last() == b.last());
        let va = digits_val(a) as int;
        let p = pow10(b.drop_last().len()) as int;
        assert(digits_val(a + b) == (va * p + digits_val(b.drop_last())) * 10 + digit_val(
            b.last(),
        ));
        assert((va * p + digits_val(b.drop_last())) * 10 == va * (p * 10) + digits_val(
            b.drop_last(),
        ) * 10) by (nonlinear_arith);
        assert(pow10(b.len()) == 10 * p);
        assert(va * (p * 10) == va * (10 * p)) by (nonlinear_arith);
    }
}

/// A digit run's value is below `10^length`.
pub proof fn lemma_digits_val_bound(s: Seq<char>)
    ensures
        digits_val(s) < pow10(s.len()),
    decreases s.len(),
{
    if s.len() == 0 {
    } else {
        lemma_digits_val_bound(s.drop_last());
        let v = digits_val(s.drop_last()) as int;
        let p = pow10(s.drop_last().len()) as int;
        assert(v <= p - 1);
        assert(v * 10 <= (p - 1) * 10) by (nonlinear_arith)
            requires
                v <= p - 1,
        ;
        assert(digit_val(s.last()) <= 9);
        assert(pow10(s.len()) == 10 * p);
    }
}

/// A prefix of a digit run never denotes more than the whole run.
pub proof fn lemma_digits_val_prefix(a: Seq<char>, b: Seq<char>)
    ensures
        digits_val(a) <= digits_val(a + b),
{
    lemma_digits_val_append(a, b);
    lemma_pow10_pos(b.len());
    let va = digits_val(a) as int;
    let p = pow10(b.len()) as int;
    assert(va * 1 <= va * p) by (nonlinear_arith)
        requires
            va >= 0,
            p >= 1,
    ;
    lemma_mul_basics(va);
}

/// One digit as a string slice.
fn digit_str(d: u64) -> (r: &'static str)
    requires
        d < 10,
    ensures
        r@ == seq![digit_char(d as nat)],
{
    proof {
        reveal_strlit("0");
        reveal_strlit("1");
        reveal_strlit("2");
        reveal_strlit("3");
        reveal_strlit("4");
        reveal_strlit("5");
        reveal_strlit("6");
        reveal_strlit("7");
        reveal_strlit("8");
        reveal_strlit("9");
    }
    let r = match d {
        0 => "0",
        1 => "1",
        2 => "2",
        3 => "3",
        4 => "4",
        5 => "5",
        6 => "6",
        7 => "7",
        8 => "8",
        _ => "9",
    };
    proof {
        assert(r@ =~= seq![digit_char(d as nat)]);
    }
    r
}

/// Render `n` in decimal.
pub fn u64_string(n: u64) -> (s: String)
    ensures
        s@ == dec_digits(n as nat),
    decreases n,
{
    if n < 10 {
        String::from_str(digit_str(n))
    } else {
        let mut s = u64_string(n / 10);
        s.append(digit_str(n % 10));
        s
    }
}

/// Render the last `e` decimal digits of `n`, zero-padded.
pub fn pad_string(n: u64, e: u32) -> (s: String)
    ensures
        s@ == pad_digits(n as nat, e as nat),
    decreases e,
{
    if e == 0 {
        let s = String::new();
        proof {
            assert(s@ =~= pad_digits(n as nat, 0));
        }
        s
    } else {
        let mut s = pad_string(n / 10, e - 1);
        s.append(digit_str(n % 10));
        s
    }
}

/// First position of `c` within `s[from..to]`, with the usual
/// first-occurrence guarantee.
pub fn find_char(s: &str, c: char, from: usize, to: usize) -> (r: Option<usize>)
    requires
        from <= to <= s@.len(),
    ensures
        match r {
            Some(k) => {
                &&& from <= k < to
                &&& s@[k as int] == c
                &&& forall|j: int| from <= j < k ==> s@[j] != c
            },
            None => forall|j: int| from <= j < to ==> s@[j] != c,
        },
{
    let mut j: usize = from;
    while j < to
        invariant
            from <= j <= to <= s@.len(),
            forall|i: int| from <= i < j ==> s@[i] != c,
        decreases to - j,
    {
        if s.get_char(j) == c {
            return Some(j);
        }
        j = j + 1;
    }
    None
}

/// Read a digit run out of `s[from..to]`: the number it denotes, if it
/// is one and fits under `max`.
pub fn parse_digits(s: &str, from: usize, to: usize, max: u64) -> (r: Option<u64>)
    requires
        from <= to <= s@.len(),
        max <= u32::MAX as u64,
    ensures
        match r {
            Some(v) => is_num(s@.subrange(from as int, to as int), max as nat) && v
                == digits_val(s@.subrange(from as int, to as int)),
            None => !is_num(s@.subrange(from as int, to as int), max as nat),
        },
{
    let ghost whole = s@.subrange(from as int, to as int);
    if from == to {
        return None;
    }
    let mut acc: u64 = 0;
    let mut j: usize = from;
    while j < to
        invariant
            from <= j <= to <= s@.len(),
            max <= u32::MAX as u64,
            whole == s@.subrange(from as int, to as int),
            all_digits(s@.subrange(from as int, j as int)),
            acc == digits_val(s@.subrange(from as int, j as int)),
            acc <= max,
        decreases to - j,
    {
        let ghost pre = s@.subrange(from as int, j as int);
        let c = s.get_char(j);
        let d: u64 = match c {
            '0' => 0,
            '1' => 1,
            '2' => 2,
            '3' => 3,
            '4' => 4,
            '5' => 5,
            '6' => 6,
            '7' => 7,
            '8' => 8,
            '9' => 9,
            _ => {
                proof {
                    assert(whole[j as int - from as int] == c);
                    assert(!is_digit(whole[j as int - from as int]));
                    assert(!all_digits(whole));
                }
                return None;
            },
        };
        let ghost pre1 = s@.subrange(from as int, j as int + 1);
        proof {
            assert(pre1.drop_last() =~= pre);
            assert(pre1.last() == c);
            assert(digit_val(c) == d);
        }
        acc = acc * 10 + d;
        proof {
            assert(acc == digits_val(pre1));
        }
        if acc > max {
            proof {
                let rest = s@.subrange(j as int + 1, to as int);
                assert(whole =~= pre1 + rest);
                lemma_digits_val_prefix(pre1, rest);
            }
            return None;
        }
        j = j + 1;
    }
    proof {
        assert(s@.subrange(from as int, j as int) =~= whole);
    }
    Some(acc)
}

/// The decimal rendering of a `Decimal`: the integer part, then, when
/// there are fractional digits, a point and exactly `exp` of them.
pub open spec fn dec_text(d: Decimal) -> Seq<char> {
    if d.exp == 0 {
        dec_digits(d.mant as nat)
    } else {
        dec_digits((d.mant as nat) / pow10(d.exp as nat)) + seq!['.'] + pad_digits(
            d.mant as nat,
            d.exp as nat,
        )
    }
}

/// Render a decimal exactly.
pub fn dec_string(d: &Decimal) -> (s: String)
    requires
        d.wf(),
    ensures
        s@ == dec_text(*d),
{
    if d.exp == 0 {
        u64_string(d.mant as u64)
    } else {
        let p = pow10_u64(d.exp);
        let mut s = u64_string((d.mant as u64) / p);
        proof {
            reveal_strlit(".");
        }
        s.append(".");
        let frac = pad_string(d.mant as u64, d.exp);
        s.append(frac.as_str());
        proof {
            assert(s@ =~= dec_text(*d));
        }
        s
    }
}

/// What a decimal cell parses to: digits, or digits around a single
/// point with at most `MAX_EXP` fractional digits, the whole mantissa
/// fitting in 32 bits.
pub open spec fn parse_dec_spec(s: Seq<char>) -> Option<Decimal> {
    let dot = find_from(s, '.', 0);
    if dot < 0 {
        if is_num(s, u32::MAX as nat) {
            Some(Decimal { mant: digits_val(s) as u32, exp: 0 })
        } else {
            None
        }
    } else {
        let int_s = s.subrange(0, dot);
        let frac_s = s.subrange(dot + 1, s.len() as int);
        if int_s.len() > 0 && frac_s.len() > 0 && frac_s.len() <= MAX_EXP as nat && all_digits(
            int_s,
        ) && all_digits(frac_s) && digits_val(int_s) * pow10(frac_s.len()) + digits_val(frac_s)
            <= u32::MAX as nat {
            Some(
                Decimal {
                    mant: (digits_val(int_s) * pow10(frac_s.len()) + digits_val(frac_s)) as u32,
                    exp: frac_s.len() as u32,
                },
            )
        } else {
            None
        }
    }
}

/// Parse a decimal cell out of `s[from..to]`.
pub fn parse_decimal(s: &str, from: usize, to: usize) -> (r: Option<Decimal>)
    requires
        from <= to <= s@.len(),
    ensures
        r == parse_dec_spec(s@.subrange(from as int, to as int)),
{
    let ghost whole = s@.subrange(from as int, to as int);
    match find_char(s, '.', from, to) {
        None => {
            proof {
                lemma_find_none(whole, '.', 0);
            }
            match parse_digits(s, from, to, u32::MAX as u64) {
                Some(v) => Some(Decimal { mant: v as u32, exp: 0 }),
                None => None,
            }
        },
        Some(k) => {
            proof {
                lemma_find_found(whole, '.', 0, k - from);
            }
            let ghost int_s = whole.subrange(0, k - from);
            let ghost frac_s = whole.subrange(k - from + 1, whole.len() as int);
            proof {
                assert(int_s =~= s@.subrange(from as int, k as int));
                assert(frac_s =~= s@.subrange(k as int + 1, to as int));
            }
            let frac_len: usize = to - (k + 1);
            if frac_len == 0 || frac_len > 6 {
                return None;
            }
            let vi = match parse_digits(s, from, k, u32::MAX as u64) {
                Some(v) => v,
                None => {
                    proof {
                        if int_s.len() > 0 && all_digits(int_s) {
                            let p = pow10(frac_s.len()) as int;
                            lemma_pow10_pos(frac_s.len());
                            let va = digits_val(int_s) as int;
                            assert(va * 1 <= va * p) by (nonlinear_arith)
                                requires
                                    va >= 0,
                                    p >= 1,
                            ;
                            lemma_mul_basics(va);
                        }
                    }
                    return None;
                },
            };
            let vf = match parse_digits(s, k + 1, to, 999999) {
                Some(v) => v,
                None => {
                    proof {
                        if all_digits(frac_s) {
                            lemma_digits_val_bound(frac_s);
                            lemma_pow10_le(frac_s.len(), 6);
                            crate::fixed::lemma_pow10_small();
                        }
                    }
                    return None;
                },
            };
            let p = pow10_u64(frac_len as u32);
            proof {
                lemma_mul_upper_bound(vi as int, u32::MAX as int, p as int, 1000000int);
            }
            let m: u64 = vi * p + vf;
            if m > u32::MAX as u64 {
                None
            } else {
                Some(Decimal { mant: m as u32, exp: frac_len as u32 })
            }
        },
    }
}

/// Powers of ten are monotone in the exponent.
pub proof fn lemma_pow10_le(a: nat, b: nat)
    requires
        a <= b,
    ensures
        pow10(a) <= pow10(b),
    decreases b,
{
    if a < b {
        lemma_pow10_le(a, (b - 1) as nat);
        lemma_pow10_pos((b - 1) as nat);
    }
}

/// Law: rendering a well-formed decimal and parsing the cell back
/// yields the same decimal, bit for bit.
pub proof fn lemma_dec_round_trip(d: Decimal)
    requires
        d.wf(),
    ensures
        parse_dec_spec(dec_text(d)) == Some(d),
{
    crate::fixed::lemma_pow10_small();
    if d.exp == 0 {
        let s = dec_text(d);
        lemma_dec_digits_props(d.mant as nat);
        assert(forall|j: int| 0 <= j < s.len() ==> s[j] != '.');
        lemma_find_none(s, '.', 0);
    } else {
        let e = d.exp as nat;
        let q = (d.mant as nat) / pow10(e);
        let a = dec_digits(q);
        let b = pad_digits(d.mant as nat, e);
        let s = dec_text(d);
        lemma_dec_digits_props(q);
        lemma_pad_digits_props(d.mant as nat, e);
        assert(s == a + seq!['.'] + b);
        assert(s[a.len() as int] == '.');
        assert(forall|j: int| 0 <= j < a.len() ==> s[j] == a[j] && s[j] != '.');
        lemma_find_found(s, '.', 0, a.len() as int);
        let int_s = s.subrange(0, a.len() as int);
        let frac_s = s.subrange(a.len() as int + 1, s.len() as int);
        assert(int_s =~= a);
        assert(frac_s =~= b);
        lemma_pow10_pos(e);
        assert(d.mant as int == pow10(e) * (d.mant as int / pow10(e) as int) + d.mant as int
            % pow10(e) as int) by {
            lemma_fundamental_div_mod(d.mant as int, pow10(e) as int);
        }
        assert(q * pow10(e) == pow10(e) * q) by {
            lemma_mul_is_commutative(q as int, pow10(e) as int);
        }
        assert(digits_val(int_s) * pow10(frac_s.len()) + digits_val(frac_s) == d.mant as nat);
    }
}

} // verus!
