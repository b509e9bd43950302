//! Decimal numbers as text: reading integers, writing integers and writing
//! ratios to three decimal places.

use vstd::prelude::*;

verus! {

/// `String::push` appends the character to the end of the string.
pub assume_specification[ String::push ](s: &mut String, c: char)
    ensures
        final(s)@ == old(s)@.push(c),
;

/// `c` is one of the ten decimal digits.
pub open spec fn is_digit(c: char) -> bool {
    0x30 <= c as u32 <= 0x39
}

/// The number that the decimal digit `c` stands for.
pub open spec fn digit_value(c: char) -> nat {
    (c as u32 - 0x30) as nat
}

/// Every character of `s` is a decimal digit.
pub open spec fn all_digits(s: Seq<char>) -> bool {
    forall|i: int| 0 <= i < s.len() ==> is_digit(#[trigger] s[i])
}

/// The number that a run of decimal digits stands for, most significant
/// digit first.
pub open spec fn digits_value(s: Seq<char>) -> nat
    decreases s.len(),
{
    if s.len() == 0 {
        0
    } else {
        10 * digits_value(s.drop_last()) + digit_value(s.last())
    }
}

/// The number that `s` stands for, if `s` is one digit or more.
pub open spec fn digits_number(s: Seq<char>) -> Option<nat> {
    if s.len() > 0 && all_digits(s) {
        Some(digits_value(s))
    } else {
        None
    }
}

/// The number that `s` stands for as an unsigned decimal: an optional `+`,
/// then one digit or more, and nothing else.
pub open spec fn unsigned_value(s: Seq<char>) -> Option<nat> {
    if s.len() > 0 && s[0] == '+' {
        digits_number(s.skip(1))
    } else {
        digits_number(s)
    }
}

/// The number that `s` stands for as a signed decimal: an optional `+` or
/// `-`, then one digit or more, and nothing else.
pub open spec fn signed_value(s: Seq<char>) -> Option<int> {
    if s.len() > 0 && s[0] == '-' {
        match digits_number(s.skip(1)) {
            Some(v) => Some(-(v as int)),
            None => None,
        }
    } else {
        match unsigned_value(s) {
            Some(v) => Some(v as int),
            None => None,
        }
    }
}

/// `s` read as a `u64`: its unsigned value, where that fits.
pub open spec fn u64_value(s: Seq<char>) -> Option<u64> {
    match unsigned_value(s) {
        Some(v) => if v <= u64::MAX {
            Some(v as u64)
        } else {
            None
        },
        None => None,
    }
}

/// `s` read as an `i64`: its signed value, where that fits.
pub open spec fn i64_value(s: Seq<char>) -> Option<i64> {
    match signed_value(s) {
        Some(v) => if i64::MIN <= v <= i64::MAX {
            Some(v as i64)
        } else {
            None
        },
        None => None,
    }
}

/// `s` read as an `i32`: its signed value, where that fits.
pub open spec fn i32_value(s: Seq<char>) -> Option<i32> {
    match signed_value(s) {
        Some(v) => if i32::MIN <= v <= i32::MAX {
            Some(v as i32)
        } else {
            None
        },
        None => None,
    }
}

/// The character of the decimal digit `d`.
pub open spec fn digit_char(d: int) -> char {
    (d + 0x30) as u8 as char
}

/// The decimal digits of `n`, without leading zeros.
pub open spec fn nat_text(n: nat) -> Seq<char>
    decreases n,
{
    if n < 10 {
        seq![digit_char(n as int)]
    } else {
        nat_text(n / 10).push(digit_char((n % 10) as int))
    }
}

/// The decimal text of `n`, with a leading `-` where it is negative.
pub open spec fn int_text(n: int) -> Seq<char> {
    if n < 0 {
        seq!['-'] + nat_text((-n) as nat)
    } else {
        nat_text(n as nat)
    }
}

/// The integer nearest to `n / d`; of two equally near, the even one.
pub open spec fn round_half_even(n: nat, d: nat) -> nat
    recommends
        d > 0,
{
    let q = n / d;
    let r = n % d;
    if 2 * r > d || (2 * r == d && q % 2 == 1) {
        q + 1
    } else {
        q
    }
}

/// The ratio `num / den` in thousandths, rounded to the nearest whole
/// thousandth, ties to the even one. A negative ratio rounds as its positive
/// counterpart does.
pub open spec fn thousandths(num: int, den: int) -> int
    recommends
        den > 0,
{
    if num >= 0 {
        round_half_even((1000 * num) as nat, den as nat) as int
    } else {
        -(round_half_even((1000 * (-num)) as nat, den as nat) as int)
    }
}

/// A number of thousandths written with three decimal places.
pub open spec fn thousandths_text(m: int) -> Seq<char> {
    let a: nat = if m < 0 {
        (-m) as nat
    } else {
        m as nat
    };
    let sign: Seq<char> = if m < 0 {
        seq!['-']
    } else {
        Seq::empty()
    };
    sign + nat_text(a / 1000) + seq![
        '.',
        digit_char((a / 100 % 10) as int),
        digit_char((a / 10 % 10) as int),
        digit_char((a % 10) as int),
    ]
}

/// The ratio `num / den` written with three decimal places.
pub open spec fn fixed3_text(num: int, den: int) -> Seq<char>
    recommends
        den > 0,
{
    thousandths_text(thousandths(num, den))
}

/// The number of thousandths that `s` stands for as a decimal with three
/// places: an optional `-`, one digit or more, a decimal point and three
/// digits, and nothing else.
pub open spec fn decimal3_value(s: Seq<char>) -> Option<int> {
    let negative = s.len() > 0 && s[0] == '-';
    let body = if negative {
        s.skip(1)
    } else {
        s
    };
    let whole = body.take(body.len() - 4);
    let places = body.skip(body.len() - 3);
    if body.len() >= 5 && body[body.len() - 4] == '.' && all_digits(whole) && all_digits(places) {
        let v = 1000 * digits_value(whole) + digits_value(places);
        Some(
            if negative {
                -v
            } else {
                v as int
            },
        )
    } else {
        None
    }
}

/// A longer run of digits stands for a number that is no smaller.
pub proof fn lemma_digits_value_prefix(s: Seq<char>, k: int)
    requires
        0 <= k <= s.len(),
    ensures
        digits_value(s.take(k)) <= digits_value(s),
    decreases s.len() - k,
{
    if k == s.len() {
        assert(s.take(k) =~= s);
    } else {
        lemma_digits_value_prefix(s.drop_last(), k);
        assert(s.drop_last().take(k) =~= s.take(k));
    }
}

/// The digits written for `n` are digits, at least one, and stand for `n`.
pub proof fn lemma_nat_text_reads_back(n: nat)
    ensures
        nat_text(n).len() > 0,
        all_digits(nat_text(n)),
        digits_value(nat_text(n)) == n,
    decreases n,
{
    if n < 10 {
        let t = nat_text(n);
        assert(digits_value(t.drop_last()) == 0);
    } else {
        lemma_nat_text_reads_back(n / 10);
        let t = nat_text(n);
        assert(t.drop_last() =~= nat_text(n / 10));
    }
}

/// Reading the text written for an integer gives the integer back.
pub proof fn lemma_int_text_reads_back(n: int)
    ensures
        signed_value(int_text(n)) == Some(n),
{
    if n < 0 {
        lemma_nat_text_reads_back((-n) as nat);
        assert(int_text(n).skip(1) =~= nat_text((-n) as nat));
    } else {
        lemma_nat_text_reads_back(n as nat);
    }
}

/// Three digits stand for a hundred times the first, ten times the second
/// and the third.
proof fn lemma_three_digits(d2: int, d1: int, d0: int)
    requires
        0 <= d2 < 10,
        0 <= d1 < 10,
        0 <= d0 < 10,
    ensures
        all_digits(seq![digit_char(d2), digit_char(d1), digit_char(d0)]),
        digits_value(seq![digit_char(d2), digit_char(d1), digit_char(d0)]) == 100 * d2 + 10 * d1
            + d0,
{
    let s3 = seq![digit_char(d2), digit_char(d1), digit_char(d0)];
    let s2 = seq![digit_char(d2), digit_char(d1)];
    let s1 = seq![digit_char(d2)];
    assert(s3.drop_last() =~= s2);
    assert(s2.drop_last() =~= s1);
    assert(s1.drop_last() =~= Seq::<char>::empty());
    assert(digits_value(s1.drop_last()) == 0);
    assert(digits_value(s1) == d2);
    assert(digits_value(s2) == 10 * d2 + d1);
}

/// Digits, a decimal point and three digits, after a `-` or not, read as
/// what the digits stand for in thousands and the three digits in units.
proof fn lemma_decimal3_of_parts(negative: bool, whole: Seq<char>, d2: int, d1: int, d0: int)
    requires
        whole.len() > 0,
        all_digits(whole),
        0 <= d2 < 10,
        0 <= d1 < 10,
        0 <= d0 < 10,
    ensures
        decimal3_value(
            (if negative {
                seq!['-']
            } else {
                Seq::<char>::empty()
            }) + whole + seq!['.', digit_char(d2), digit_char(d1), digit_char(d0)],
        ) == Some(
            if negative {
                -(1000 * digits_value(whole) + 100 * d2 + 10 * d1 + d0)
            } else {
                1000 * digits_value(whole) + 100 * d2 + 10 * d1 + d0
            },
        ),
{
    let sign: Seq<char> = if negative {
        seq!['-']
    } else {
        Seq::<char>::empty()
    };
    let places = seq![digit_char(d2), digit_char(d1), digit_char(d0)];
    let tail = seq!['.', digit_char(d2), digit_char(d1), digit_char(d0)];
    let body = whole + tail;
    let t = sign + whole + tail;
    lemma_three_digits(d2, d1, d0);
    assert(is_digit(whole[0]));
    assert(t[0] == if negative {
        '-'
    } else {
        whole[0]
    });
    let rest = if negative {
        t.skip(1)
    } else {
        t
    };
    assert(rest =~= body);
    assert(body.take(body.len() - 4) =~= whole);
    assert(body.skip(body.len() - 3) =~= places);
    assert(body[body.len() - 4] == '.');
}

/// Reading the text written for a number of thousandths gives the number
/// back.
pub proof fn lemma_thousandths_text_reads_back(m: int)
    ensures
        decimal3_value(thousandths_text(m)) == Some(m),
{
    let a: nat = if m < 0 {
        (-m) as nat
    } else {
        m as nat
    };
    let d2 = (a / 100 % 10) as int;
    let d1 = (a / 10 % 10) as int;
    let d0 = (a % 10) as int;
    lemma_nat_text_reads_back(a / 1000);
    lemma_thousandths_digits(a / 1000, a % 1000);
    assert(a == 1000 * (a / 1000) + 100 * d2 + 10 * d1 + d0);
    lemma_decimal3_of_parts(m < 0, nat_text(a / 1000), d2, d1, d0);
}

/// The rounded thousandths are within half a thousandth of the ratio.
pub proof fn lemma_thousandths_nearest(num: int, den: int)
    requires
        den > 0,
    ensures
        -den <= 2 * (1000 * num - thousandths(num, den) * den) <= den,
{
    let n: nat = if num >= 0 {
        (1000 * num) as nat
    } else {
        (1000 * (-num)) as nat
    };
    let d = den as nat;
    let q = n / d;
    let r = n % d;
    assert(n == q * d + r && 0 <= r < d) by {
        vstd::arithmetic::div_mod::lemma_fundamental_div_mod(n as int, d as int);
        vstd::arithmetic::div_mod::lemma_mod_bound(n as int, d as int);
        assert(d * q == q * d) by (nonlinear_arith);
    }
    assert((q + 1) * d == q * d + d) by (nonlinear_arith);
    let m = round_half_even(n, d);
    assert(-(d as int) <= 2 * (n - m * d) <= d);
    if num < 0 {
        assert((-(m as int)) * den == -(m * d)) by (nonlinear_arith)
            requires
                den == d,
        ;
    }
}

/// Reads the digits of the piece `lo..hi` of `s` as a `u64`.
pub fn parse_digits(s: &[char], lo: usize, hi: usize) -> (r: Option<u64>)
    requires
        lo <= hi <= s.len(),
    ensures
        r == match digits_number(s@.subrange(lo as int, hi as int)) {
            Some(v) => if v <= u64::MAX {
                Some(v as u64)
            } else {
                None
            },
            None => None,
        },
{
    let ghost piece = s@.subrange(lo as int, hi as int);
    if lo == hi {
        return None;
    }
    let mut acc: u64 = 0;
    let mut i: usize = lo;
    proof {
        assert(piece.take(0) =~= Seq::<char>::empty());
    }
    while i < hi
        invariant
            lo <= i <= hi <= s.len(),
            piece == s@.subrange(lo as int, hi as int),
            all_digits(piece.take(i - lo)),
            acc == digits_value(piece.take(i - lo)),
        decreases hi - i,
    {
        let c: u32 = s[i] as u32;
        if c < 0x30 || c > 0x39 {
            assert(!is_digit(piece[i - lo]));
            return None;
        }
        let d: u64 = (c - 0x30) as u64;
        proof {
            let next = piece.take(i - lo + 1);
            assert(next.drop_last() =~= piece.take(i - lo));
            if all_digits(piece) {
                lemma_digits_value_prefix(piece, i - lo + 1);
            }
        }
        if acc > (u64::MAX - d) / 10 {
            return None;
        }
        acc = acc * 10 + d;
        i = i + 1;
    }
    proof {
        assert(piece.take(hi - lo) =~= piece);
    }
    Some(acc)
}

/// Reads the piece `lo..hi` of `s` as a `u64`.
pub fn parse_u64(s: &[char], lo: usize, hi: usize) -> (r: Option<u64>)
    requires
        lo <= hi <= s.len(),
    ensures
        r == u64_value(s@.subrange(lo as int, hi as int)),
{
    let ghost piece = s@.subrange(lo as int, hi as int);
    if lo < hi && s[lo] == '+' {
        assert(piece.skip(1) =~= s@.subrange(lo + 1, hi as int));
        parse_digits(s, lo + 1, hi)
    } else {
        parse_digits(s, lo, hi)
    }
}

/// Reads the piece `lo..hi` of `s` as an `i64`.
pub fn parse_i64(s: &[char], lo: usize, hi: usize) -> (r: Option<i64>)
    requires
        lo <= hi <= s.len(),
    ensures
        r == i64_value(s@.subrange(lo as int, hi as int)),
{
    let ghost piece = s@.subrange(lo as int, hi as int);
    if lo < hi && s[lo] == '-' {
        assert(piece.skip(1) =~= s@.subrange(lo + 1, hi as int));
        match parse_digits(s, lo + 1, hi) {
            Some(m) => {
                if m > 0x8000_0000_0000_0000 {
                    None
                } else if m == 0x8000_0000_0000_0000 {
                    Some(i64::MIN)
                } else {
                    Some(-(m as i64))
                }
            },
            None => None,
        }
    } else {
        match parse_u64(s, lo, hi) {
            Some(m) => {
                if m > 0x7fff_ffff_ffff_ffff {
                    None
                } else {
                    Some(m as i64)
                }
            },
            None => None,
        }
    }
}

/// Reads the piece `lo..hi` of `s` as an `i32`.
pub fn parse_i32(s: &[char], lo: usize, hi: usize) -> (r: Option<i32>)
    requires
        lo <= hi <= s.len(),
    ensures
        r == i32_value(s@.subrange(lo as int, hi as int)),
{
    match parse_i64(s, lo, hi) {
        Some(v) => {
            if v < -0x8000_0000 || v > 0x7fff_ffff {
                None
            } else {
                Some(v as i32)
            }
        },
        None => None,
    }
}

/// Appends the decimal digits of `n` to `out`.
pub fn push_nat(out: &mut String, n: u128)
    ensures
        final(out)@ == old(out)@ + nat_text(n as nat),
    decreases n,
{
    if n >= 10 {
        push_nat(out, n / 10);
    }
    let d: u8 = (n % 10) as u8;
    out.push((d + 0x30) as char);
}

/// Appends the decimal text of `n` to `out`.
pub fn push_int(out: &mut String, n: i128)
    ensures
        final(out)@ == old(out)@ + int_text(n as int),
{
    if n < 0 {
        out.push('-');
        let m: u128 = if n == i128::MIN {
            0x8000_0000_0000_0000_0000_0000_0000_0000
        } else {
            (-n) as u128
        };
        push_nat(out, m);
    } else {
        push_nat(out, n as u128);
    }
}

/// The size of `n` without its sign.
pub fn magnitude(n: i128) -> (a: u128)
    ensures
        a == if n < 0 {
            -(n as int)
        } else {
            n as int
        },
{
    if n == i128::MIN {
        0x8000_0000_0000_0000_0000_0000_0000_0000
    } else if n < 0 {
        (-n) as u128
    } else {
        n as u128
    }
}

/// The decimal places of a number of thousandths are those of what is left
/// of it under a thousand.
proof fn lemma_thousandths_digits(whole: nat, frac: nat)
    requires
        frac < 1000,
    ensures
        (1000 * whole + frac) / 1000 == whole,
        (1000 * whole + frac) / 100 % 10 == frac / 100,
        (1000 * whole + frac) / 10 % 10 == frac / 10 % 10,
        (1000 * whole + frac) % 10 == frac % 10,
{
    let a = 1000 * whole + frac;
    assert(a / 1000 == whole);
    assert(a / 100 == 10 * whole + frac / 100);
    assert(a / 10 == 100 * whole + frac / 10);
}

/// Appends `whole` and `frac` thousandths to `out` with three decimal
/// places, after a `-` where `negative` is set.
fn push_parts(out: &mut String, negative: bool, whole: u128, frac: u16)
    requires
        frac < 1000,
        negative ==> whole > 0 || frac > 0,
    ensures
        final(out)@ == old(out)@ + thousandths_text(
            if negative {
                -(1000 * whole + frac)
            } else {
                1000 * whole + frac
            },
        ),
{
    if negative {
        out.push('-');
    }
    push_nat(out, whole);
    out.push('.');
    let d2: u8 = (frac / 100) as u8;
    let d1: u8 = (frac / 10 % 10) as u8;
    let d0: u8 = (frac % 10) as u8;
    out.push((d2 + 0x30) as char);
    out.push((d1 + 0x30) as char);
    out.push((d0 + 0x30) as char);
    proof {
        lemma_thousandths_digits(whole as nat, frac as nat);
    }
}

/// Appends a number of thousandths to `out`, with three decimal places.
pub fn push_thousandths(out: &mut String, m: i128)
    ensures
        final(out)@ == old(out)@ + thousandths_text(m as int),
{
    let a: u128 = magnitude(m);
    push_parts(out, m < 0, a / 1000, (a % 1000) as u16);
}

/// Ten times `r`, divided by `d`: the quotient, which is a digit, and the
/// remainder. Nothing is multiplied, so that nothing overflows.
fn times_ten(r: u128, d: u128) -> (qr: (u8, u128))
    requires
        r < d <= 0x8000_0000_0000_0000_0000_0000_0000_0000,
    ensures
        10 * r == qr.0 * d + qr.1,
        qr.0 < 10,
        qr.1 < d,
{
    let mut digit: u8 = 0;
    let mut rest: u128 = 0;
    let mut k: u8 = 0;
    while k < 10
        invariant
            k <= 10,
            digit <= k,
            rest < d,
            r < d <= 0x8000_0000_0000_0000_0000_0000_0000_0000,
            k * r == digit * d + rest,
        decreases 10 - k,
    {
        proof {
            assert((k + 1) * r == k * r + r) by (nonlinear_arith);
            assert((digit + 1) * d == digit * d + d) by (nonlinear_arith);
        }
        rest = rest + r;
        if rest >= d {
            rest = rest - d;
            digit = digit + 1;
        }
        k = k + 1;
    }
    proof {
        assert(digit < 10) by (nonlinear_arith)
            requires
                10 * r == digit * d + rest,
                r < d,
                rest >= 0,
                digit <= 10,
                d > 0,
        ;
    }
    (digit, rest)
}

/// Appends the ratio `a / d` to `out`, rounded to three decimal places,
/// after a `-` where `negative` is set and the rounded ratio is not zero.
pub fn push_rounded(out: &mut String, negative: bool, a: u128, d: u128)
    requires
        0 < d <= 0x8000_0000_0000_0000_0000_0000_0000_0000,
        a <= 0x8000_0000_0000_0000_0000_0000_0000_0000,
    ensures
        final(out)@ == old(out)@ + thousandths_text(
            if negative {
                -(round_half_even((1000 * a) as nat, d as nat) as int)
            } else {
                round_half_even((1000 * a) as nat, d as nat) as int
            },
        ),
{
    let q: u128 = a / d;
    let r: u128 = a % d;
    let (d1, r1) = times_ten(r, d);
    let (d2, r2) = times_ten(r1, d);
    let (d3, r3) = times_ten(r2, d);
    let f: u16 = 100 * (d1 as u16) + 10 * (d2 as u16) + d3 as u16;
    let up: bool = r3 > d - r3 || (r3 == d - r3 && f % 2 == 1);
    let ghost n: nat = (1000 * a) as nat;
    proof {
        vstd::arithmetic::div_mod::lemma_fundamental_div_mod(a as int, d as int);
        assert(q <= a) by (nonlinear_arith)
            requires
                a == d * q + r,
                d >= 1,
                r >= 0,
                q >= 0,
        ;
        assert(n == (1000 * q + f) * d + r3) by (nonlinear_arith)
            requires
                n == 1000 * a,
                a == d * q + r,
                10 * r == d1 * d + r1,
                10 * r1 == d2 * d + r2,
                10 * r2 == d3 * d + r3,
                f == 100 * d1 + 10 * d2 + d3,
        ;
        vstd::arithmetic::div_mod::lemma_fundamental_div_mod_converse(
            n as int,
            d as int,
            (1000 * q + f) as int,
            r3 as int,
        );
        assert((1000 * q + f) % 2 == f % 2);
    }
    let whole: u128 = if up && f == 999 {
        q + 1
    } else {
        q
    };
    let frac: u16 = if up {
        if f == 999 {
            0
        } else {
            f + 1
        }
    } else {
        f
    };
    proof {
        assert(round_half_even(n, d as nat) == 1000 * whole + frac);
    }
    push_parts(out, negative && (whole > 0 || frac > 0), whole, frac);
}

/// Appends the ratio `num / den` to `out`, with three decimal places.
pub fn push_fixed3(out: &mut String, num: i128, den: u128)
    requires
        0 < den <= 0x8000_0000_0000_0000_0000_0000_0000_0000,
    ensures
        final(out)@ == old(out)@ + fixed3_text(num as int, den as int),
{
    push_rounded(out, num < 0, magnitude(num), den);
}

} // verus!
