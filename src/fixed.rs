//! Fixed-point decimal amounts and their text form.
//!
//! Every price, size, balance and fraction is held as an integer count of
//! `1 / SCALE` units (nine fractional digits).
use vstd::prelude::*;
use vstd::arithmetic::div_mod::*;
use vstd::arithmetic::mul::*;
use vstd::string::*;

verus! {

/// Number of fractional decimal digits carried by every fixed-point amount.
pub const DECIMALS: u64 = 9;

/// One whole unit in fixed-point representation.
pub const SCALE: u64 = 1_000_000_000;

pub open spec fn pow10(k: nat) -> nat
    decreases k,
{
    if k == 0 {
        1
    } else {
        10 * pow10((k - 1) as nat)
    }
}

pub proof fn lemma_pow10_positive(k: nat)
    ensures
        pow10(k) >= 1,
    decreases k,
{
    if k > 0 {
        lemma_pow10_positive((k - 1) as nat);
    }
}

pub proof fn lemma_pow10_monotonic(a: nat, b: nat)
    requires
        a <= b,
    ensures
        pow10(a) <= pow10(b),
    decreases b,
{
    if a < b {
        lemma_pow10_monotonic(a, (b - 1) as nat);
        lemma_pow10_positive((b - 1) as nat);
    }
}

pub proof fn lemma_scale_is_pow10()
    ensures
        SCALE as nat == pow10(9),
{
    reveal_with_fuel(pow10, 10);
}

/// Number of decimal digits in `n` (one for zero).
pub open spec fn num_digits(n: nat) -> nat
    decreases n,
{
    if n < 10 {
        1
    } else {
        1 + num_digits(n / 10)
    }
}

pub proof fn lemma_num_digits_bounds(n: nat)
    ensures
        num_digits(n) >= 1,
        n < pow10(num_digits(n)),
        num_digits(n) > 1 ==> pow10((num_digits(n) - 1) as nat) <= n,
    decreases n,
{
    if n >= 10 {
        let m = n / 10;
        lemma_num_digits_bounds(m);
        let k = num_digits(m);
        assert(num_digits(n) == k + 1);
        assert(pow10(k + 1) == 10 * pow10(k));
        let pk = pow10(k);
        assert(n < 10 * pk) by (nonlinear_arith)
            requires
                m < pk,
                m == n / 10,
        ;
        if k > 1 {
            let pk1 = pow10((k - 1) as nat);
            assert(pk == 10 * pk1);
            assert(pk <= n) by (nonlinear_arith)
                requires
                    pk1 <= m,
                    m == n / 10,
                    pk == 10 * pk1,
            ;
        } else {
            reveal_with_fuel(pow10, 2);
        }
    } else {
        reveal_with_fuel(pow10, 2);
    }
}

pub open spec fn digit_char(d: nat) -> char {
    if d == 0 {
        '0'
    } else if d == 1 {
        '1'
    } else if d == 2 {
        '2'
    } else if d == 3 {
        '3'
    } else if d == 4 {
        '4'
    } else if d == 5 {
        '5'
    } else if d == 6 {
        '6'
    } else if d == 7 {
        '7'
    } else if d == 8 {
        '8'
    } else {
        '9'
    }
}

/// The last `len` decimal digits of `n`, most significant first, zero padded.
pub open spec fn digits_of(n: nat, len: nat) -> Seq<char> {
    Seq::new(len, |i: int| digit_char((n / pow10((len - 1 - i) as nat)) % 10))
}

/// Decimal text of a natural number, without leading zeros.
pub open spec fn int_text(n: nat) -> Seq<char> {
    digits_of(n, num_digits(n))
}

/// Text of `n / 10^d` written with exactly `d` fractional digits.
pub open spec fn fixed_text(n: nat, d: nat) -> Seq<char> {
    if d == 0 {
        int_text(n)
    } else {
        int_text(n / pow10(d)) + seq!['.'] + digits_of(n % pow10(d), d)
    }
}

/// `v` units rounded half up to `d` fractional digits, counted in `10^-d` steps.
pub open spec fn rounded_to(v: nat, d: nat) -> nat {
    if d >= DECIMALS {
        v * pow10((d - DECIMALS) as nat)
    } else {
        let step = pow10((DECIMALS - d) as nat);
        (v + step / 2) / step
    }
}

/// Text of the amount `v` with exactly `d` fractional digits, rounded half up.
pub open spec fn amount_text(v: nat, d: nat) -> Seq<char> {
    fixed_text(rounded_to(v, d), d)
}

/// `f` with trailing zero digits removed, among its `k` fractional digits.
pub open spec fn trim_zeros(f: nat, k: nat) -> (nat, nat)
    decreases k,
{
    if k > 0 && f % 10 == 0 {
        trim_zeros(f / 10, (k - 1) as nat)
    } else {
        (f, k)
    }
}

/// Shortest text of the amount `v`: no fractional part when it is whole,
/// otherwise its fractional digits without trailing zeros.
pub open spec fn plain_text(v: nat) -> Seq<char> {
    let whole = v / (SCALE as nat);
    let frac = v % (SCALE as nat);
    if frac == 0 {
        int_text(whole)
    } else {
        let (f, k) = trim_zeros(frac, DECIMALS as nat);
        int_text(whole) + seq!['.'] + digits_of(f, k)
    }
}

proof fn lemma_pow10_38()
    ensures
        pow10(38) == 100000000000000000000000000000000000000nat,
        pow10(39) == 1000000000000000000000000000000000000000nat,
{
    reveal_with_fuel(pow10, 40);
}

pub fn pow10_u128(k: u64) -> (r: u128)
    requires
        k <= 38,
    ensures
        r as nat == pow10(k as nat),
{
    let mut r: u128 = 1;
    let mut i: u64 = 0;
    while i < k
        invariant
            i <= k <= 38,
            r as nat == pow10(i as nat),
        decreases k - i,
    {
        proof {
            lemma_pow10_monotonic((i + 1) as nat, 38);
            lemma_pow10_38();
        }
        r = r * 10;
        i = i + 1;
    }
    r
}

pub fn count_digits(n: u128) -> (r: u64)
    ensures
        r as nat == num_digits(n as nat),
        1 <= r <= 39,
{
    let mut m: u128 = n;
    let mut c: u64 = 1;
    proof {
        lemma_digit_count_fits(n);
    }
    while m >= 10
        invariant
            num_digits(n as nat) == c - 1 + num_digits(m as nat),
            1 <= c,
            c as nat + num_digits(m as nat) <= 40,
            m <= n,
        decreases m,
    {
        proof {
            lemma_num_digits_bounds(m as nat);
        }
        m = m / 10;
        c = c + 1;
    }
    proof {
        lemma_num_digits_bounds(n as nat);
        lemma_digit_count_fits(n);
    }
    c
}

proof fn lemma_digit_count_fits(n: u128)
    ensures
        num_digits(n as nat) <= 39,
{
    lemma_num_digits_bounds(n as nat);
    if num_digits(n as nat) > 39 {
        lemma_pow10_monotonic(39, (num_digits(n as nat) - 1) as nat);
        lemma_pow10_38();
    }
}

fn digit_str(d: u128) -> (r: &'static str)
    requires
        d < 10,
    ensures
        r@ == seq![digit_char(d as nat)],
{
    if d == 0 {
        proof { reveal_strlit("0"); }
        "0"
    } else if d == 1 {
        proof { reveal_strlit("1"); }
        "1"
    } else if d == 2 {
        proof { reveal_strlit("2"); }
        "2"
    } else if d == 3 {
        proof { reveal_strlit("3"); }
        "3"
    } else if d == 4 {
        proof { reveal_strlit("4"); }
        "4"
    } else if d == 5 {
        proof { reveal_strlit("5"); }
        "5"
    } else if d == 6 {
        proof { reveal_strlit("6"); }
        "6"
    } else if d == 7 {
        proof { reveal_strlit("7"); }
        "7"
    } else if d == 8 {
        proof { reveal_strlit("8"); }
        "8"
    } else {
        proof { reveal_strlit("9"); }
        "9"
    }
}

/// Appends the last `len` digits of `n` to `out`.
fn append_digits(out: &mut String, n: u128, len: u64)
    requires
        len <= 39,
    ensures
        final(out)@ == old(out)@ + digits_of(n as nat, len as nat),
{
    let ghost start = out@;
    let mut i: u64 = 0;
    while i < len
        invariant
            i <= len <= 39,
            out@ == start + digits_of(n as nat, len as nat).subrange(0, i as int),
        decreases len - i,
    {
        let e = len - 1 - i;
        let d: u128 = if e <= 38 {
            let p = pow10_u128(e);
            proof {
                lemma_pow10_positive(e as nat);
            }
            (n / p) % 10
        } else {
            proof {
                lemma_pow10_monotonic(39, e as nat);
                lemma_pow10_38();
                assert(n as nat / pow10(e as nat) == 0) by {
                    lemma_basic_div(n as int, pow10(e as nat) as int);
                }
            }
            0
        };
        out.append(digit_str(d));
        proof {
            assert(digits_of(n as nat, len as nat).subrange(0, i + 1) =~= digits_of(
                n as nat,
                len as nat,
            ).subrange(0, i as int) + seq![digit_char(d as nat)]);
        }
        i = i + 1;
    }
    proof {
        assert(digits_of(n as nat, len as nat).subrange(0, len as int) =~= digits_of(
            n as nat,
            len as nat,
        ));
    }
}

/// Decimal text of `n` without leading zeros.
pub fn int_to_text(n: u128) -> (r: String)
    ensures
        r@ == int_text(n as nat),
{
    let mut out = String::new();
    let len = count_digits(n);
    append_digits(&mut out, n, len);
    out
}

/// Text of `n / 10^d` with exactly `d` fractional digits.
pub fn fixed_to_text(n: u128, d: u64) -> (r: String)
    requires
        d <= 38,
    ensures
        r@ == fixed_text(n as nat, d as nat),
{
    if d == 0 {
        int_to_text(n)
    } else {
        let p = pow10_u128(d);
        proof {
            lemma_pow10_positive(d as nat);
        }
        let mut out = int_to_text(n / p);
        proof { reveal_strlit("."); }
        out.append(".");
        append_digits(&mut out, n % p, d);
        out
    }
}

/// `v` units rounded half up to `d` fractional digits.
pub fn round_units(v: u128, d: u64) -> (r: u128)
    requires
        d <= DECIMALS || (d <= 19 && v <= u64::MAX),
    ensures
        r as nat == rounded_to(v as nat, d as nat),
{
    if d > DECIMALS {
        let m = pow10_u128(d - DECIMALS);
        proof {
            lemma_pow10_monotonic((d - DECIMALS) as nat, 10);
            reveal_with_fuel(pow10, 11);
            assert(v * m <= u128::MAX) by (nonlinear_arith)
                requires
                    v <= u64::MAX,
                    m <= 10_000_000_000u128,
            ;
        }
        return v * m;
    }
    let step = pow10_u128(DECIMALS - d);
    let half = step / 2;
    proof {
        lemma_pow10_positive((DECIMALS - d) as nat);
        lemma_pow10_monotonic((DECIMALS - d) as nat, 9);
        reveal_with_fuel(pow10, 10);
    }
    let q = v / step;
    let rem = v % step;
    proof {
        lemma_fundamental_div_mod(v as int, step as int);
        lemma_mul_is_commutative(step as int, q as int);
        lemma_mod_bound(v as int, step as int);
        assert(half < step);
        assert(v as int + half as int == q * step + (rem + half));
        if step > 1 {
            lemma_div_is_ordered_by_denominator(v as int, 10, step as int);
            assert(v / 10 <= u128::MAX / 10);
        }
        assert((rem + half) < 2 * step);
        if rem + half >= step {
            lemma_mul_is_distributive_add_other_way(step as int, q as int, 1);
            lemma_fundamental_div_mod_converse(
                v as int + half as int,
                step as int,
                q + 1,
                rem + half - step,
            );
        } else {
            lemma_fundamental_div_mod_converse(
                v as int + half as int,
                step as int,
                q as int,
                rem + half,
            );
        }
    }
    if d == DECIMALS {
        proof {
            assert(pow10(0) == 1);
        }
        return v;
    }
    if rem >= step - half {
        q + 1
    } else {
        q
    }
}

/// Text of the amount `v` with exactly `d` fractional digits, rounded half up.
pub fn amount_to_text(v: u128, d: u64) -> (r: String)
    requires
        d <= DECIMALS || (d <= 19 && v <= u64::MAX),
    ensures
        r@ == amount_text(v as nat, d as nat),
{
    let n = round_units(v, d);
    fixed_to_text(n, d)
}

/// Shortest text of the amount `v`.
pub fn plain_amount_text(v: u128) -> (r: String)
    ensures
        r@ == plain_text(v as nat),
{
    let whole = v / (SCALE as u128);
    let frac = v % (SCALE as u128);
    let mut out = int_to_text(whole);
    if frac != 0 {
        let mut f: u128 = frac;
        let mut k: u64 = DECIMALS;
        while k > 0 && f % 10 == 0
            invariant
                k <= DECIMALS,
                trim_zeros(f as nat, k as nat) == trim_zeros(frac as nat, DECIMALS as nat),
            decreases k,
        {
            f = f / 10;
            k = k - 1;
        }
        proof { reveal_strlit("."); }
        out.append(".");
        append_digits(&mut out, f, k);
    }
    out
}

} // verus!

verus! {

pub open spec fn is_digit(c: char) -> bool {
    '0' <= c && c <= '9'
}

pub open spec fn digit_value(c: char) -> nat {
    (c as int - '0' as int) as nat
}

pub open spec fn all_digits(s: Seq<char>) -> bool {
    forall|i: int| 0 <= i < s.len() ==> is_digit(#[trigger] s[i])
}

/// Value of a run of decimal digits.
pub open spec fn digits_value(s: Seq<char>) -> nat
    decreases s.len(),
{
    if s.len() == 0 {
        0
    } else {
        digits_value(s.drop_last()) * 10 + digit_value(s.last())
    }
}

/// Units of `SCALE` carried by the fractional digits `f`: digits past the
/// ninth are dropped, fewer are padded with zeros.
pub open spec fn frac_units(f: Seq<char>) -> nat {
    if f.len() >= DECIMALS {
        digits_value(f.take(DECIMALS as int))
    } else {
        digits_value(f) * pow10((DECIMALS - f.len()) as nat)
    }
}

/// `s` is `int '.' frac` with the dot at `i`, both parts digits, and at
/// least one digit in all.
pub open spec fn dot_split(s: Seq<char>, i: int) -> bool {
    &&& 0 <= i < s.len()
    &&& s[i] == '.'
    &&& all_digits(s.take(i))
    &&& all_digits(s.skip(i + 1))
    &&& s.len() >= 2
}

/// Value in units of a decimal text such as `"12"`, `"0.127"`, `".5"` or
/// `"3."`; `None` for any other text.
pub open spec fn decimal_units(s: Seq<char>) -> Option<nat> {
    if s.len() > 0 && all_digits(s) {
        Some(digits_value(s) * (SCALE as nat))
    } else if exists|i: int| dot_split(s, i) {
        let i = choose|i: int| dot_split(s, i);
        Some(digits_value(s.take(i)) * (SCALE as nat) + frac_units(s.skip(i + 1)))
    } else {
        None
    }
}

/// Value in units of a decimal text with an optional leading minus sign.
pub open spec fn signed_decimal_units(s: Seq<char>) -> Option<int> {
    if s.len() > 0 && s[0] == '-' {
        match decimal_units(s.skip(1)) {
            Some(v) => Some(-(v as int)),
            None => None,
        }
    } else {
        match decimal_units(s) {
            Some(v) => Some(v as int),
            None => None,
        }
    }
}

proof fn lemma_dot_split_unique(s: Seq<char>, i: int, j: int)
    requires
        dot_split(s, i),
        dot_split(s, j),
    ensures
        i == j,
{
    if j < i {
        assert(s.take(i)[j] == s[j]);
    }
    if i < j {
        assert(s.take(j)[i] == s[i]);
    }
}

proof fn lemma_digits_value_push(s: Seq<char>, c: char)
    ensures
        digits_value(s.push(c)) == digits_value(s) * 10 + digit_value(c),
{
    assert(s.push(c).drop_last() =~= s);
}

/// Whole-unit part beyond which no amount fits in `u64`; integer digits
/// are accumulated up to this cap.
const INT_CAP: u64 = 18_446_744_074;

/// Reads a non-negative decimal text into units; `None` when the text is
/// not a plain decimal or its value does not fit in `u64`.
pub fn parse_units(s: &str) -> (r: Option<u64>)
    ensures
        r.is_some() <==> (decimal_units(s@).is_some() && decimal_units(s@).unwrap() <= u64::MAX),
        r.is_some() ==> r.unwrap() as nat == decimal_units(s@).unwrap(),
{
    let n = s.unicode_len();
    let mut i: usize = 0;
    let mut whole: u64 = 0;
    while i < n && is_digit_char(s.get_char(i))
        invariant
            n == s@.len(),
            i <= n,
            all_digits(s@.take(i as int)),
            whole as nat == if digits_value(s@.take(i as int)) < INT_CAP {
                digits_value(s@.take(i as int))
            } else {
                INT_CAP as nat
            },
        decreases n - i,
    {
        let c = s.get_char(i);
        let d = c as u64 - '0' as u64;
        proof {
            assert(s@.take(i + 1) =~= s@.take(i as int).push(c));
            lemma_digits_value_push(s@.take(i as int), c);
        }
        whole = if whole >= INT_CAP || whole * 10 + d >= INT_CAP {
            INT_CAP
        } else {
            whole * 10 + d
        };
        i = i + 1;
    }
    let int_len = i;
    let ghost int_part = s@.take(int_len as int);
    let mut frac: u64 = 0;
    let mut taken: u64 = 0;
    if i < n {
        if s.get_char(i) != '.' {
            proof {
                lemma_not_plain_decimal(s@, i as int);
            }
            return None;
        }
        i = i + 1;
        while i < n
            invariant
                n == s@.len(),
                int_len < i <= n,
                s@[int_len as int] == '.',
                all_digits(s@.take(int_len as int)),
                int_part == s@.take(int_len as int),
                all_digits(s@.subrange(int_len + 1, i as int)),
                taken <= DECIMALS,
                taken as nat == if i - int_len - 1 < DECIMALS {
                    (i - int_len - 1) as nat
                } else {
                    DECIMALS as nat
                },
                frac as nat == digits_value(s@.subrange(int_len + 1, int_len + 1 + taken)),
                frac < pow10(taken as nat),
            decreases n - i,
        {
            let c = s.get_char(i);
            if !is_digit_char(c) {
                proof {
                    lemma_bad_fraction(s@, int_len as int, i as int);
                }
                return None;
            }
            if taken < DECIMALS {
                let d = c as u64 - '0' as u64;
                proof {
                    assert(s@.subrange(int_len + 1, int_len + 1 + taken + 1) =~= s@.subrange(
                        int_len + 1,
                        int_len + 1 + taken,
                    ).push(c));
                    lemma_digits_value_push(s@.subrange(int_len + 1, int_len + 1 + taken), c);
                    lemma_pow10_monotonic((taken + 1) as nat, 9);
                    reveal_with_fuel(pow10, 10);
                }
                frac = frac * 10 + d;
                taken = taken + 1;
            }
            proof {
                assert(s@.subrange(int_len + 1, i + 1) =~= s@.subrange(int_len + 1, i as int).push(
                    c,
                ));
            }
            i = i + 1;
        }
        if n < 2 {
            proof {
                lemma_lone_dot(s@);
            }
            return None;
        }
        proof {
            assert(s@.take(int_len as int) =~= int_part);
            assert(s@.skip(int_len + 1) =~= s@.subrange(int_len + 1, n as int));
            assert(dot_split(s@, int_len as int));
            lemma_dot_choice(s@, int_len as int);
            lemma_frac_units_taken(s@.skip(int_len + 1), taken as nat);
            assert(s@.skip(int_len + 1).take(taken as int) =~= s@.subrange(
                int_len + 1,
                int_len + 1 + taken,
            ));
            assert(decimal_units(s@) == Some(
                digits_value(int_part) * (SCALE as nat) + frac as nat * pow10(
                    (DECIMALS - taken) as nat,
                ),
            ));
        }
    } else {
        if n == 0 {
            return None;
        }
        proof {
            assert(s@.take(n as int) =~= s@);
            lemma_scale_is_pow10();
            assert(frac as nat * pow10((DECIMALS - taken) as nat) == 0);
            assert(decimal_units(s@) == Some(
                digits_value(int_part) * (SCALE as nat) + frac as nat * pow10(
                    (DECIMALS - taken) as nat,
                ),
            ));
        }
    }
    if whole >= INT_CAP {
        proof {
            let iv = digits_value(int_part);
            assert(iv * (SCALE as nat) > u64::MAX) by (nonlinear_arith)
                requires
                    iv >= INT_CAP,
            ;
        }
        return None;
    }
    let pad = pow10_u128(DECIMALS - taken);
    proof {
        lemma_pow10_monotonic((DECIMALS - taken) as nat, 9);
        lemma_scale_is_pow10();
        lemma_pow10_add_small(taken as nat);
        assert(frac as nat * pad <= SCALE) by (nonlinear_arith)
            requires
                frac < pow10(taken as nat),
                pow10(taken as nat) * pad == SCALE,
        ;
    }
    let total: u128 = whole as u128 * SCALE as u128 + frac as u128 * pad;
    if total > u64::MAX as u128 {
        return None;
    }
    Some(total as u64)
}

fn is_digit_char(c: char) -> (r: bool)
    ensures
        r == is_digit(c),
{
    '0' <= c && c <= '9'
}

proof fn lemma_pow10_add(a: nat, b: nat)
    ensures
        pow10(a) * pow10(b) == pow10(a + b),
    decreases a,
{
    if a > 0 {
        lemma_pow10_add((a - 1) as nat, b);
        let x = pow10((a - 1) as nat);
        let y = pow10(b);
        assert(pow10(a) == 10 * x);
        assert(pow10(a + b) == 10 * pow10((a - 1 + b) as nat));
        assert((a - 1) as nat + b == (a + b - 1) as nat);
        assert((10 * x) * y == 10 * (x * y)) by (nonlinear_arith);
    } else {
        assert(pow10(0) == 1);
        assert(a + b == b);
    }
}

proof fn lemma_pow10_add_small(k: nat)
    requires
        k <= DECIMALS,
    ensures
        pow10(k) * pow10((DECIMALS - k) as nat) == SCALE,
{
    lemma_pow10_add(k, (DECIMALS - k) as nat);
    lemma_scale_is_pow10();
}

proof fn lemma_not_plain_decimal(s: Seq<char>, i: int)
    requires
        0 <= i < s.len(),
        all_digits(s.take(i)),
        !is_digit(s[i]),
        s[i] != '.',
    ensures
        decimal_units(s).is_none(),
{
    assert(!all_digits(s));
    if exists|j: int| dot_split(s, j) {
        let j = choose|j: int| dot_split(s, j);
        if j < i {
            assert(s.take(i)[j] == s[j]);
        } else if j > i {
            assert(s.take(j)[i] == s[i]);
        }
    }
}

proof fn lemma_bad_fraction(s: Seq<char>, dot: int, i: int)
    requires
        0 <= dot < i < s.len(),
        s[dot] == '.',
        all_digits(s.take(dot)),
        !is_digit(s[i]),
    ensures
        decimal_units(s).is_none(),
{
    assert(!is_digit(s[dot]));
    assert(!all_digits(s));
    if exists|j: int| dot_split(s, j) {
        let j = choose|j: int| dot_split(s, j);
        if j < dot {
            assert(s.take(dot)[j] == s[j]);
        } else if j > dot {
            assert(s.take(j)[dot] == s[dot]);
        } else {
            assert(s.skip(dot + 1)[i - dot - 1] == s[i]);
        }
    }
}

proof fn lemma_lone_dot(s: Seq<char>)
    requires
        s.len() < 2,
        s.len() >= 1,
        s[0] == '.',
    ensures
        decimal_units(s).is_none(),
{
    assert(!is_digit(s[0]));
}

proof fn lemma_dot_choice(s: Seq<char>, i: int)
    requires
        dot_split(s, i),
    ensures
        (choose|j: int| dot_split(s, j)) == i,
        !all_digits(s),
{
    let j = choose|j: int| dot_split(s, j);
    lemma_dot_split_unique(s, i, j);
    assert(!is_digit(s[i]));
}

proof fn lemma_frac_units_taken(f: Seq<char>, taken: nat)
    requires
        taken == if f.len() < DECIMALS {
            f.len()
        } else {
            DECIMALS as nat
        },
    ensures
        frac_units(f) == digits_value(f.take(taken as int)) * pow10((DECIMALS - taken) as nat),
{
    if f.len() < DECIMALS {
        assert(f.take(taken as int) =~= f);
    } else {
        assert(taken == 9);
        assert((DECIMALS - taken) as nat == 0);
        assert(pow10(0) == 1);
        assert(frac_units(f) == digits_value(f.take(9)));
        assert(digits_value(f.take(9)) * 1 == digits_value(f.take(9)));
    }
}

/// Reads a decimal text with an optional leading minus sign into units;
/// `None` when the text is not such a decimal or does not fit in `i64`.
pub fn parse_signed_units(s: &str) -> (r: Option<i64>)
    ensures
        r.is_some() <==> (signed_decimal_units(s@).is_some() && i64::MIN
            <= signed_decimal_units(s@).unwrap() <= i64::MAX),
        r.is_some() ==> r.unwrap() as int == signed_decimal_units(s@).unwrap(),
{
    let n = s.unicode_len();
    if n > 0 && s.get_char(0) == '-' {
        let rest = s.substring_char(1, n);
        proof {
            assert(rest@ =~= s@.skip(1));
        }
        match parse_units(rest) {
            Some(v) => {
                if v > 9_223_372_036_854_775_808u64 {
                    None
                } else if v == 9_223_372_036_854_775_808u64 {
                    Some(i64::MIN)
                } else {
                    Some(-(v as i64))
                }
            },
            None => None,
        }
    } else {
        match parse_units(s) {
            Some(v) => {
                if v > i64::MAX as u64 {
                    None
                } else {
                    Some(v as i64)
                }
            },
            None => None,
        }
    }
}

} // verus!

verus! {

/// Value of a text made of decimal digits only; `None` for any other text.
pub open spec fn integer_value(s: Seq<char>) -> Option<nat> {
    if s.len() > 0 && all_digits(s) {
        Some(digits_value(s))
    } else {
        None
    }
}

/// Reads a text of decimal digits; `None` when it holds anything else or
/// its value does not fit in `u64`.
pub fn parse_integer(s: &str) -> (r: Option<u64>)
    ensures
        r.is_some() <==> (integer_value(s@).is_some() && integer_value(s@).unwrap() <= u64::MAX),
        r.is_some() ==> r.unwrap() as nat == integer_value(s@).unwrap(),
{
    let n = s.unicode_len();
    if n == 0 {
        return None;
    }
    let mut i: usize = 0;
    let mut acc: u128 = 0;
    let cap: u128 = 0x1_0000_0000_0000_0000u128;
    while i < n
        invariant
            n == s@.len(),
            i <= n,
            cap == 0x1_0000_0000_0000_0000u128,
            all_digits(s@.take(i as int)),
            acc as nat == if digits_value(s@.take(i as int)) < cap {
                digits_value(s@.take(i as int))
            } else {
                cap as nat
            },
        decreases n - i,
    {
        let c = s.get_char(i);
        if !is_digit_char(c) {
            proof {
                assert(!is_digit(s@[i as int]));
            }
            return None;
        }
        let d = c as u128 - '0' as u128;
        proof {
            assert(d <= 9);
            assert(acc <= cap);
            assert(s@.take(i + 1) =~= s@.take(i as int).push(c));
            lemma_digits_value_push(s@.take(i as int), c);
        }
        acc = if acc >= cap || acc * 10 + d >= cap {
            cap
        } else {
            acc * 10 + d
        };
        i = i + 1;
    }
    proof {
        assert(s@.take(n as int) =~= s@);
    }
    if acc >= cap {
        None
    } else {
        Some(acc as u64)
    }
}

} // verus!

verus! {

/// Rounding is idempotent: an amount already on the `d`-decimal grid
/// (the value a rounded text shows) rounds to the same text again.
pub proof fn lemma_rounding_idempotent(v: nat, d: nat)
    requires
        d <= DECIMALS,
    ensures
        ({
            let step = pow10((DECIMALS - d) as nat);
            let k = rounded_to(v, d);
            rounded_to(k * step, d) == k && amount_text(k * step, d) == amount_text(v, d)
        }),
{
    let step = pow10((DECIMALS - d) as nat);
    let k = rounded_to(v, d);
    lemma_pow10_positive((DECIMALS - d) as nat);
    if d == DECIMALS {
        assert(pow10(0) == 1);
        assert(step == 1);
        assert((d - DECIMALS) as nat == 0);
        let one = pow10(0);
        assert(k == v * one);
        assert(v * one == v) by (nonlinear_arith)
            requires
                one == 1,
        ;
        assert(rounded_to(k * step, d) == k * step * one);
        assert(k * step * one == k) by (nonlinear_arith)
            requires
                one == 1,
                step == 1,
        ;
    } else {
        assert(step / 2 < step);
        lemma_fundamental_div_mod_converse((k * step + step / 2) as int, step as int, k as int, (
        step / 2) as int);
    }
}

} // verus!
