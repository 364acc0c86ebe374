//! Capped half-Kelly position sizing.
use vstd::prelude::*;
use vstd::arithmetic::div_mod::*;
use vstd::arithmetic::mul::*;
use crate::fixed::{lemma_pow10_monotonic, lemma_scale_is_pow10, pow10, SCALE};
use crate::instruments::InstrumentCache;

verus! {

/// Smallest fraction of equity put at risk: 0.01.
pub const MIN_RISK_FRACTION: u64 = 10_000_000;

/// Share of the free balance used when the Kelly margin exceeds it: 0.95.
pub const BALANCE_CAP_NUMERATOR: u64 = 95;

/// Highest win rate a decision may claim: 0.75.
pub const WIN_RATE_CAP: i64 = 750_000_000;

/// Kelly fraction `p - (1 - p) / b` in units, floored; 0 when the payoff
/// ratio `b` is not positive.
pub open spec fn kelly_of(p: int, b: int) -> int {
    if b > 0 {
        (p * b - (SCALE - p) * (SCALE as nat)) / b
    } else {
        0
    }
}

/// Fraction of equity committed: half the Kelly fraction, at most
/// `max_pct`, and otherwise at least `MIN_RISK_FRACTION`.
pub open spec fn risk_fraction(kelly: int, max_pct: nat) -> nat {
    if kelly > 2 * max_pct {
        max_pct
    } else if kelly < 2 * MIN_RISK_FRACTION {
        MIN_RISK_FRACTION as nat
    } else {
        (kelly / 2) as nat
    }
}

/// The free balance cannot carry the margin of the minimum order:
/// `available < price * face_value * min_size / leverage`, where
/// `value_sq = price * face_value` is the exact value of one contract in
/// square units (`SCALE * (SCALE as nat)` per unit of money).
pub open spec fn min_clip_unaffordable(
    available: nat,
    leverage: nat,
    value_sq: nat,
    min_size: nat,
) -> bool {
    available * leverage * (SCALE as nat) * (SCALE as nat) < value_sq * min_size
}

/// Margin in square units put on the position: equity times the risk
/// fraction, cut to 95% of the free balance when it would exceed it.
pub open spec fn margin_sq(equity: nat, available: nat, fraction: nat) -> nat {
    let wanted = equity * fraction;
    if wanted > available * (SCALE as nat) {
        available * (SCALE as nat) * (BALANCE_CAP_NUMERATOR as nat) / 100
    } else {
        wanted
    }
}

/// Contracts, in units, that the margin buys at `leverage`:
/// `margin * leverage / (price * face_value)`, floored to the unit, and at
/// least `min_size`.
pub open spec fn raw_contracts(
    equity: nat,
    available: nat,
    fraction: nat,
    leverage: nat,
    value_sq: nat,
    min_size: nat,
) -> nat
    recommends
        value_sq > 0,
{
    let c = margin_sq(equity, available, fraction) * leverage * (SCALE as nat) / value_sq;
    if c < min_size {
        min_size
    } else {
        c
    }
}

/// Result of sizing one position.
#[derive(Clone, Copy, Debug, PartialEq, Eq, Structural)]
pub enum SizingOutcome {
    /// Contracts to order, in units, before rounding to the lot.
    Sized(u128),
    /// The instrument's contract value is unknown (zero).
    NoContractValue,
    /// The free balance cannot pay for the exchange's minimum order.
    MinimumUnaffordable,
    /// The order, raised to the minimum size, would cost more than the free
    /// balance.
    FinalUnaffordable,
    /// The number of contracts, in units, does not fit in `u128`.
    Oversized,
}

/// The outcome of sizing with the given inputs, all amounts in units; every
/// cost test is made on the exact contract value `price * face_value`.
pub open spec fn sizing_outcome(
    equity: nat,
    available: nat,
    kelly: int,
    max_pct: nat,
    leverage: nat,
    price: nat,
    face_value: nat,
    min_size: nat,
) -> SizingOutcome {
    let value_sq = price * face_value;
    if value_sq == 0 {
        SizingOutcome::NoContractValue
    } else if min_clip_unaffordable(available, leverage, value_sq, min_size) {
        SizingOutcome::MinimumUnaffordable
    } else {
        let c = raw_contracts(
            equity,
            available,
            risk_fraction(kelly, max_pct),
            leverage,
            value_sq,
            min_size,
        );
        if c * value_sq > available * leverage * (SCALE as nat) * (SCALE as nat) {
            SizingOutcome::FinalUnaffordable
        } else if c > u128::MAX {
            SizingOutcome::Oversized
        } else {
            SizingOutcome::Sized(c as u128)
        }
    }
}

/// Contracts the outcome orders: 0 unless sized.
pub open spec fn outcome_contracts(o: SizingOutcome) -> nat {
    match o {
        SizingOutcome::Sized(c) => c as nat,
        _ => 0,
    }
}

/// Whenever the free balance is below the margin of the minimum order, the
/// size is exactly zero, whatever the equity, Kelly fraction and cap.
pub proof fn lemma_unaffordable_minimum_sizes_zero(
    equity: nat,
    available: nat,
    kelly: int,
    max_pct: nat,
    leverage: nat,
    price: nat,
    face_value: nat,
    min_size: nat,
)
    requires
        min_clip_unaffordable(available, leverage, price * face_value, min_size),
    ensures
        outcome_contracts(
            sizing_outcome(equity, available, kelly, max_pct, leverage, price, face_value, min_size),
        ) == 0,
{
}

/// A sized position never costs more margin than the free balance:
/// `contracts * price * face_value / leverage <= available`.
pub proof fn lemma_sized_margin_within_balance(
    equity: nat,
    available: nat,
    kelly: int,
    max_pct: nat,
    leverage: nat,
    price: nat,
    face_value: nat,
    min_size: nat,
)
    ensures
        sizing_outcome(
            equity,
            available,
            kelly,
            max_pct,
            leverage,
            price,
            face_value,
            min_size,
        ) matches SizingOutcome::Sized(c) ==> (c as nat) * (price * face_value) <= available
            * leverage * (SCALE as nat) * (SCALE as nat),
{
}

/// Without the raise to the minimum size, the margin of a sized position
/// stays within the capped half-Kelly budget `equity * fraction`.
pub proof fn lemma_sized_margin_within_budget(
    equity: nat,
    available: nat,
    kelly: int,
    max_pct: nat,
    leverage: nat,
    price: nat,
    face_value: nat,
    min_size: nat,
)
    ensures
        sizing_outcome(
            equity,
            available,
            kelly,
            max_pct,
            leverage,
            price,
            face_value,
            min_size,
        ) matches SizingOutcome::Sized(c) ==> (c > min_size ==> (c as nat) * (price * face_value)
            <= equity * risk_fraction(kelly, max_pct) * leverage * (SCALE as nat)),
{
    let value_sq = price * face_value;
    if value_sq > 0 {
        let m = margin_sq(equity, available, risk_fraction(kelly, max_pct));
        let x = m * leverage * (SCALE as nat);
        let q = x / value_sq;
        lemma_fundamental_div_mod(x as int, value_sq as int);
        lemma_mod_bound(x as int, value_sq as int);
        assert(q * value_sq <= x) by (nonlinear_arith)
            requires
                x == value_sq * q + x % value_sq,
                0 <= x % value_sq,
        ;
        assert(m <= equity * risk_fraction(kelly, max_pct));
        assert(m * leverage * (SCALE as nat) <= equity * risk_fraction(kelly, max_pct) * leverage * (SCALE as nat))
            by (nonlinear_arith)
            requires
                m <= equity * risk_fraction(kelly, max_pct),
        ;
    }
}

fn risk_fraction_of(kelly: i64, max_pct: u64) -> (r: u64)
    ensures
        r as nat == risk_fraction(kelly as int, max_pct as nat),
{
    if kelly as i128 > 2 * (max_pct as i128) {
        max_pct
    } else if kelly < 2 * (MIN_RISK_FRACTION as i64) {
        MIN_RISK_FRACTION
    } else {
        (kelly / 2) as u64
    }
}

proof fn lemma_u64_product_fits(x: u64, y: u64)
    ensures
        (x as nat) * (y as nat) <= u128::MAX,
{
    assert((x as nat) * (y as nat) <= (u64::MAX as nat) * (u64::MAX as nat)) by (nonlinear_arith)
        requires
            x <= u64::MAX,
            y <= u64::MAX,
    ;
}

/// `10 * rem` divided by `v`, without overflow.
fn times_ten_divmod(rem: u128, v: u128) -> (r: (u128, u128))
    requires
        rem < v,
    ensures
        r.0 < 10,
        r.1 < v,
        10 * rem == r.0 * v + r.1,
{
    let mut acc: u128 = 0;
    let mut q: u128 = 0;
    let mut i: u128 = 0;
    while i < 10
        invariant
            i <= 10,
            rem < v,
            acc < v,
            q <= i,
            i * rem == q * v + acc,
        decreases 10 - i,
    {
        let ghost q0: int = q as int;
        let gap = v - rem;
        if acc >= gap {
            acc = acc - gap;
            q = q + 1;
        } else {
            acc = acc + rem;
        }
        proof {
            assert(((i + 1) as int) * (rem as int) == (i as int) * (rem as int) + rem)
                by (nonlinear_arith);
            assert((q0 + 1) * (v as int) == q0 * (v as int) + v) by (nonlinear_arith);
        }
        i = i + 1;
    }
    proof {
        assert(q < 10) by (nonlinear_arith)
            requires
                10 * rem == q * v + acc,
                rem < v,
                acc >= 0,
        ;
    }
    (q, acc)
}

/// `floor(n * (SCALE as nat) / v)`, or `None` when it does not fit in `u128`.
fn scaled_quotient(n: u128, v: u128) -> (r: Option<u128>)
    requires
        v > 0,
    ensures
        (n as nat) * (SCALE as nat) / (v as nat) <= u128::MAX ==> r == Some(
            ((n as nat) * (SCALE as nat) / (v as nat)) as u128,
        ),
        (n as nat) * (SCALE as nat) / (v as nat) > u128::MAX ==> r is None,
{
    let mut k: u128 = n / v;
    let mut rem: u128 = n % v;
    let mut j: u64 = 0;
    proof {
        lemma_fundamental_div_mod(n as int, v as int);
        lemma_mod_bound(n as int, v as int);
        assert(pow10(0) == 1);
        assert(n * pow10(0) == n) by (nonlinear_arith)
            requires
                pow10(0) == 1,
        ;
        lemma_mul_is_commutative(v as int, k as int);
    }
    while j < 9
        invariant
            j <= 9,
            v > 0,
            rem < v,
            (n as nat) * pow10(j as nat) == (k as nat) * (v as nat) + rem,
        decreases 9 - j,
    {
        let (d, r2) = times_ten_divmod(rem, v);
        let ghost k0 = k;
        proof {
            assert(pow10((j + 1) as nat) == 10 * pow10(j as nat));
            assert((n as nat) * pow10((j + 1) as nat) == (10 * k0 + d) * v + r2) by (nonlinear_arith)
                requires
                    (n as nat) * pow10((j + 1) as nat) == (n as nat) * (10 * pow10(j as nat)),
                    (n as nat) * pow10(j as nat) == (k0 as nat) * (v as nat) + rem,
                    10 * rem == d * v + r2,
            ;
        }
        if k > (u128::MAX - d) / 10 {
            proof {
                let big = 10 * (k0 as nat) + (d as nat);
                assert(big > u128::MAX) by (nonlinear_arith)
                    requires
                        k0 > (u128::MAX - d) / 10,
                        big == 10 * k0 + d,
                        d < 10,
                ;
                let x = (n as nat) * pow10((j + 1) as nat);
                lemma_fundamental_div_mod_converse(x as int, v as int, big as int, r2 as int);
                lemma_pow10_monotonic((j + 1) as nat, 9);
                lemma_scale_is_pow10();
                assert(x <= (n as nat) * (SCALE as nat)) by (nonlinear_arith)
                    requires
                        x == (n as nat) * pow10((j + 1) as nat),
                        pow10((j + 1) as nat) <= SCALE,
                ;
                lemma_div_is_ordered(x as int, (n as nat * (SCALE as nat)) as int, v as int);
            }
            return None;
        }
        k = 10 * k + d;
        rem = r2;
        j = j + 1;
    }
    proof {
        lemma_scale_is_pow10();
        lemma_fundamental_div_mod_converse(
            ((n as nat) * (SCALE as nat)) as int,
            v as int,
            k as int,
            rem as int,
        );
    }
    Some(k)
}

/// Whether `x * (SCALE as nat) < v * n`, without overflow.
fn scaled_below(x: u128, v: u128, n: u64) -> (r: bool)
    ensures
        r == ((x as nat) * (SCALE as nat) < (v as nat) * (n as nat)),
{
    if n == 0 {
        return false;
    }
    let s: u128 = SCALE as u128;
    let q = v / s;
    let r = v % s;
    let nn = n as u128;
    proof {
        lemma_fundamental_div_mod(v as int, s as int);
        lemma_mod_bound(v as int, s as int);
        assert((v as nat) * (n as nat) == (q as nat) * (n as nat) * (SCALE as nat) + (r as nat) * (n as nat))
            by (nonlinear_arith)
            requires
                v == s * q + r,
                s == SCALE,
        ;
        lemma_fundamental_div_mod(x as int, nn as int);
        lemma_mod_bound(x as int, nn as int);
    }
    if q > x / nn {
        proof {
            assert((x as nat) * (SCALE as nat) < (q as nat) * (n as nat) * (SCALE as nat)) by (nonlinear_arith)
                requires
                    q > x / nn,
                    x == nn * (x / nn) + x % nn,
                    x % nn < nn,
                    nn == n,
                    n > 0,
            ;
        }
        return true;
    }
    proof {
        assert((q as nat) * (n as nat) <= x) by (nonlinear_arith)
            requires
                q <= x / nn,
                x == nn * (x / nn) + x % nn,
                x % nn >= 0,
                nn == n,
        ;
    }
    let qn = q * nn;
    let d = x - qn;
    if d >= nn {
        proof {
            assert((x as nat) * (SCALE as nat) >= (v as nat) * (n as nat)) by (nonlinear_arith)
                requires
                    x == qn + d,
                    d >= n,
                    qn == q * n,
                    r < SCALE,
                    (v as nat) * (n as nat) == (q as nat) * (n as nat) * (SCALE as nat) + (r as nat) * (n as nat),
            ;
        }
        return false;
    }
    proof {
        assert(d * s < 0x1_0000_0000_0000_0000_0000_0000u128) by (nonlinear_arith)
            requires
                d < nn,
                nn <= u64::MAX,
                s == 1_000_000_000u128,
        ;
        assert(r * nn < 0x1_0000_0000_0000_0000_0000_0000u128) by (nonlinear_arith)
            requires
                r < s,
                nn <= u64::MAX,
                s == 1_000_000_000u128,
        ;
        assert(((x as nat) * (SCALE as nat) < (v as nat) * (n as nat)) == (d * (SCALE as nat) < r * n))
            by (nonlinear_arith)
            requires
                x == qn + d,
                qn == q * n,
                (v as nat) * (n as nat) == (q as nat) * (n as nat) * (SCALE as nat) + (r as nat) * (n as nat),
        ;
    }
    d * s < r * nn
}

/// Sizes a position with the capped half-Kelly rule, all amounts in units.
pub fn size_position(
    equity: u64,
    available: u64,
    kelly: i64,
    max_pct: u64,
    leverage: u32,
    price: u64,
    face_value: u64,
    min_size: u64,
) -> (r: SizingOutcome)
    ensures
        r == sizing_outcome(
            equity as nat,
            available as nat,
            kelly as int,
            max_pct as nat,
            leverage as nat,
            price as nat,
            face_value as nat,
            min_size as nat,
        ),
{
    let s: u128 = SCALE as u128;
    proof {
        lemma_u64_product_fits(price, face_value);
        assert((available as u128) * (leverage as u128) <= 0x1_0000_0000_0000_0000_0000_0000u128)
            by (nonlinear_arith)
            requires
                available <= u64::MAX,
                leverage <= u32::MAX,
        ;
        assert((available as u128) * (leverage as u128) * s
            <= 0x4000_0000_0000_0000_0000_0000_0000_0000u128) by (nonlinear_arith)
            requires
                (available as u128) * (leverage as u128) <= 0x1_0000_0000_0000_0000_0000_0000u128,
                s == 1_000_000_000u128,
        ;
    }
    let value_sq: u128 = (price as u128) * (face_value as u128);
    if value_sq == 0 {
        return SizingOutcome::NoContractValue;
    }
    let budget: u128 = (available as u128) * (leverage as u128) * s;
    proof {
        assert((budget as nat) * (SCALE as nat) == (available as nat) * (leverage as nat) * (SCALE as nat) * (SCALE as nat))
            by (nonlinear_arith)
            requires
                budget == (available as u128) * (leverage as u128) * s,
                s == SCALE,
        ;
    }
    if scaled_below(budget, value_sq, min_size) {
        return SizingOutcome::MinimumUnaffordable;
    }
    let fraction = risk_fraction_of(kelly, max_pct);
    proof {
        lemma_u64_product_fits(equity, fraction);
    }
    let wanted: u128 = (equity as u128) * (fraction as u128);
    let free: u128 = (available as u128) * s;
    let margin: u128 = if wanted > free {
        (available as u128) * s * (BALANCE_CAP_NUMERATOR as u128) / 100
    } else {
        wanted
    };
    proof {
        assert(margin <= free) by (nonlinear_arith)
            requires
                wanted > free ==> margin == (available as u128) * s * 95 / 100,
                wanted <= free ==> margin == wanted,
                free == (available as u128) * s,
        ;
        assert(margin * (leverage as u128) <= budget) by (nonlinear_arith)
            requires
                margin <= free,
                free == (available as u128) * s,
                budget == (available as u128) * (leverage as u128) * s,
        ;
    }
    let notional: u128 = margin * (leverage as u128);
    let ghost c_exact: nat = (notional as nat) * (SCALE as nat) / (value_sq as nat);
    let ghost c_raw: nat = if c_exact < min_size {
        min_size as nat
    } else {
        c_exact
    };
    proof {
        lemma_fundamental_div_mod(((notional as nat) * (SCALE as nat)) as int, value_sq as int);
        lemma_mod_bound(((notional as nat) * (SCALE as nat)) as int, value_sq as int);
        let big: int = (notional as int) * (SCALE as int);
        assert(big == (value_sq as int) * (c_exact as int) + big % (value_sq as int));
        assert(c_exact * value_sq <= (notional as nat) * (SCALE as nat)) by (nonlinear_arith)
            requires
                big == (notional as int) * (SCALE as int),
                big == (value_sq as int) * (c_exact as int) + big % (value_sq as int),
                big % (value_sq as int) >= 0,
        ;
        assert((notional as nat) * (SCALE as nat) <= (budget as nat) * (SCALE as nat)) by (nonlinear_arith)
            requires
                notional <= budget,
        ;
        assert(c_raw * value_sq <= (budget as nat) * (SCALE as nat)) by (nonlinear_arith)
            requires
                c_exact < min_size ==> c_raw == min_size,
                c_exact >= min_size ==> c_raw == c_exact,
                c_exact * value_sq <= (notional as nat) * (SCALE as nat),
                (notional as nat) * (SCALE as nat) <= (budget as nat) * (SCALE as nat),
                (budget as nat) * (SCALE as nat) >= (value_sq as nat) * (min_size as nat),
        ;
        assert(margin_sq(equity as nat, available as nat, fraction as nat) == margin as nat);
        assert(margin_sq(equity as nat, available as nat, fraction as nat) * (leverage as nat)
            * (SCALE as nat) == (notional as nat) * (SCALE as nat));
    }
    match scaled_quotient(notional, value_sq) {
        Some(c) => {
            if c < min_size as u128 {
                SizingOutcome::Sized(min_size as u128)
            } else {
                SizingOutcome::Sized(c)
            }
        },
        None => SizingOutcome::Oversized,
    }
}

/// Contracts, in units, to order on `symbol` with the capped half-Kelly
/// rule; 0 when the instrument is unknown or the order cannot be afforded.
pub fn calculate_position_size_kelly(
    equity: u64,
    available_equity: u64,
    kelly_fraction: i64,
    max_pct_limit: u64,
    leverage: u32,
    price: u64,
    symbol: &str,
    cache: &InstrumentCache,
) -> (r: u128)
    ensures
        r as nat == outcome_contracts(
            sizing_outcome(
                equity as nat,
                available_equity as nat,
                kelly_fraction as int,
                max_pct_limit as nat,
                leverage as nat,
                price as nat,
                match cache.lookup_spec(symbol@) {
                    Some(m) => m.face_value as nat,
                    None => 0,
                },
                match cache.lookup_spec(symbol@) {
                    Some(m) => m.min_size as nat,
                    None => SCALE as nat,
                },
            ),
        ),
{
    let face_value = cache.get_face_value(symbol);
    let min_size = cache.get_min_size(symbol);
    match size_position(
        equity,
        available_equity,
        kelly_fraction,
        max_pct_limit,
        leverage,
        price,
        face_value,
        min_size,
    ) {
        SizingOutcome::Sized(c) => c,
        _ => 0,
    }
}

/// Kelly fraction `p - (1 - p) / b` in units, floored; 0 when `b <= 0`.
pub fn kelly_fraction_of(win_rate: i64, payoff_ratio: i64) -> (r: i64)
    requires
        0 <= win_rate <= SCALE,
    ensures
        r as int == kelly_of(win_rate as int, payoff_ratio as int),
        r <= win_rate,
{
    if payoff_ratio <= 0 {
        return 0;
    }
    let p = win_rate as i128;
    let b = payoff_ratio as i128;
    let s = SCALE as i128;
    proof {
        assert(p * b <= 0x1_0000_0000_0000_0000_0000_0000i128) by (nonlinear_arith)
            requires
                0 <= p <= 1_000_000_000,
                0 < b <= i64::MAX,
        ;
        assert(0 <= (s - p) * s <= 1_000_000_000_000_000_000i128) by (nonlinear_arith)
            requires
                0 <= p <= s,
                s == 1_000_000_000,
        ;
    }
    let num: i128 = p * b - (s - p) * s;
    let q: i128 = if num >= 0 {
        num / b
    } else {
        -((-num + b - 1) / b)
    };
    proof {
        let loss = (s - p) * s;
        assert(0 <= loss <= (SCALE as int) * (SCALE as int)) by (nonlinear_arith)
            requires
                loss == (s - p) * s,
                0 <= p <= s,
                s == SCALE,
        ;
        assert(p * b - loss <= p * b);
        if num >= 0 {
            lemma_fundamental_div_mod(num as int, b as int);
            lemma_mod_bound(num as int, b as int);
        } else {
            let m: int = -num + b - 1;
            let bi: int = b as int;
            lemma_fundamental_div_mod(m, bi);
            lemma_mod_bound(m, bi);
            let qq: int = m / bi;
            let rr: int = m % bi;
            assert(num == (-qq) * bi + (bi - 1 - rr)) by (nonlinear_arith)
                requires
                    m == bi * qq + rr,
                    m == -num + bi - 1,
            ;
            lemma_fundamental_div_mod_converse(num as int, bi, -qq, bi - 1 - rr);
        }
        // floor(num / b) lies between -loss and p
        lemma_div_is_ordered(num as int, p * b, b as int);
        lemma_div_multiples_vanish(p as int, b as int);
        lemma_div_is_ordered(-loss, num as int, b as int);
        lemma_div_neg_bound(loss, b as int);
    }
    q as i64
}

proof fn lemma_div_neg_bound(x: int, b: int)
    requires
        x >= 0,
        b >= 1,
    ensures
        (-x) / b >= -x,
{
    lemma_fundamental_div_mod(-x, b);
    lemma_mod_bound(-x, b);
    let q = (-x) / b;
    assert(q >= -x) by (nonlinear_arith)
        requires
            -x == b * q + (-x) % b,
            0 <= (-x) % b < b,
            b >= 1,
            x >= 0,
    ;
}

} // verus!
