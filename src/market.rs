//! Candles and the technical indicators computed from them, in fixed point.
use vstd::prelude::*;
use crate::fixed::{parse_units, SCALE};
use crate::instruments::units_or_zero;

verus! {

/// One candle as the exchange lists it; prices and volume as text.
pub struct Kline {
    pub open_time: i64,
    pub open: String,
    pub high: String,
    pub low: String,
    pub close: String,
    pub volume: String,
}

/// Indicators of a candle series; all values in units of `1 / SCALE`.
pub struct Indicators {
    pub rsi_14: u64,
    pub atr_14: u64,
    pub ema_20: u64,
    pub ema_50: u64,
    pub trend_signal: String,
}

pub struct TechnicalAnalysis;

pub open spec fn price_units(t: Seq<char>) -> nat {
    units_or_zero(Some(t))
}

pub open spec fn close_of(k: Kline) -> nat {
    price_units(k.close@)
}

pub open spec fn high_of(k: Kline) -> nat {
    price_units(k.high@)
}

pub open spec fn low_of(k: Kline) -> nat {
    price_units(k.low@)
}

pub open spec fn abs(x: int) -> int {
    if x < 0 {
        -x
    } else {
        x
    }
}

/// True range of a candle against the previous close.
pub open spec fn true_range(high: int, low: int, prev_close: int) -> int {
    let a = high - low;
    let b = abs(high - prev_close);
    let c = abs(low - prev_close);
    let m = if a > b {
        a
    } else {
        b
    };
    if m > c {
        m
    } else {
        c
    }
}

/// Sum of the true ranges of candles `1..=n`.
pub open spec fn tr_sum(ks: Seq<Kline>, n: nat) -> int
    decreases n,
{
    if n == 0 {
        0
    } else {
        tr_sum(ks, (n - 1) as nat) + true_range(
            high_of(ks[n as int]) as int,
            low_of(ks[n as int]) as int,
            close_of(ks[n - 1]) as int,
        )
    }
}

/// Average true range of the first `period` candles after the first one;
/// 0 when there are too few candles.
pub open spec fn atr_of(ks: Seq<Kline>, period: nat) -> int {
    if ks.len() < period + 1 {
        0
    } else {
        tr_sum(ks, period) / (period as int)
    }
}

pub open spec fn sum_prefix(xs: Seq<u64>, n: nat) -> nat
    decreases n,
{
    if n == 0 {
        0
    } else {
        sum_prefix(xs, (n - 1) as nat) + xs[n - 1] as nat
    }
}

/// Exponential moving average after the first `n` prices, seeded with the
/// simple average of the first `period`; each step weighs the new price
/// `2 / (period + 1)`.
pub open spec fn ema_upto(xs: Seq<u64>, period: nat, n: nat) -> nat
    decreases n,
{
    if n <= period {
        sum_prefix(xs, period) / period
    } else {
        (2 * (xs[n - 1] as nat) + ema_upto(xs, period, (n - 1) as nat) * ((period - 1) as nat)) / (period + 1)
    }
}

pub open spec fn ema_of(xs: Seq<u64>, period: nat) -> nat {
    if xs.len() < period {
        if xs.len() == 0 {
            0
        } else {
            xs.last() as nat
        }
    } else {
        ema_upto(xs, period, xs.len())
    }
}

pub open spec fn gain_at(xs: Seq<u64>, i: int) -> nat {
    if xs[i] > xs[i - 1] {
        (xs[i] - xs[i - 1]) as nat
    } else {
        0
    }
}

pub open spec fn loss_at(xs: Seq<u64>, i: int) -> nat {
    if xs[i] > xs[i - 1] {
        0
    } else {
        (xs[i - 1] - xs[i]) as nat
    }
}

pub open spec fn gain_sum(xs: Seq<u64>, n: nat) -> nat
    decreases n,
{
    if n == 0 {
        0
    } else {
        gain_sum(xs, (n - 1) as nat) + gain_at(xs, n as int)
    }
}

pub open spec fn loss_sum(xs: Seq<u64>, n: nat) -> nat
    decreases n,
{
    if n == 0 {
        0
    } else {
        loss_sum(xs, (n - 1) as nat) + loss_at(xs, n as int)
    }
}

/// Wilder-smoothed average gain after the first `n` prices.
pub open spec fn avg_gain(xs: Seq<u64>, period: nat, n: nat) -> nat
    decreases n,
{
    if n <= period + 1 {
        gain_sum(xs, period) / period
    } else {
        (avg_gain(xs, period, (n - 1) as nat) * ((period - 1) as nat) + gain_at(xs, n - 1)) / period
    }
}

/// Wilder-smoothed average loss after the first `n` prices.
pub open spec fn avg_loss(xs: Seq<u64>, period: nat, n: nat) -> nat
    decreases n,
{
    if n <= period + 1 {
        loss_sum(xs, period) / period
    } else {
        (avg_loss(xs, period, (n - 1) as nat) * ((period - 1) as nat) + loss_at(xs, n - 1)) / period
    }
}

/// Relative strength index, 0 to 100 in units: 50 with too few prices, 100
/// with no average loss, else `100 * gain / (gain + loss)`.
pub open spec fn rsi_of(xs: Seq<u64>, period: nat) -> nat {
    if xs.len() < period + 1 {
        50 * (SCALE as nat)
    } else {
        let g = avg_gain(xs, period, xs.len());
        let l = avg_loss(xs, period, xs.len());
        if l == 0 {
            100 * (SCALE as nat)
        } else {
            100 * (SCALE as nat) * g / (g + l)
        }
    }
}

pub open spec fn trend_of(fast: nat, slow: nat) -> Seq<char> {
    if fast > slow {
        "Bullish"@
    } else if fast < slow {
        "Bearish"@
    } else {
        "Neutral"@
    }
}

fn units_or_zero_text(t: &String) -> (r: u64)
    ensures
        r as nat == price_units(t@),
{
    match parse_units(t.as_str()) {
        Some(v) => v,
        None => 0,
    }
}

impl Kline {
    /// Closing price in units; 0 when unreadable.
    pub fn close_price(&self) -> (r: u64)
        ensures
            r as nat == close_of(*self),
    {
        units_or_zero_text(&self.close)
    }

    /// Highest price in units; 0 when unreadable.
    pub fn high_price(&self) -> (r: u64)
        ensures
            r as nat == high_of(*self),
    {
        units_or_zero_text(&self.high)
    }

    /// Lowest price in units; 0 when unreadable.
    pub fn low_price(&self) -> (r: u64)
        ensures
            r as nat == low_of(*self),
    {
        units_or_zero_text(&self.low)
    }
}

proof fn lemma_true_range_bounds(h: int, l: int, pc: int)
    requires
        0 <= h <= u64::MAX,
        0 <= l <= u64::MAX,
        0 <= pc <= u64::MAX,
    ensures
        0 <= true_range(h, l, pc) <= u64::MAX,
{
}

proof fn lemma_tr_sum_bounds(ks: Seq<Kline>, n: nat)
    requires
        n < ks.len(),
    ensures
        0 <= tr_sum(ks, n) <= n * (u64::MAX as int),
    decreases n,
{
    if n > 0 {
        lemma_tr_sum_bounds(ks, (n - 1) as nat);
        lemma_true_range_bounds(
            high_of(ks[n as int]) as int,
            low_of(ks[n as int]) as int,
            close_of(ks[n - 1]) as int,
        );
        assert((n - 1) * (u64::MAX as int) + u64::MAX == n * (u64::MAX as int)) by (nonlinear_arith);
    }
}

proof fn lemma_sum_prefix_bound(xs: Seq<u64>, n: nat)
    requires
        n <= xs.len(),
    ensures
        sum_prefix(xs, n) <= n * (u64::MAX as nat),
    decreases n,
{
    if n > 0 {
        lemma_sum_prefix_bound(xs, (n - 1) as nat);
        assert((n - 1) * (u64::MAX as nat) + u64::MAX == n * (u64::MAX as nat)) by (nonlinear_arith);
    }
}

proof fn lemma_ema_bound(xs: Seq<u64>, period: nat, n: nat)
    requires
        period > 0,
        period <= n <= xs.len(),
    ensures
        ema_upto(xs, period, n) <= u64::MAX,
    decreases n,
{
    if n <= period {
        lemma_sum_prefix_bound(xs, period);
        assert(sum_prefix(xs, period) / period <= u64::MAX) by (nonlinear_arith)
            requires
                sum_prefix(xs, period) <= period * (u64::MAX as nat),
                period > 0,
        ;
    } else {
        lemma_ema_bound(xs, period, (n - 1) as nat);
        let e = ema_upto(xs, period, (n - 1) as nat);
        let x = xs[n - 1] as nat;
        assert((2 * x + e * ((period - 1) as nat)) / (period + 1) <= u64::MAX) by (nonlinear_arith)
            requires
                e <= u64::MAX,
                x <= u64::MAX,
                period > 0,
        ;
    }
}

proof fn lemma_move_sums_bound(xs: Seq<u64>, n: nat)
    requires
        n < xs.len(),
    ensures
        gain_sum(xs, n) <= n * (u64::MAX as nat),
        loss_sum(xs, n) <= n * (u64::MAX as nat),
    decreases n,
{
    if n > 0 {
        lemma_move_sums_bound(xs, (n - 1) as nat);
        assert((n - 1) * (u64::MAX as nat) + u64::MAX == n * (u64::MAX as nat)) by (nonlinear_arith);
    }
}

proof fn lemma_avg_bounds(xs: Seq<u64>, period: nat, n: nat)
    requires
        period > 0,
        period + 1 <= n <= xs.len(),
    ensures
        avg_gain(xs, period, n) <= u64::MAX,
        avg_loss(xs, period, n) <= u64::MAX,
    decreases n,
{
    if n <= period + 1 {
        lemma_move_sums_bound(xs, period);
        assert(gain_sum(xs, period) / period <= u64::MAX) by (nonlinear_arith)
            requires
                gain_sum(xs, period) <= period * (u64::MAX as nat),
                period > 0,
        ;
        assert(loss_sum(xs, period) / period <= u64::MAX) by (nonlinear_arith)
            requires
                loss_sum(xs, period) <= period * (u64::MAX as nat),
                period > 0,
        ;
    } else {
        lemma_avg_bounds(xs, period, (n - 1) as nat);
        let g = avg_gain(xs, period, (n - 1) as nat);
        let l = avg_loss(xs, period, (n - 1) as nat);
        let cg = gain_at(xs, n - 1);
        let cl = loss_at(xs, n - 1);
        assert((g * ((period - 1) as nat) + cg) / period <= u64::MAX) by (nonlinear_arith)
            requires
                g <= u64::MAX,
                cg <= u64::MAX,
                period > 0,
        ;
        assert((l * ((period - 1) as nat) + cl) / period <= u64::MAX) by (nonlinear_arith)
            requires
                l <= u64::MAX,
                cl <= u64::MAX,
                period > 0,
        ;
    }
}

proof fn lemma_small_multiple_fits(x: int, k: int)
    requires
        0 <= x <= u64::MAX,
        0 <= k <= 1000,
    ensures
        x * k + 2 * (u64::MAX as int) <= u128::MAX,
{
    vstd::arithmetic::mul::lemma_mul_upper_bound(x, u64::MAX as int, k, 1000);
}

pub open spec fn closes_of(ks: Seq<Kline>) -> Seq<u64> {
    Seq::new(ks.len(), |i: int| close_of(ks[i]) as u64)
}

impl TechnicalAnalysis {
    /// Average true range over candles `1..=period`; 0 with too few candles.
    fn calculate_atr(klines: &Vec<Kline>, period: usize) -> (r: u64)
        requires
            0 < period <= 1000,
        ensures
            r as int == atr_of(klines@, period as nat),
    {
        if klines.len() <= period {
            return 0;
        }
        let mut sum: u128 = 0;
        let mut i: usize = 1;
        proof {
            lemma_tr_sum_bounds(klines@, period as nat);
        }
        while i <= period
            invariant
                1 <= i <= period + 1,
                period <= 1000,
                period + 1 <= klines@.len(),
                sum as int == tr_sum(klines@, (i - 1) as nat),
                0 <= tr_sum(klines@, period as nat) <= period * (u64::MAX as int),
            decreases period + 1 - i,
        {
            let high = klines[i].high_price() as i128;
            let low = klines[i].low_price() as i128;
            let prev = klines[i - 1].close_price() as i128;
            let a = high - low;
            let b = if high - prev < 0 {
                prev - high
            } else {
                high - prev
            };
            let c = if low - prev < 0 {
                prev - low
            } else {
                low - prev
            };
            let m = if a > b {
                a
            } else {
                b
            };
            let tr = if m > c {
                m
            } else {
                c
            };
            proof {
                lemma_tr_sum_bounds(klines@, i as nat);
                lemma_tr_sum_bounds(klines@, period as nat);
                assert(i * (u64::MAX as int) <= (period as int) * (u64::MAX as int))
                    by (nonlinear_arith)
                    requires
                        i <= period,
                ;
                assert((period as int) * (u64::MAX as int) <= u128::MAX) by (nonlinear_arith)
                    requires
                        period <= usize::MAX,
                ;
            }
            sum = sum + tr as u128;
            i = i + 1;
        }
        proof {
            assert(sum / (period as u128) <= u64::MAX) by (nonlinear_arith)
                requires
                    sum <= period * (u64::MAX as int),
                    period > 0,
            ;
        }
        (sum / (period as u128)) as u64
    }

    /// Exponential moving average seeded with a simple average; the last
    /// price (or 0) when there are fewer prices than the period.
    fn calculate_ema(prices: &Vec<u64>, period: usize) -> (r: u64)
        requires
            0 < period <= 1000,
        ensures
            r as nat == ema_of(prices@, period as nat),
    {
        if prices.len() < period {
            if prices.len() == 0 {
                return 0;
            }
            return prices[prices.len() - 1];
        }
        let mut sum: u128 = 0;
        let mut i: usize = 0;
        proof {
            lemma_sum_prefix_bound(prices@, period as nat);
        }
        while i < period
            invariant
                i <= period <= prices@.len(),
                sum as nat == sum_prefix(prices@, i as nat),
            decreases period - i,
        {
            proof {
                lemma_sum_prefix_bound(prices@, (i + 1) as nat);
                assert((i + 1) * (u64::MAX as nat) <= u128::MAX) by (nonlinear_arith)
                    requires
                        i + 1 <= usize::MAX,
                ;
            }
            sum = sum + prices[i] as u128;
            i = i + 1;
        }
        let mut ema: u128 = sum / (period as u128);
        proof {
            lemma_ema_bound(prices@, period as nat, period as nat);
        }
        let mut n: usize = period;
        while n < prices.len()
            invariant
                period <= n <= prices@.len(),
                0 < period <= 1000,
                ema as nat == ema_upto(prices@, period as nat, n as nat),
                ema <= u64::MAX,
            decreases prices.len() - n,
        {
            proof {
                lemma_ema_bound(prices@, period as nat, (n + 1) as nat);
                lemma_small_multiple_fits(ema as int, (period - 1) as int);
            }
            ema = (2 * (prices[n] as u128) + ema * ((period - 1) as u128)) / ((period + 1) as u128);
            n = n + 1;
        }
        ema as u64
    }

    /// Relative strength index with Wilder's smoothing, in units.
    fn calculate_rsi(prices: &Vec<u64>, period: usize) -> (r: u64)
        requires
            0 < period <= 1000,
        ensures
            r as nat == rsi_of(prices@, period as nat),
    {
        if prices.len() <= period {
            return 50 * SCALE;
        }
        let mut gains: u128 = 0;
        let mut losses: u128 = 0;
        let mut i: usize = 1;
        proof {
            lemma_move_sums_bound(prices@, period as nat);
        }
        while i <= period
            invariant
                1 <= i <= period + 1,
                period <= 1000,
                period + 1 <= prices@.len(),
                gains as nat == gain_sum(prices@, (i - 1) as nat),
                losses as nat == loss_sum(prices@, (i - 1) as nat),
            decreases period + 1 - i,
        {
            proof {
                lemma_move_sums_bound(prices@, i as nat);
                assert(i * (u64::MAX as nat) <= u128::MAX) by (nonlinear_arith)
                    requires
                        i <= usize::MAX,
                ;
            }
            if prices[i] > prices[i - 1] {
                gains = gains + (prices[i] - prices[i - 1]) as u128;
            } else {
                losses = losses + (prices[i - 1] - prices[i]) as u128;
            }
            i = i + 1;
        }
        let mut g: u128 = gains / (period as u128);
        let mut l: u128 = losses / (period as u128);
        proof {
            lemma_avg_bounds(prices@, period as nat, (period + 1) as nat);
        }
        let mut n: usize = period + 1;
        while n < prices.len()
            invariant
                period + 1 <= n <= prices@.len(),
                0 < period <= 1000,
                g as nat == avg_gain(prices@, period as nat, n as nat),
                l as nat == avg_loss(prices@, period as nat, n as nat),
                g <= u64::MAX,
                l <= u64::MAX,
            decreases prices.len() - n,
        {
            proof {
                lemma_avg_bounds(prices@, period as nat, (n + 1) as nat);
                lemma_small_multiple_fits(g as int, (period - 1) as int);
                lemma_small_multiple_fits(l as int, (period - 1) as int);
            }
            let (cg, cl): (u128, u128) = if prices[n] > prices[n - 1] {
                ((prices[n] - prices[n - 1]) as u128, 0)
            } else {
                (0, (prices[n - 1] - prices[n]) as u128)
            };
            g = (g * ((period - 1) as u128) + cg) / (period as u128);
            l = (l * ((period - 1) as u128) + cl) / (period as u128);
            n = n + 1;
        }
        if l == 0 {
            return 100 * SCALE;
        }
        proof {
            assert(100 * (SCALE as u128) * g <= u128::MAX) by (nonlinear_arith)
                requires
                    g <= u64::MAX,
            ;
            assert(100 * (SCALE as u128) * g / (g + l) <= 100 * (SCALE as u128))
                by (nonlinear_arith)
                requires
                    l > 0,
            ;
        }
        (100 * (SCALE as u128) * g / (g + l)) as u64
    }

    /// RSI(14), ATR(14), EMA(20), EMA(50) and the trend that the two moving
    /// averages show.
    pub fn analyze(klines: &Vec<Kline>) -> (r: Indicators)
        ensures
            r.rsi_14 as nat == rsi_of(closes_of(klines@), 14),
            r.atr_14 as int == atr_of(klines@, 14),
            r.ema_20 as nat == ema_of(closes_of(klines@), 20),
            r.ema_50 as nat == ema_of(closes_of(klines@), 50),
            r.trend_signal@ == trend_of(r.ema_20 as nat, r.ema_50 as nat),
    {
        let mut closes: Vec<u64> = Vec::new();
        let mut i: usize = 0;
        while i < klines.len()
            invariant
                i <= klines@.len(),
                closes@ =~= closes_of(klines@).take(i as int),
            decreases klines.len() - i,
        {
            let c = klines[i].close_price();
            closes.push(c);
            i = i + 1;
        }
        proof {
            assert(closes@ =~= closes_of(klines@));
        }
        let rsi = Self::calculate_rsi(&closes, 14);
        let atr = Self::calculate_atr(klines, 14);
        let ema_20 = Self::calculate_ema(&closes, 20);
        let ema_50 = Self::calculate_ema(&closes, 50);
        let trend = if ema_20 > ema_50 {
            String::from_str("Bullish")
        } else if ema_20 < ema_50 {
            String::from_str("Bearish")
        } else {
            String::from_str("Neutral")
        };
        Indicators { rsi_14: rsi, atr_14: atr, ema_20, ema_50, trend_signal: trend }
    }
}

} // verus!
