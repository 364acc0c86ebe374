//! Decisions of the risk loop: drawdown alert, price merge, order routing,
//! position lookup and the volatility-paced rest between cycles.
use vstd::prelude::*;
use crate::fixed::SCALE;
use crate::decision::TradeAction;
use crate::executor::PositionSummary;

verus! {

/// A price-feed entry is used while it is younger than this: 60 s.
pub const FEED_FRESH_MS: u64 = 60_000;

/// Shortest rest between cycles, in seconds.
pub const MIN_REST_SECS: u64 = 60;

/// Baseline volatility, ATR as a percentage of price: 0.5.
pub const NORMAL_ATR_PCT: u64 = 500_000_000;

/// Equity baseline and drawdown limit, fixed for the life of the process.
#[derive(Clone, Copy, Debug, PartialEq, Eq, Structural)]
pub struct RiskState {
    pub initial_capital: u64,
    pub max_drawdown: u64,
}

/// The drawdown `(initial - equity) / initial` is strictly above `max_dd`;
/// it is only measured when both amounts are positive.
pub open spec fn drawdown_exceeds(initial: int, equity: int, max_dd: int) -> bool {
    initial > 0 && equity > 0 && (initial - equity) * SCALE > max_dd * initial
}

/// A price-feed observation as the reader sees it.
#[derive(Clone, Copy, Debug, PartialEq, Eq, Structural)]
pub struct PriceSample {
    pub price: u64,
    pub age_ms: u64,
}

/// The price used for a symbol this cycle.
#[derive(Clone, Copy, Debug, PartialEq, Eq, Structural)]
pub struct PriceChoice {
    pub price: u64,
    /// A feed entry existed but was too old.
    pub stale: bool,
}

/// Direction of an order.
#[derive(Clone, Copy, Debug, PartialEq, Eq, Structural)]
pub enum Side {
    Buy,
    Sell,
}

/// Side of the position an order opens or closes.
#[derive(Clone, Copy, Debug, PartialEq, Eq, Structural)]
pub enum PosSide {
    Long,
    Short,
}

/// Which order, if any, a decision leads to.
#[derive(Clone, Copy, Debug, PartialEq, Eq, Structural)]
pub enum TradeRoute {
    /// Open a position: sized, with take-profit and stop-loss.
    Open { side: Side, pos_side: PosSide },
    /// Close the whole position on `pos_side`, with no bracket.
    Close { side: Side, pos_side: PosSide },
    Hold,
}

pub open spec fn side_text(s: Side) -> Seq<char> {
    match s {
        Side::Buy => "buy"@,
        Side::Sell => "sell"@,
    }
}

pub open spec fn pos_side_text(p: PosSide) -> Seq<char> {
    match p {
        PosSide::Long => "long"@,
        PosSide::Short => "short"@,
    }
}

impl Side {
    /// The exchange's word for the side.
    pub fn as_str(&self) -> (r: String)
        ensures
            r@ == side_text(*self),
    {
        match self {
            Side::Buy => String::from_str("buy"),
            Side::Sell => String::from_str("sell"),
        }
    }
}

impl PosSide {
    /// The exchange's word for the position side.
    pub fn as_str(&self) -> (r: String)
        ensures
            r@ == pos_side_text(*self),
    {
        match self {
            PosSide::Long => String::from_str("long"),
            PosSide::Short => String::from_str("short"),
        }
    }
}

pub open spec fn rest_secs(base_secs: nat, max_atr_pct: nat) -> nat {
    if max_atr_pct == 0 {
        base_secs
    } else {
        let adjusted: nat = if 2 * max_atr_pct >= NORMAL_ATR_PCT {
            base_secs * (NORMAL_ATR_PCT as nat) / max_atr_pct
        } else {
            2 * base_secs
        };
        let floored: nat = if adjusted < MIN_REST_SECS {
            MIN_REST_SECS as nat
        } else {
            adjusted
        };
        if floored > u64::MAX {
            u64::MAX as nat
        } else {
            floored
        }
    }
}

impl RiskState {
    /// Whether the current equity breaches the drawdown limit.
    pub fn drawdown_alert(&self, equity: u64) -> (r: bool)
        ensures
            r == drawdown_exceeds(
                self.initial_capital as int,
                equity as int,
                self.max_drawdown as int,
            ),
    {
        drawdown_alert(self.initial_capital, equity, self.max_drawdown)
    }
}

/// Whether the drawdown from `initial` to `equity` is strictly above
/// `max_dd` (all in units); never at equality, never when either amount is
/// zero.
pub fn drawdown_alert(initial: u64, equity: u64, max_dd: u64) -> (r: bool)
    ensures
        r == drawdown_exceeds(initial as int, equity as int, max_dd as int),
{
    if initial == 0 || equity == 0 || equity >= initial {
        proof {
            if equity >= initial {
                assert((initial - equity) * SCALE <= 0) by (nonlinear_arith)
                    requires
                        equity >= initial,
                ;
                assert(max_dd * initial >= 0) by (nonlinear_arith)
                    requires
                        max_dd >= 0,
                        initial >= 0,
                ;
            }
        }
        return false;
    }
    let d: u64 = initial - equity;
    proof {
        assert((d as u128) * (SCALE as u128) <= u128::MAX) by (nonlinear_arith)
            requires
                d <= u64::MAX,
        ;
        assert((max_dd as u128) * (initial as u128) <= u128::MAX) by (nonlinear_arith)
            requires
                max_dd <= u64::MAX,
                initial <= u64::MAX,
        ;
    }
    (d as u128) * (SCALE as u128) > (max_dd as u128) * (initial as u128)
}

/// The feed price is used when its entry is strictly younger than 60 s;
/// otherwise, or with no entry, the REST price stays, and an entry that
/// is too old is reported stale.
pub fn merge_price(rest_price: u64, cached: Option<PriceSample>) -> (r: PriceChoice)
    ensures
        match cached {
            Some(c) => if c.age_ms < FEED_FRESH_MS {
                r == (PriceChoice { price: c.price, stale: false })
            } else {
                r == (PriceChoice { price: rest_price, stale: true })
            },
            None => r == (PriceChoice { price: rest_price, stale: false }),
        },
{
    match cached {
        Some(c) => {
            if c.age_ms < FEED_FRESH_MS {
                PriceChoice { price: c.price, stale: false }
            } else {
                PriceChoice { price: rest_price, stale: true }
            }
        },
        None => PriceChoice { price: rest_price, stale: false },
    }
}

/// Rest before the next cycle, in seconds: the base interval divided by
/// the volatility ratio `max_atr_pct / 0.5` (taken as at least 0.5), never
/// under 60 s, truncated to whole seconds and saturating at `u64::MAX`; the
/// base interval when no volatility was seen.
pub fn dynamic_rest_secs(base_secs: u64, max_atr_pct: u128) -> (r: u64)
    ensures
        r == rest_secs(base_secs as nat, max_atr_pct as nat),
{
    if max_atr_pct == 0 {
        return base_secs;
    }
    let budget: u128 = (base_secs as u128) * (NORMAL_ATR_PCT as u128);
    proof {
        assert(budget <= 0x1_0000_0000_0000_0000_0000_0000u128) by (nonlinear_arith)
            requires
                budget == (base_secs as u128) * (NORMAL_ATR_PCT as u128),
                base_secs <= u64::MAX,
        ;
    }
    let adjusted: u128 = if max_atr_pct >= (NORMAL_ATR_PCT as u128) / 2 {
        budget / max_atr_pct
    } else {
        2 * (base_secs as u128)
    };
    let floored: u128 = if adjusted < MIN_REST_SECS as u128 {
        MIN_REST_SECS as u128
    } else {
        adjusted
    };
    if floored > u64::MAX as u128 {
        u64::MAX
    } else {
        floored as u64
    }
}

/// ATR as a percentage of price, in units; 0 when the price is 0.
pub fn atr_percent(atr: u64, price: u64) -> (r: u128)
    ensures
        price == 0 ==> r == 0,
        price > 0 ==> r as int == (atr as int) * 100 * SCALE / (price as int),
{
    if price == 0 {
        return 0;
    }
    proof {
        assert((atr as u128) * 100 * (SCALE as u128) <= u128::MAX) by (nonlinear_arith)
            requires
                atr <= u64::MAX,
        ;
    }
    (atr as u128) * 100 * (SCALE as u128) / (price as u128)
}

/// The order a decision leads to: buying opens a long and selling a short;
/// closing a long sells and closing a short buys.
pub fn route_decision(action: TradeAction) -> (r: TradeRoute)
    ensures
        action == TradeAction::Buy ==> r == (TradeRoute::Open {
            side: Side::Buy,
            pos_side: PosSide::Long,
        }),
        action == TradeAction::Sell ==> r == (TradeRoute::Open {
            side: Side::Sell,
            pos_side: PosSide::Short,
        }),
        action == TradeAction::CloseLong ==> r == (TradeRoute::Close {
            side: Side::Sell,
            pos_side: PosSide::Long,
        }),
        action == TradeAction::CloseShort ==> r == (TradeRoute::Close {
            side: Side::Buy,
            pos_side: PosSide::Short,
        }),
        action == TradeAction::Hold ==> r == TradeRoute::Hold,
{
    match action {
        TradeAction::Buy => TradeRoute::Open { side: Side::Buy, pos_side: PosSide::Long },
        TradeAction::Sell => TradeRoute::Open { side: Side::Sell, pos_side: PosSide::Short },
        TradeAction::CloseLong => TradeRoute::Close { side: Side::Sell, pos_side: PosSide::Long },
        TradeAction::CloseShort => TradeRoute::Close { side: Side::Buy, pos_side: PosSide::Short },
        TradeAction::Hold => TradeRoute::Hold,
    }
}

pub open spec fn position_is(p: PositionSummary, symbol: Seq<char>, side: Seq<char>) -> bool {
    p.symbol@ == symbol && p.side@ == side && p.size > 0
}

/// Index of the first open position on `symbol` and `side` with a positive
/// size.
pub fn find_position(positions: &Vec<PositionSummary>, symbol: &str, side: &str) -> (r: Option<
    usize,
>)
    ensures
        match r {
            Some(i) => i < positions@.len() && position_is(positions@[i as int], symbol@, side@)
                && forall|j: int| 0 <= j < i ==> !position_is(#[trigger] positions@[j], symbol@, side@),
            None => forall|j: int|
                0 <= j < positions@.len() ==> !position_is(#[trigger] positions@[j], symbol@, side@),
        },
{
    let sym = String::from_str(symbol);
    let sd = String::from_str(side);
    let mut i: usize = 0;
    while i < positions.len()
        invariant
            i <= positions.len(),
            sym@ == symbol@,
            sd@ == side@,
            forall|j: int| 0 <= j < i ==> !position_is(#[trigger] positions@[j], symbol@, side@),
        decreases positions.len() - i,
    {
        let p = &positions[i];
        if p.symbol == sym && p.side == sd && p.size > 0 {
            return Some(i);
        }
        i = i + 1;
    }
    None
}

} // verus!
