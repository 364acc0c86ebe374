//! The trade decision record and the validation of every field of it.
use vstd::prelude::*;
use vstd::string::*;
use crate::fixed::SCALE;
use vstd::arithmetic::div_mod::{lemma_fundamental_div_mod, lemma_mod_bound};
use crate::sizing::{kelly_fraction_of, kelly_of, size_position, sizing_outcome, SizingOutcome, WIN_RATE_CAP};

verus! {

/// Take-profit fraction used when the decision gives none: 0.04.
pub const DEFAULT_TP: i64 = 40_000_000;

/// Stop-loss fraction used when the decision gives none: 0.02.
pub const DEFAULT_SL: i64 = 20_000_000;

/// Take-profit below which an opening decision is widened: 0.005.
pub const MIN_OPEN_TP: i64 = 5_000_000;

/// Take-profit an opening decision is widened to: 0.008.
pub const WIDENED_TP: i64 = 8_000_000;

/// Win rate assumed when the decision gives none: 0.5.
pub const DEFAULT_WIN_RATE: i64 = 500_000_000;

/// Payoff ratio assumed when the decision gives none: 1.5.
pub const DEFAULT_PAYOFF: i64 = 1_500_000_000;

#[derive(Clone, Copy, Debug, PartialEq, Eq, Structural)]
pub enum TradeAction {
    Buy,
    Sell,
    CloseLong,
    CloseShort,
    Hold,
}

/// A validated decision. Fractions, win rate and payoff ratio are in units
/// of `1 / SCALE`.
pub struct AiDecision {
    pub action: TradeAction,
    pub reason: String,
    pub tp_pct: i64,
    pub sl_pct: i64,
    pub leverage: u32,
    pub win_rate: i64,
    pub kelly_fraction: i64,
    pub risk_reward_ratio: i64,
    pub strategy_version: String,
}

/// A decision as the decision-maker wrote it, every field possibly absent.
pub struct RawDecision {
    pub action: Option<String>,
    pub reason: Option<String>,
    pub tp: Option<i64>,
    pub sl: Option<i64>,
    pub leverage: Option<u64>,
    pub win_rate: Option<i64>,
    pub risk_reward_ratio: Option<i64>,
}

pub open spec fn is_open(a: TradeAction) -> bool {
    a == TradeAction::Buy || a == TradeAction::Sell
}

/// The action an upper-case action word names; anything unknown holds.
pub open spec fn action_of_word(w: Seq<char>) -> TradeAction {
    if w == "BUY"@ || w == "OPEN_LONG"@ {
        TradeAction::Buy
    } else if w == "SELL"@ || w == "OPEN_SHORT"@ {
        TradeAction::Sell
    } else if w == "CLOSE_LONG"@ {
        TradeAction::CloseLong
    } else if w == "CLOSE_SHORT"@ {
        TradeAction::CloseShort
    } else {
        TradeAction::Hold
    }
}

pub open spec fn action_label(a: TradeAction) -> Seq<char> {
    match a {
        TradeAction::Buy => "OPEN LONG"@,
        TradeAction::Sell => "OPEN SHORT"@,
        TradeAction::CloseLong => "CLOSE LONG"@,
        TradeAction::CloseShort => "CLOSE SHORT"@,
        TradeAction::Hold => "HOLD"@,
    }
}

/// What `str::to_uppercase` makes of a text.
pub uninterp spec fn uppercase_of(s: Seq<char>) -> Seq<char>;

/// Relies on `str::to_uppercase`: its result depends on the text alone.
#[verifier::external_body]
fn to_upper(s: &str) -> (r: String)
    ensures
        r@ == uppercase_of(s@),
{
    s.to_uppercase()
}

/// A fraction given as a percentage above 1 (5 for 5%) is brought back to
/// a fraction.
pub open spec fn descaled(x: int) -> int {
    if x > SCALE {
        x / 100
    } else {
        x
    }
}

pub open spec fn take_profit_of(action: TradeAction, tp: Option<i64>) -> int {
    let t = descaled(
        match tp {
            Some(v) => v as int,
            None => DEFAULT_TP as int,
        },
    );
    if is_open(action) && t < MIN_OPEN_TP {
        WIDENED_TP as int
    } else {
        t
    }
}

pub open spec fn stop_loss_of(sl: Option<i64>) -> int {
    descaled(
        match sl {
            Some(v) => v as int,
            None => DEFAULT_SL as int,
        },
    )
}

/// Leverage asked for, held within `[1, max_leverage]`: above the maximum
/// it is the maximum (so 0 when the maximum is 0), below 1 it is 1.
pub open spec fn leverage_of(raw: Option<u64>, max_leverage: u32) -> u32 {
    let l = match raw {
        Some(v) => v as int,
        None => 1,
    };
    if l > max_leverage {
        max_leverage
    } else if l < 1 {
        1
    } else {
        l as u32
    }
}

/// Win rate asked for, held within `[0, 1]`.
pub open spec fn win_rate_of(raw: Option<i64>) -> int {
    let p = match raw {
        Some(v) => v as int,
        None => DEFAULT_WIN_RATE as int,
    };
    if p < 0 {
        0
    } else if p > SCALE {
        SCALE as int
    } else {
        p
    }
}

pub open spec fn payoff_of(raw: Option<i64>) -> int {
    match raw {
        Some(v) => v as int,
        None => DEFAULT_PAYOFF as int,
    }
}

pub open spec fn opt_text(t: Option<String>) -> Option<Seq<char>> {
    match t {
        Some(s) => Some(s@),
        None => None,
    }
}

/// The action after validation: an opening action with no positive Kelly
/// edge becomes a hold.
pub open spec fn validated_action(word: TradeAction, kelly: int) -> TradeAction {
    if kelly <= 0 && is_open(word) {
        TradeAction::Hold
    } else {
        word
    }
}

/// The Kelly fraction kept on the decision: never negative.
pub open spec fn validated_kelly(kelly: int) -> int {
    if kelly <= 0 {
        0
    } else {
        kelly
    }
}

impl AiDecision {
    /// Upper-case label of the decision's action.
    pub fn action_name(&self) -> (r: String)
        ensures
            r@ == action_label(self.action),
    {
        match self.action {
            TradeAction::Buy => String::from_str("OPEN LONG"),
            TradeAction::Sell => String::from_str("OPEN SHORT"),
            TradeAction::CloseLong => String::from_str("CLOSE LONG"),
            TradeAction::CloseShort => String::from_str("CLOSE SHORT"),
            TradeAction::Hold => String::from_str("HOLD"),
        }
    }

    /// Caps an over-confident win rate at 0.75 and recomputes the Kelly
    /// fraction from the capped value; other decisions are left as they are.
    pub fn cap_win_rate(&mut self)
        ensures
            old(self).win_rate > WIN_RATE_CAP ==> final(self).win_rate == WIN_RATE_CAP
                && final(self).kelly_fraction == kelly_of(
                WIN_RATE_CAP as int,
                old(self).risk_reward_ratio as int,
            ),
            old(self).win_rate <= WIN_RATE_CAP ==> final(self).win_rate == old(self).win_rate
                && final(self).kelly_fraction == old(self).kelly_fraction,
            final(self).action == old(self).action,
            final(self).reason == old(self).reason,
            final(self).tp_pct == old(self).tp_pct,
            final(self).sl_pct == old(self).sl_pct,
            final(self).leverage == old(self).leverage,
            final(self).risk_reward_ratio == old(self).risk_reward_ratio,
            final(self).strategy_version == old(self).strategy_version,
    {
        if self.win_rate > WIN_RATE_CAP {
            self.win_rate = WIN_RATE_CAP;
            self.kelly_fraction = kelly_fraction_of(WIN_RATE_CAP, self.risk_reward_ratio);
        }
    }
}

/// The Kelly fraction recomputed at the capped win rate is the exact
/// `0.75 - 0.25 / b` floored to the unit: in units, `k * b` is at most
/// `0.75 * b - 0.25` and `(k + 1) * b` is above it.
pub proof fn lemma_capped_kelly_is_floor(b: int)
    requires
        b > 0,
    ensures
        ({
            let k = kelly_of(WIN_RATE_CAP as int, b);
            let exact = (WIN_RATE_CAP as int) * b - ((SCALE as int) - WIN_RATE_CAP) * (SCALE as int);
            k * b <= exact && exact < (k + 1) * b
        }),
{
    let exact = (WIN_RATE_CAP as int) * b - ((SCALE as int) - WIN_RATE_CAP) * (SCALE as int);
    lemma_fundamental_div_mod(exact, b);
    lemma_mod_bound(exact, b);
    let k = exact / b;
    assert(k * b <= exact && exact < (k + 1) * b) by (nonlinear_arith)
        requires
            exact == b * k + exact % b,
            0 <= exact % b < b,
    ;
}

impl AiDecision {
    /// Sizes the position an opening decision asks for: the win rate is
    /// capped first, and the size is computed from the Kelly fraction and
    /// leverage the capped decision carries.
    pub fn size_open_position(
        &mut self,
        equity: u64,
        available: u64,
        max_pct: u64,
        price: u64,
        face_value: u64,
        min_size: u64,
    ) -> (r: SizingOutcome)
        ensures
            old(self).win_rate > WIN_RATE_CAP ==> final(self).win_rate == WIN_RATE_CAP
                && final(self).kelly_fraction == kelly_of(
                WIN_RATE_CAP as int,
                old(self).risk_reward_ratio as int,
            ),
            old(self).win_rate <= WIN_RATE_CAP ==> final(self).win_rate == old(self).win_rate
                && final(self).kelly_fraction == old(self).kelly_fraction,
            final(self).action == old(self).action,
            final(self).tp_pct == old(self).tp_pct,
            final(self).sl_pct == old(self).sl_pct,
            final(self).leverage == old(self).leverage,
            final(self).risk_reward_ratio == old(self).risk_reward_ratio,
            r == sizing_outcome(
                equity as nat,
                available as nat,
                final(self).kelly_fraction as int,
                max_pct as nat,
                final(self).leverage as nat,
                price as nat,
                face_value as nat,
                min_size as nat,
            ),
    {
        self.cap_win_rate();
        size_position(
            equity,
            available,
            self.kelly_fraction,
            max_pct,
            self.leverage,
            price,
            face_value,
            min_size,
        )
    }
}

/// The action an upper-case action word names.
pub fn action_from_word(w: &str) -> (r: TradeAction)
    ensures
        r == action_of_word(w@),
{
    let s = String::from_str(w);
    if s == String::from_str("BUY") || s == String::from_str("OPEN_LONG") {
        TradeAction::Buy
    } else if s == String::from_str("SELL") || s == String::from_str("OPEN_SHORT") {
        TradeAction::Sell
    } else if s == String::from_str("CLOSE_LONG") {
        TradeAction::CloseLong
    } else if s == String::from_str("CLOSE_SHORT") {
        TradeAction::CloseShort
    } else {
        TradeAction::Hold
    }
}

fn descale(x: i64) -> (r: i64)
    ensures
        r as int == descaled(x as int),
{
    if x > SCALE as i64 {
        x / 100
    } else {
        x
    }
}

/// Validates a raw decision: unknown actions hold; percentages above 1 are
/// read as percent; an opening take-profit below 0.005 becomes 0.008;
/// leverage is held within `[1, max_leverage]`, the win rate within
/// `[0, 1]`; an opening decision without a positive Kelly fraction holds.
pub fn parse_decision(raw: RawDecision, max_leverage: u32, strategy_version: String) -> (r:
    AiDecision)
    ensures
        ({
            let word = match opt_text(raw.action) {
                Some(a) => action_of_word(uppercase_of(a)),
                None => TradeAction::Hold,
            };
            let p = win_rate_of(raw.win_rate);
            let b = payoff_of(raw.risk_reward_ratio);
            let k = kelly_of(p, b);
            &&& r.action == validated_action(word, k)
            &&& r.kelly_fraction == validated_kelly(k)
            &&& r.tp_pct == take_profit_of(word, raw.tp)
            &&& r.sl_pct == stop_loss_of(raw.sl)
            &&& r.leverage == leverage_of(raw.leverage, max_leverage)
            &&& r.win_rate == p
            &&& r.risk_reward_ratio == b
            &&& r.reason@ == match opt_text(raw.reason) {
                Some(t) => t,
                None => "No reason"@,
            }
            &&& r.strategy_version@ == strategy_version@
        }),
{
    let word = match &raw.action {
        Some(a) => {
            let upper = to_upper(a.as_str());
            action_from_word(upper.as_str())
        },
        None => TradeAction::Hold,
    };
    let mut tp = descale(
        match raw.tp {
            Some(v) => v,
            None => DEFAULT_TP,
        },
    );
    if (word == TradeAction::Buy || word == TradeAction::Sell) && tp < MIN_OPEN_TP {
        tp = WIDENED_TP;
    }
    let sl = descale(
        match raw.sl {
            Some(v) => v,
            None => DEFAULT_SL,
        },
    );
    let asked: u64 = match raw.leverage {
        Some(v) => v,
        None => 1,
    };
    let leverage: u32 = if asked > max_leverage as u64 {
        max_leverage
    } else if asked < 1 {
        1
    } else {
        asked as u32
    };
    let p0: i64 = match raw.win_rate {
        Some(v) => v,
        None => DEFAULT_WIN_RATE,
    };
    let p: i64 = if p0 < 0 {
        0
    } else if p0 > SCALE as i64 {
        SCALE as i64
    } else {
        p0
    };
    let b: i64 = match raw.risk_reward_ratio {
        Some(v) => v,
        None => DEFAULT_PAYOFF,
    };
    let k = kelly_fraction_of(p, b);
    let (action, kelly) = if k <= 0 && (word == TradeAction::Buy || word == TradeAction::Sell) {
        (TradeAction::Hold, 0)
    } else if k <= 0 {
        (word, 0)
    } else {
        (word, k)
    };
    let reason = match raw.reason {
        Some(t) => t,
        None => String::from_str("No reason"),
    };
    AiDecision {
        action,
        reason,
        tp_pct: tp,
        sl_pct: sl,
        leverage,
        win_rate: p,
        kelly_fraction: kelly,
        risk_reward_ratio: b,
        strategy_version,
    }
}

} // verus!
