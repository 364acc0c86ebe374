//! The risk profile: limits, allowed symbols and timing, loaded once.
use vstd::prelude::*;

verus! {

#[derive(Clone, Copy, Debug, PartialEq, Eq, Structural)]
pub struct TimingConfig {
    pub cycle_rest_sec: u64,
    pub evolution_sec: u64,
    pub symbol_gap_sec: u64,
}

pub struct IndicatorConfig {
    pub kline_interval: String,
    pub rsi_period: usize,
    pub atr_period: usize,
    pub ema_fast: usize,
    pub ema_slow: usize,
}

/// Thresholds of the post-trade analysis jobs, as fractions in units of
/// `1 / SCALE`.
#[derive(Clone, Copy, Debug, PartialEq, Eq, Structural)]
pub struct ThresholdConfig {
    pub autopsy_roe_pct: i64,
    pub scanner_pump_pct: i64,
}

/// Limits are in units of `1 / SCALE`, but for the leverage, a whole
/// number.
pub struct RiskProfile {
    pub max_leverage: u32,
    pub max_order_size_pct: u64,
    pub daily_drawdown_limit: u64,
    pub allowed_symbols: Vec<String>,
    pub timing: TimingConfig,
    pub indicators: IndicatorConfig,
    pub thresholds: ThresholdConfig,
}

impl RiskProfile {
    /// Whether `symbol` is on the allow-list.
    pub fn is_symbol_allowed(&self, symbol: &str) -> (r: bool)
        ensures
            r == exists|i: int|
                0 <= i < self.allowed_symbols@.len() && #[trigger] self.allowed_symbols@[i]@
                    == symbol@,
    {
        let key = String::from_str(symbol);
        let mut i: usize = 0;
        while i < self.allowed_symbols.len()
            invariant
                i <= self.allowed_symbols.len(),
                key@ == symbol@,
                forall|j: int| 0 <= j < i ==> #[trigger] self.allowed_symbols@[j]@ != symbol@,
            decreases self.allowed_symbols.len() - i,
        {
            if self.allowed_symbols[i] == key {
                return true;
            }
            i = i + 1;
        }
        false
    }
}

} // verus!
