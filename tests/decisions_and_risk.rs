use rust_trader::decision::{action_from_word, parse_decision, AiDecision, RawDecision, TradeAction};
use rust_trader::fixed::SCALE;
use rust_trader::sizing::SizingOutcome;
use rust_trader::risk::{
    atr_percent, drawdown_alert, dynamic_rest_secs, find_position, merge_price, route_decision, PosSide,
    PriceChoice, PriceSample, RiskState, Side, TradeRoute,
};
use rust_trader::executor::PositionSummary;

const S: u64 = SCALE;

fn raw(action: &str) -> RawDecision {
    RawDecision {
        action: Some(action.to_string()),
        reason: Some("trend".to_string()),
        tp: Some(60_000_000),
        sl: Some(20_000_000),
        leverage: Some(3),
        win_rate: Some(600_000_000),
        risk_reward_ratio: Some(2 * S as i64),
    }
}

fn decision(win_rate: i64, payoff: i64, kelly: i64) -> AiDecision {
    AiDecision {
        action: TradeAction::Buy,
        reason: "r".to_string(),
        tp_pct: 1,
        sl_pct: 2,
        leverage: 3,
        win_rate,
        kelly_fraction: kelly,
        risk_reward_ratio: payoff,
        strategy_version: "v".to_string(),
    }
}

#[test]
fn win_rate_above_cap_is_clamped_and_kelly_recomputed() {
    let mut d = decision(900_000_000, 2 * S as i64, 850_000_000);
    d.cap_win_rate();
    assert_eq!(d.win_rate, 750_000_000);
    // 0.75 - 0.25 / 2 = 0.625
    assert_eq!(d.kelly_fraction, 625_000_000);
    let mut d = decision(900_000_000, 0, 850_000_000);
    d.cap_win_rate();
    assert_eq!(d.win_rate, 750_000_000);
    assert_eq!(d.kelly_fraction, 0);
    let mut d = decision(750_000_000, 2 * S as i64, 123);
    d.cap_win_rate();
    assert_eq!(d.win_rate, 750_000_000);
    assert_eq!(d.kelly_fraction, 123);
}

#[test]
fn action_words() {
    assert_eq!(action_from_word("BUY"), TradeAction::Buy);
    assert_eq!(action_from_word("OPEN_SHORT"), TradeAction::Sell);
    assert_eq!(action_from_word("CLOSE_SHORT"), TradeAction::CloseShort);
    assert_eq!(action_from_word("buy"), TradeAction::Hold);
    assert_eq!(action_from_word("WAIT"), TradeAction::Hold);
}

#[test]
fn decision_is_validated() {
    let d = parse_decision(raw("buy"), 10, "v6".to_string());
    assert_eq!(d.action, TradeAction::Buy);
    assert_eq!(d.kelly_fraction, 400_000_000);
    assert_eq!(d.tp_pct, 60_000_000);
    assert_eq!(d.leverage, 3);
    assert_eq!(d.reason, "trend");
    assert_eq!(d.strategy_version, "v6");
    assert_eq!(d.action_name(), "OPEN LONG");

    let d = parse_decision(raw("close_long"), 10, "v6".to_string());
    assert_eq!(d.action, TradeAction::CloseLong);
    assert_eq!(d.action_name(), "CLOSE LONG");
}

#[test]
fn percentages_are_rescaled_and_tiny_take_profit_widened() {
    let mut r = raw("sell");
    r.tp = Some(5 * S as i64);
    r.sl = Some(2 * S as i64);
    let d = parse_decision(r, 10, String::new());
    assert_eq!(d.tp_pct, 50_000_000);
    assert_eq!(d.sl_pct, 20_000_000);
    let mut r = raw("sell");
    r.tp = Some(1_000_000);
    let d = parse_decision(r, 10, String::new());
    assert_eq!(d.tp_pct, 8_000_000);
    let mut r = raw("hold");
    r.tp = Some(1_000_000);
    let d = parse_decision(r, 10, String::new());
    assert_eq!(d.tp_pct, 1_000_000);
}

#[test]
fn leverage_and_win_rate_are_clamped() {
    let mut r = raw("buy");
    r.leverage = Some(50);
    r.win_rate = Some(3 * S as i64);
    let d = parse_decision(r, 20, String::new());
    assert_eq!(d.leverage, 20);
    assert_eq!(d.win_rate, S as i64);
    let mut r = raw("buy");
    r.leverage = Some(0);
    let d = parse_decision(r, 20, String::new());
    assert_eq!(d.leverage, 1);
}

#[test]
fn missing_fields_take_defaults() {
    let r = RawDecision { action: None, reason: None, tp: None, sl: None, leverage: None, win_rate: None, risk_reward_ratio: None };
    let d = parse_decision(r, 5, String::new());
    assert_eq!(d.action, TradeAction::Hold);
    assert_eq!(d.tp_pct, 40_000_000);
    assert_eq!(d.sl_pct, 20_000_000);
    assert_eq!(d.leverage, 1);
    assert_eq!(d.win_rate, 500_000_000);
    assert_eq!(d.risk_reward_ratio, 1_500_000_000);
    assert_eq!(d.reason, "No reason");
    // 0.5 - 0.5 / 1.5 = 0.1666...
    assert_eq!(d.kelly_fraction, 166_666_666);
}

#[test]
fn opening_without_edge_holds() {
    let mut r = raw("BUY");
    r.win_rate = Some(200_000_000);
    r.risk_reward_ratio = Some(S as i64);
    let d = parse_decision(r, 5, String::new());
    assert_eq!(d.action, TradeAction::Hold);
    assert_eq!(d.kelly_fraction, 0);
}

#[test]
fn drawdown_fires_strictly_above_limit() {
    // 10% limit: equity 9000 of 10000 is exactly 10%
    assert!(!drawdown_alert(10_000 * S, 9_000 * S, 100_000_000));
    assert!(drawdown_alert(10_000 * S, 8_999 * S, 100_000_000));
    assert!(!drawdown_alert(10_000 * S, 11_000 * S, 100_000_000));
    assert!(!drawdown_alert(0, 5 * S, 0));
    assert!(!drawdown_alert(10_000 * S, 0, 0));
    let state = RiskState { initial_capital: 10_000 * S, max_drawdown: 100_000_000 };
    assert!(state.drawdown_alert(8_000 * S));
}

#[test]
fn feed_price_is_used_only_while_fresh() {
    let fresh = merge_price(100, Some(PriceSample { price: 105, age_ms: 59_999 }));
    assert_eq!(fresh, PriceChoice { price: 105, stale: false });
    let boundary = merge_price(100, Some(PriceSample { price: 105, age_ms: 60_000 }));
    assert_eq!(boundary, PriceChoice { price: 100, stale: true });
    assert_eq!(merge_price(100, None), PriceChoice { price: 100, stale: false });
}

#[test]
fn rest_follows_volatility() {
    assert_eq!(dynamic_rest_secs(1800, S as u128), 900);
    assert_eq!(dynamic_rest_secs(1800, 100_000_000), 3600);
    assert_eq!(dynamic_rest_secs(1800, 0), 1800);
    assert_eq!(dynamic_rest_secs(1800, 100 * S as u128), 60);
    assert_eq!(dynamic_rest_secs(u64::MAX, 1), u64::MAX);
}

#[test]
fn atr_as_percent_of_price() {
    assert_eq!(atr_percent(S, 100 * S), S as u128);
    assert_eq!(atr_percent(S, 0), 0);
}

#[test]
fn decisions_route_to_orders() {
    assert_eq!(route_decision(TradeAction::Buy), TradeRoute::Open { side: Side::Buy, pos_side: PosSide::Long });
    assert_eq!(route_decision(TradeAction::Sell), TradeRoute::Open { side: Side::Sell, pos_side: PosSide::Short });
    assert_eq!(route_decision(TradeAction::CloseLong), TradeRoute::Close { side: Side::Sell, pos_side: PosSide::Long });
    assert_eq!(route_decision(TradeAction::CloseShort), TradeRoute::Close { side: Side::Buy, pos_side: PosSide::Short });
    assert_eq!(route_decision(TradeAction::Hold), TradeRoute::Hold);
    assert_eq!(Side::Sell.as_str(), "sell");
    assert_eq!(PosSide::Long.as_str(), "long");
}

fn pos(symbol: &str, side: &str, size: i64) -> PositionSummary {
    PositionSummary {
        symbol: symbol.to_string(),
        size,
        upl: 0,
        side: side.to_string(),
        leverage: 1,
        notional_usd: 0,
        margin_usd: 0,
    }
}

#[test]
fn finds_open_position_by_symbol_and_side() {
    let ps = vec![pos("A", "long", 0), pos("B", "long", 5), pos("A", "short", 3), pos("A", "long", 2)];
    assert_eq!(find_position(&ps, "A", "long"), Some(3));
    assert_eq!(find_position(&ps, "A", "short"), Some(2));
    assert_eq!(find_position(&ps, "C", "long"), None);
}

#[test]
fn opening_size_uses_capped_win_rate() {
    // capped: 0.75 - 0.25 / 2 = 0.625, half-Kelly 0.3125 held at 0.2 -> 100 contracts
    let mut d = decision(950_000_000, 2 * S as i64, 900_000_000);
    d.leverage = 5;
    let r = d.size_open_position(10_000 * S, 9_000 * S, 200_000_000, 100 * S, S, S);
    assert_eq!(d.win_rate, 750_000_000);
    assert_eq!(d.kelly_fraction, 625_000_000);
    assert_eq!(r, SizingOutcome::Sized(100 * S as u128));
    // uncapped small edge: kelly 0.3 -> 0.15 of 10000 = 1500, x5 / 100 = 75
    let mut d = decision(600_000_000, 2 * S as i64, 300_000_000);
    d.leverage = 5;
    let r = d.size_open_position(10_000 * S, 9_000 * S, 200_000_000, 100 * S, S, S);
    assert_eq!(r, SizingOutcome::Sized(75 * S as u128));
}
