use rust_trader::config::{IndicatorConfig, RiskProfile, ThresholdConfig, TimingConfig};
use rust_trader::executor::{
    balance_from_fields, dry_run_result, order_result, plan_order, pnl_from_raw, positions_from_raw,
    AccountError, OrderError, RawBill, RawPosition,
};
use rust_trader::feed::{feed_step, ticker_updates, FeedAction, FeedEvent, FeedState, TickerItem};
use rust_trader::fixed::SCALE;
use rust_trader::instruments::{InstrumentCache, RawInstrument};
use rust_trader::market::{Kline, TechnicalAnalysis};
use rust_trader::transport::{attempt_outcome, classify_response, AttemptOutcome, ResponseClass, RetryPolicy, RetryStep};

const S: u64 = SCALE;

fn s(t: &str) -> Option<String> {
    Some(t.to_string())
}

fn btc_cache() -> InstrumentCache {
    InstrumentCache::from_raw(&vec![RawInstrument {
        inst_id: "BTC-USDT-SWAP".to_string(),
        ct_val: s("0.01"),
        tick_sz: s("0.1"),
        min_sz: s("0.01"),
        lot_sz: s("0.01"),
    }])
}

#[test]
fn long_order_gets_bracket() {
    let plan = plan_order(&btc_cache(), "BTC-USDT-SWAP", "buy", "long", 127_000_000, 100 * S, 50_000_000, 20_000_000).unwrap();
    assert_eq!(plan.size, "0.12");
    assert_eq!(plan.inst_id, "BTC-USDT-SWAP");
    let b = plan.bracket.unwrap();
    assert_eq!(b.tp_trigger, "105.0");
    assert_eq!(b.sl_trigger, "98.0");
    assert!(!plan.bracket_skipped);
}

#[test]
fn short_order_inverts_bracket() {
    let plan = plan_order(&btc_cache(), "BTC-USDT-SWAP", "sell", "short", S as u128, 100 * S, 50_000_000, 20_000_000).unwrap();
    let b = plan.bracket.unwrap();
    assert_eq!(b.tp_trigger, "95.0");
    assert_eq!(b.sl_trigger, "102.0");
}

#[test]
fn bracket_with_non_positive_price_is_skipped() {
    let plan = plan_order(&btc_cache(), "BTC-USDT-SWAP", "sell", "short", S as u128, 100 * S, 2 * S as i64, 20_000_000).unwrap();
    assert!(plan.bracket.is_none());
    assert!(plan.bracket_skipped);
    let plan = plan_order(&btc_cache(), "BTC-USDT-SWAP", "sell", "short", S as u128, 100 * S, 0, 20_000_000).unwrap();
    assert!(plan.bracket.is_none());
    assert!(!plan.bracket_skipped);
}

#[test]
fn order_below_lot_fails() {
    let r = plan_order(&btc_cache(), "BTC-USDT-SWAP", "buy", "long", 9_000_000, 100 * S, 0, 0);
    assert!(matches!(r, Err(OrderError::SizeTooSmall)));
    let r = plan_order(&InstrumentCache::new(), "X", "buy", "long", 0, 100 * S, 0, 0);
    assert!(matches!(r, Err(OrderError::SizeTooSmall)));
}

#[test]
fn order_results() {
    let r = order_result(&s("123"), "{}".to_string());
    assert_eq!(r.order_id, "123");
    assert_eq!(order_result(&None, String::new()).order_id, "unknown");
    let d = dry_run_result();
    assert_eq!(d.order_id, "dry-run");
    assert_eq!(d.response, "ok");
}

#[test]
fn balance_needs_both_fields() {
    let b = balance_from_fields(&s("1000.5"), &s("900")).unwrap();
    assert_eq!(b.total_equity, 1_000_500_000_000);
    assert_eq!(b.available_balance, 900 * S);
    assert!(matches!(balance_from_fields(&None, &s("1")), Err(AccountError::MissingField)));
    assert!(matches!(balance_from_fields(&s("x"), &s("1")), Err(AccountError::BadNumber)));
}

#[test]
fn zero_size_positions_are_dropped() {
    let raw = vec![
        RawPosition { inst_id: s("A"), pos: s("0"), upl: None, pos_side: s("long"), lever: s("3"), notional_usd: None, mgn: None },
        RawPosition { inst_id: s("C"), pos: s("-1"), upl: None, pos_side: s("short"), lever: s("3"), notional_usd: None, mgn: None },
        RawPosition { inst_id: s("B"), pos: s("2.5"), upl: s("-1.5"), pos_side: None, lever: s("x"), notional_usd: s("250"), mgn: s("25") },
    ];
    let ps = positions_from_raw(&raw);
    assert_eq!(ps.len(), 1);
    assert_eq!(ps[0].symbol, "B");
    assert_eq!(ps[0].size, 2_500_000_000);
    assert_eq!(ps[0].upl, -1_500_000_000);
    assert_eq!(ps[0].side, "net");
    assert_eq!(ps[0].leverage, 1);
    assert_eq!(ps[0].margin_usd, 25 * S as i64);
}

#[test]
fn ledger_entries_are_read() {
    let raw = vec![RawBill { inst_id: s("A"), pnl: s("-3"), fee: s("-0.1"), ts: s("1700000000000"), bill_type: s("2"), ord_id: None }];
    let r = pnl_from_raw(&raw);
    assert_eq!(r.len(), 1);
    assert_eq!(r[0].pnl, -3 * S as i64);
    assert_eq!(r[0].fee, -100_000_000);
    assert_eq!(r[0].ts, 1_700_000_000_000);
    assert_eq!(r[0].ord_id, "");
}

#[test]
fn responses_are_classified() {
    assert_eq!(classify_response(true, &s("0")), ResponseClass::Accepted);
    assert_eq!(classify_response(true, &s("51008")), ResponseClass::BusinessError);
    assert_eq!(classify_response(true, &None), ResponseClass::BusinessError);
    assert_eq!(classify_response(false, &s("0")), ResponseClass::TransportError);
    assert_eq!(attempt_outcome(ResponseClass::BusinessError), AttemptOutcome::Terminal);
    assert_eq!(attempt_outcome(ResponseClass::TransportError), AttemptOutcome::Transient);
}

#[test]
fn retry_policies() {
    let t = RetryPolicy::transport();
    assert_eq!(t.after_attempt(1, AttemptOutcome::Transient), RetryStep::Wait { delay_ms: 500, next_attempt: 2 });
    assert_eq!(t.after_attempt(2, AttemptOutcome::Transient), RetryStep::Wait { delay_ms: 1000, next_attempt: 3 });
    assert_eq!(t.after_attempt(3, AttemptOutcome::Transient), RetryStep::Exhausted);
    assert_eq!(t.after_attempt(1, AttemptOutcome::Terminal), RetryStep::GiveUp);
    assert_eq!(t.after_attempt(2, AttemptOutcome::Success), RetryStep::Done);
    let o = RetryPolicy::order_submission();
    assert_eq!(o.after_attempt(9, AttemptOutcome::Transient), RetryStep::Wait { delay_ms: 1000, next_attempt: 10 });
    assert_eq!(o.after_attempt(10, AttemptOutcome::Transient), RetryStep::Exhausted);
    assert_eq!(RetryPolicy::capital_bootstrap().delay_ms(4), 5000);
}

#[test]
fn feed_connection_cycle() {
    let (st, act) = feed_step(FeedState::Disconnected, FeedEvent::Start);
    assert_eq!((st, act), (FeedState::Connecting, FeedAction::Connect));
    let (st, act) = feed_step(st, FeedEvent::Connected);
    assert_eq!((st, act), (FeedState::Subscribed, FeedAction::SendSubscribe));
    let (st, act) = feed_step(st, FeedEvent::SubscribeSent);
    assert_eq!((st, act), (FeedState::Streaming, FeedAction::ReadNext));
    let (st, act) = feed_step(st, FeedEvent::Message);
    assert_eq!((st, act), (FeedState::Streaming, FeedAction::ReadNext));
    let (st, act) = feed_step(st, FeedEvent::StreamLost);
    assert_eq!((st, act), (FeedState::Disconnected, FeedAction::WaitThenStart { delay_ms: 5000 }));
    let (st, _) = feed_step(FeedState::Connecting, FeedEvent::ConnectFailed);
    assert_eq!(st, FeedState::Disconnected);
}

#[test]
fn ticker_items_become_updates() {
    let items = vec![
        TickerItem { inst_id: s("BTC-USDT-SWAP"), last: s("65000.5") },
        TickerItem { inst_id: None, last: s("1") },
        TickerItem { inst_id: s("ETH-USDT-SWAP"), last: s("n/a") },
        TickerItem { inst_id: s("ETH-USDT-SWAP"), last: s("3000") },
    ];
    let u = ticker_updates(&items);
    assert_eq!(u.len(), 2);
    assert_eq!(u[0].symbol, "BTC-USDT-SWAP");
    assert_eq!(u[0].price, 65_000_500_000_000);
    assert_eq!(u[1].price, 3_000 * S);
}

fn kline(high: &str, low: &str, close: &str) -> Kline {
    Kline {
        open_time: 0,
        open: close.to_string(),
        high: high.to_string(),
        low: low.to_string(),
        close: close.to_string(),
        volume: "1".to_string(),
    }
}

#[test]
fn kline_prices() {
    let k = kline("11", "9", "10.5");
    assert_eq!(k.close_price(), 10_500_000_000);
    assert_eq!(k.high_price(), 11 * S);
    assert_eq!(kline("x", "9", "1").high_price(), 0);
}

#[test]
fn indicators_of_rising_series() {
    let ks: Vec<Kline> = (0..60).map(|i| {
        let c = 100 + i;
        kline(&(c + 1).to_string(), &(c - 1).to_string(), &c.to_string())
    }).collect();
    let ind = TechnicalAnalysis::analyze(&ks);
    assert_eq!(ind.rsi_14, 100 * S);
    assert_eq!(ind.atr_14, 2 * S);
    assert_eq!(ind.trend_signal, "Bullish");
    assert!(ind.ema_20 > ind.ema_50);
}

#[test]
fn indicators_of_short_series() {
    let ks = vec![kline("2", "1", "1.5")];
    let ind = TechnicalAnalysis::analyze(&ks);
    assert_eq!(ind.rsi_14, 50 * S);
    assert_eq!(ind.atr_14, 0);
    assert_eq!(ind.ema_20, 1_500_000_000);
    assert_eq!(ind.trend_signal, "Neutral");
}

#[test]
fn allowed_symbols() {
    let p = RiskProfile {
        max_leverage: 10,
        max_order_size_pct: 200_000_000,
        daily_drawdown_limit: 100_000_000,
        allowed_symbols: vec!["BTC-USDT-SWAP".to_string(), "ETH-USDT-SWAP".to_string()],
        timing: TimingConfig { cycle_rest_sec: 1800, evolution_sec: 86400, symbol_gap_sec: 1 },
        indicators: IndicatorConfig { kline_interval: "1H".to_string(), rsi_period: 14, atr_period: 14, ema_fast: 20, ema_slow: 50 },
        thresholds: ThresholdConfig { autopsy_roe_pct: -20_000_000, scanner_pump_pct: 50_000_000 },
    };
    assert!(p.is_symbol_allowed("ETH-USDT-SWAP"));
    assert!(!p.is_symbol_allowed("DOGE-USDT-SWAP"));
}
