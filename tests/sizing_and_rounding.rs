use rust_trader::fixed::SCALE;
use rust_trader::instruments::{align_size_down, InstrumentCache, RawInstrument};
use rust_trader::sizing::{calculate_position_size_kelly, kelly_fraction_of, size_position, SizingOutcome};

const S: u64 = SCALE;

fn cache_with(symbol: &str, ct_val: &str, tick: &str, min: &str, lot: &str) -> InstrumentCache {
    InstrumentCache::from_raw(&vec![RawInstrument {
        inst_id: symbol.to_string(),
        ct_val: Some(ct_val.to_string()),
        tick_sz: Some(tick.to_string()),
        min_sz: Some(min.to_string()),
        lot_sz: Some(lot.to_string()),
    }])
}

#[test]
fn size_rounds_down_to_lot() {
    let cache = cache_with("BTC-USDT-SWAP", "0.01", "0.1", "0.01", "0.01");
    assert_eq!(cache.round_size_down("BTC-USDT-SWAP", 127_000_000), "0.12");
}

#[test]
fn size_without_metadata_is_written_plainly() {
    let cache = InstrumentCache::new();
    assert_eq!(cache.round_size_down("ETH-USDT-SWAP", 127_000_000), "0.127");
    assert_eq!(cache.round_size_down("ETH-USDT-SWAP", 5 * S as u128), "5");
}

#[test]
fn size_on_whole_lots_has_no_decimals() {
    let cache = cache_with("DOGE-USDT-SWAP", "1000", "0.00001", "1", "1");
    assert_eq!(cache.round_size_down("DOGE-USDT-SWAP", 3_700_000_000), "3");
}

#[test]
fn aligned_size_is_a_multiple_and_stable() {
    let lot: u64 = 10_000_000;
    for q in [0u128, 1, 9_999_999, 10_000_000, 127_000_000, 999_999_999_999] {
        let a = align_size_down(q, lot);
        assert_eq!(a % lot as u128, 0);
        assert!(a <= q + 1);
        assert_eq!(align_size_down(a, lot), a);
    }
    // the tolerance lifts a quantity one unit short of a lot
    assert_eq!(align_size_down(9_999_999, lot), 10_000_000);
}

#[test]
fn price_uses_tick_precision() {
    let cache = cache_with("BTC-USDT-SWAP", "0.01", "0.1", "0.01", "0.01");
    assert_eq!(cache.round_price("BTC-USDT-SWAP", 105_040_000_000), "105.0");
    assert_eq!(cache.round_price("BTC-USDT-SWAP", 105_050_000_000), "105.1");
}

#[test]
fn price_without_metadata_uses_magnitude() {
    let cache = InstrumentCache::new();
    assert_eq!(cache.round_price("X", 1_234_567), "0.001235");
    assert_eq!(cache.round_price("X", 123_456_789), "0.1235");
    assert_eq!(cache.round_price("X", 1_234_567_890), "1.235");
    assert_eq!(cache.round_price("X", 12_345_678_900), "12.35");
}

#[test]
fn unknown_symbol_has_default_metadata() {
    let cache = InstrumentCache::new();
    assert_eq!(cache.get_face_value("X"), 0);
    assert_eq!(cache.get_min_size("X"), S);
}

#[test]
fn later_instrument_entry_wins_and_empty_ids_are_skipped() {
    let raw = vec![
        RawInstrument { inst_id: "A".to_string(), ct_val: Some("1".to_string()), tick_sz: None, min_sz: None, lot_sz: None },
        RawInstrument { inst_id: "".to_string(), ct_val: Some("7".to_string()), tick_sz: None, min_sz: None, lot_sz: None },
        RawInstrument { inst_id: "A".to_string(), ct_val: Some("2".to_string()), tick_sz: Some("bad".to_string()), min_sz: None, lot_sz: None },
    ];
    let cache = InstrumentCache::from_raw(&raw);
    let m = cache.lookup("A").unwrap();
    assert_eq!(m.face_value, 2 * S);
    assert_eq!(m.tick_size, 0);
    assert!(cache.lookup("").is_none());
}

#[test]
fn half_kelly_sizes_seventy_five_contracts() {
    let r = size_position(10_000 * S, 9_000 * S, 300_000_000, 200_000_000, 5, 100 * S, S, S);
    assert_eq!(r, SizingOutcome::Sized(75 * S as u128));
}

#[test]
fn kelly_sizing_through_cache() {
    let cache = cache_with("SOL-USDT-SWAP", "1", "0.01", "1", "1");
    let q = calculate_position_size_kelly(10_000 * S, 9_000 * S, 300_000_000, 200_000_000, 5, 100 * S, "SOL-USDT-SWAP", &cache);
    assert_eq!(q, 75 * S as u128);
}

#[test]
fn minimum_clip_unaffordable_sizes_zero() {
    let r = size_position(50 * S, 50 * S, 300_000_000, 200_000_000, 1, 100 * S, S, S);
    assert_eq!(r, SizingOutcome::MinimumUnaffordable);
    for (e, k, m) in [(1u64, -5i64, 0u64), (1_000_000 * S, 2 * S as i64, S), (0, 0, 100_000_000)] {
        let r = size_position(e, 50 * S, k, m, 1, 100 * S, S, S);
        assert_eq!(r, SizingOutcome::MinimumUnaffordable);
    }
}

#[test]
fn unknown_instrument_sizes_zero() {
    let cache = InstrumentCache::new();
    let q = calculate_position_size_kelly(10_000 * S, 9_000 * S, 300_000_000, 200_000_000, 5, 100 * S, "NOPE", &cache);
    assert_eq!(q, 0);
    assert_eq!(size_position(1, 1, 1, 1, 1, 0, S, S), SizingOutcome::NoContractValue);
}

#[test]
fn margin_is_capped_at_ninety_five_percent_of_free_balance() {
    // equity 10000, cap 0.5 of equity = 5000 margin > free 1000 -> 950 margin
    let r = size_position(10_000 * S, 1_000 * S, 2 * S as i64, 500_000_000, 1, 10 * S, S, S);
    assert_eq!(r, SizingOutcome::Sized(95 * S as u128));
}

#[test]
fn small_kelly_uses_floor_fraction_and_min_size_bump() {
    // half-Kelly below 0.01 -> 0.01 of 1000 = 10 margin, 10x -> 100 notional / 50 = 2 contracts
    let r = size_position(1_000 * S, 1_000 * S, 0, S, 10, 50 * S, S, S);
    assert_eq!(r, SizingOutcome::Sized(2 * S as u128));
    // raised to the minimum of 5 contracts
    let r = size_position(1_000 * S, 1_000 * S, 0, S, 10, 50 * S, S, 5 * S);
    assert_eq!(r, SizingOutcome::Sized(5 * S as u128));
}

#[test]
fn kelly_fraction_values() {
    // 0.6 - 0.4 / 2 = 0.4
    assert_eq!(kelly_fraction_of(600_000_000, 2 * S as i64), 400_000_000);
    // 0.75 - 0.25 / 1.5 = 0.58333...
    assert_eq!(kelly_fraction_of(750_000_000, 1_500_000_000), 583_333_333);
    // 0.2 - 0.8 / 1 = -0.6
    assert_eq!(kelly_fraction_of(200_000_000, S as i64), -600_000_000);
    // 0.3 - 0.7 / 3 = 0.0666..., floored
    assert_eq!(kelly_fraction_of(300_000_000, 3 * S as i64), 66_666_666);
    // 0.1 - 0.9 / 3 = -0.2
    assert_eq!(kelly_fraction_of(100_000_000, 3 * S as i64), -200_000_000);
    // -(0.9/7) not whole: floored toward minus infinity
    assert_eq!(kelly_fraction_of(0, 7 * S as i64), -142_857_143);
    assert_eq!(kelly_fraction_of(500_000_000, 0), 0);
}

#[test]
fn rounded_price_rounds_to_itself() {
    let cache = cache_with("BTC-USDT-SWAP", "0.01", "0.1", "0.01", "0.01");
    let once = cache.round_price("BTC-USDT-SWAP", 105_040_000_000);
    let value = rust_trader::fixed::parse_units(&once).unwrap();
    assert_eq!(cache.round_price("BTC-USDT-SWAP", value), once);
    let size = cache.round_size_down("BTC-USDT-SWAP", 127_000_000);
    let value = rust_trader::fixed::parse_units(&size).unwrap();
    assert_eq!(cache.round_size_down("BTC-USDT-SWAP", value as u128), size);
}

#[test]
fn minimum_cost_uses_exact_contract_value() {
    // price 0.00012345, face value 0.001: the minimum of 1 contract costs
    // 0.00000012345, more than a balance of 0.000000123
    let r = size_position(S, 123, 300_000_000, 200_000_000, 1, 123_450, 1_000_000, S);
    assert_eq!(r, SizingOutcome::MinimumUnaffordable);
    // a balance of 0.000000124 pays for it
    let r = size_position(0, 124, 0, 0, 1, 123_450, 1_000_000, S);
    assert_eq!(r, SizingOutcome::Sized(S as u128));
}

#[test]
fn contracts_divide_by_exact_contract_value() {
    // 95% of a balance of 1000 is the margin, one contract is worth 0.00000012345
    let r = size_position(1_000_000 * S, 1_000 * S, 2 * S as i64, S, 1, 123_450, 1_000_000, S);
    // 950 / 0.00000012345 = 7_695_423_248.28... contracts
    assert_eq!(r, SizingOutcome::Sized(7_695_423_248_278_655_326));
}

#[test]
fn oversized_positions_are_reported() {
    let r = size_position(u64::MAX, u64::MAX, 2 * S as i64, S, u32::MAX, 1, 1, 0);
    assert_eq!(r, SizingOutcome::Oversized);
}

#[test]
fn price_on_whole_tick_has_no_decimals() {
    let cache = cache_with("IDX", "1", "10", "1", "1");
    assert_eq!(cache.round_price("IDX", 100 * S), "100");
    let cache = cache_with("IDX", "1", "1", "1", "1");
    assert_eq!(cache.round_price("IDX", 100_400_000_000), "100");
}
