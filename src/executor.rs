//! Account snapshots read from the exchange's text fields, and the plan of
//! an order: formatted size and the optional attached bracket.
use vstd::prelude::*;
use crate::fixed::{
    decimal_units, integer_value, parse_integer, parse_signed_units, parse_units,
    signed_decimal_units, SCALE,
};
use crate::instruments::{
    format_price, format_size, opt_view, price_is_zero, price_text, price_text_is_zero,
    size_is_zero, size_text, size_text_is_zero, InstrumentCache, InstrumentMeta,
};

verus! {

/// Margin mode of every order and leverage setting.
pub const MARGIN_MODE: &'static str = "cross";

/// Order type of every submitted order.
pub const ORDER_TYPE: &'static str = "market";

/// Execution price of a bracket trigger: fill at market.
pub const MARKET_EXECUTION_PRICE: &'static str = "-1";

pub struct OrderResult {
    pub order_id: String,
    pub response: String,
}

pub struct BalanceSummary {
    pub total_equity: u64,
    pub available_balance: u64,
}

/// One open position. Amounts are in units of `1 / SCALE`.
pub struct PositionSummary {
    pub symbol: String,
    pub size: i64,
    pub upl: i64,
    pub side: String,
    pub leverage: u32,
    pub notional_usd: i64,
    pub margin_usd: i64,
}

/// One realized profit-and-loss entry of the account ledger.
pub struct PnlRecord {
    pub symbol: String,
    pub pnl: i64,
    pub fee: i64,
    pub ts: i64,
    pub bill_type: String,
    pub ord_id: String,
}

/// One position as the exchange lists it, every field as optional text.
pub struct RawPosition {
    pub inst_id: Option<String>,
    pub pos: Option<String>,
    pub upl: Option<String>,
    pub pos_side: Option<String>,
    pub lever: Option<String>,
    pub notional_usd: Option<String>,
    pub mgn: Option<String>,
}

/// One ledger entry as the exchange lists it, every field as optional text.
pub struct RawBill {
    pub inst_id: Option<String>,
    pub pnl: Option<String>,
    pub fee: Option<String>,
    pub ts: Option<String>,
    pub bill_type: Option<String>,
    pub ord_id: Option<String>,
}

#[derive(Clone, Copy, Debug, PartialEq, Eq, Structural)]
pub enum AccountError {
    /// A required balance field is absent.
    MissingField,
    /// A balance field is not a non-negative decimal that fits.
    BadNumber,
}

#[derive(Clone, Copy, Debug, PartialEq, Eq, Structural)]
pub enum OrderError {
    /// The quantity formats to zero at the instrument's lot size.
    SizeTooSmall,
}

/// Take-profit and stop-loss trigger prices attached to an order.
pub struct Bracket {
    pub tp_trigger: String,
    pub sl_trigger: String,
}

/// Everything the exchange is told about one market order.
pub struct OrderPlan {
    pub inst_id: String,
    pub side: String,
    pub pos_side: String,
    pub size: String,
    pub bracket: Option<Bracket>,
    /// Both fractions were positive but a trigger price was not, so the
    /// order goes without protection.
    pub bracket_skipped: bool,
}

/// Signed units of an optional numeric text: absent or unreadable counts as 0.
pub open spec fn signed_or_zero(t: Option<Seq<char>>) -> int {
    match t {
        Some(s) => match signed_decimal_units(s) {
            Some(v) => if i64::MIN <= v <= i64::MAX {
                v
            } else {
                0
            },
            None => 0,
        },
        None => 0,
    }
}

/// An optional whole-number text, or `default` when absent or unreadable.
pub open spec fn integer_or(t: Option<Seq<char>>, max: nat, default: nat) -> nat {
    match t {
        Some(s) => match integer_value(s) {
            Some(v) => if v <= max {
                v
            } else {
                default
            },
            None => default,
        },
        None => default,
    }
}

pub open spec fn text_or(t: Option<Seq<char>>, default: Seq<char>) -> Seq<char> {
    match t {
        Some(s) => s,
        None => default,
    }
}

/// The balance a pair of fields gives, or the error it raises.
pub open spec fn balance_of(
    eq: Option<Seq<char>>,
    avail: Option<Seq<char>>,
) -> Result<(nat, nat), AccountError> {
    match (eq, avail) {
        (Some(e), Some(a)) => match (decimal_units(e), decimal_units(a)) {
            (Some(x), Some(y)) => if x <= u64::MAX && y <= u64::MAX {
                Ok((x, y))
            } else {
                Err(AccountError::BadNumber)
            },
            _ => Err(AccountError::BadNumber),
        },
        _ => Err(AccountError::MissingField),
    }
}

fn signed_from_text(t: &Option<String>) -> (r: i64)
    ensures
        r as int == signed_or_zero(opt_view(*t)),
{
    match t {
        Some(s) => match parse_signed_units(s.as_str()) {
            Some(v) => v,
            None => 0,
        },
        None => 0,
    }
}

fn text_or_default(t: &Option<String>, default: &str) -> (r: String)
    ensures
        r@ == text_or(opt_view(*t), default@),
{
    match t {
        Some(s) => s.clone(),
        None => String::from_str(default),
    }
}

/// Reads the account balance from its equity and available-equity fields.
pub fn balance_from_fields(eq: &Option<String>, avail: &Option<String>) -> (r: Result<
    BalanceSummary,
    AccountError,
>)
    ensures
        match balance_of(opt_view(*eq), opt_view(*avail)) {
            Ok((e, a)) => (r matches Ok(b) && b.total_equity == e && b.available_balance == a),
            Err(err) => (r matches Err(x) && x == err),
        },
{
    match (eq, avail) {
        (Some(e), Some(a)) => {
            match (parse_units(e.as_str()), parse_units(a.as_str())) {
                (Some(x), Some(y)) => Ok(BalanceSummary { total_equity: x, available_balance: y }),
                _ => Err(AccountError::BadNumber),
            }
        },
        _ => Err(AccountError::MissingField),
    }
}

/// An open position: its size reads as a positive amount.
pub open spec fn position_kept(r: RawPosition) -> bool {
    signed_or_zero(opt_view(r.pos)) > 0
}

/// The summary a raw position gives.
pub open spec fn position_matches(p: PositionSummary, r: RawPosition) -> bool {
    &&& p.size == signed_or_zero(opt_view(r.pos))
    &&& p.symbol@ == text_or(opt_view(r.inst_id), ""@)
    &&& p.upl == signed_or_zero(opt_view(r.upl))
    &&& p.side@ == text_or(opt_view(r.pos_side), "net"@)
    &&& p.leverage == integer_or(opt_view(r.lever), u32::MAX as nat, 1)
    &&& p.notional_usd == signed_or_zero(opt_view(r.notional_usd))
    &&& p.margin_usd == signed_or_zero(opt_view(r.mgn))
}

/// The raw positions with a positive size, in their order.
pub open spec fn kept_positions(raw: Seq<RawPosition>) -> Seq<RawPosition> {
    raw.filter(|r: RawPosition| position_kept(r))
}

fn leverage_from_text(t: &Option<String>) -> (r: u32)
    ensures
        r as nat == integer_or(opt_view(*t), u32::MAX as nat, 1),
{
    match t {
        Some(s) => match parse_integer(s.as_str()) {
            Some(v) => if v <= u32::MAX as u64 {
                v as u32
            } else {
                1
            },
            None => 1,
        },
        None => 1,
    }
}

fn position_from_raw(r: &RawPosition) -> (p: PositionSummary)
    ensures
        position_matches(p, *r),
{
    PositionSummary {
        symbol: text_or_default(&r.inst_id, ""),
        size: signed_from_text(&r.pos),
        upl: signed_from_text(&r.upl),
        side: text_or_default(&r.pos_side, "net"),
        leverage: leverage_from_text(&r.lever),
        notional_usd: signed_from_text(&r.notional_usd),
        margin_usd: signed_from_text(&r.mgn),
    }
}

/// The open positions of a raw list: entries whose size is not positive
/// are left out.
pub fn positions_from_raw(raw: &Vec<RawPosition>) -> (r: Vec<PositionSummary>)
    ensures
        r@.len() == kept_positions(raw@).len(),
        forall|j: int|
            0 <= j < r@.len() ==> position_matches(#[trigger] r@[j], kept_positions(raw@)[j]),
{
    let mut out: Vec<PositionSummary> = Vec::new();
    let mut i: usize = 0;
    while i < raw.len()
        invariant
            i <= raw.len(),
            out@.len() == kept_positions(raw@.take(i as int)).len(),
            forall|j: int|
                0 <= j < out@.len() ==> position_matches(
                    #[trigger] out@[j],
                    kept_positions(raw@.take(i as int))[j],
                ),
        decreases raw.len() - i,
    {
        let p = position_from_raw(&raw[i]);
        proof {
            assert(raw@.take(i + 1) =~= raw@.take(i as int).push(raw@[i as int]));
            raw@.take(i as int).lemma_filter_push(raw@[i as int], |r: RawPosition| position_kept(r));
        }
        if p.size > 0 {
            out.push(p);
        }
        i = i + 1;
    }
    proof {
        assert(raw@.take(raw.len() as int) =~= raw@);
    }
    out
}

pub open spec fn bill_matches(p: PnlRecord, r: RawBill) -> bool {
    &&& p.symbol@ == text_or(opt_view(r.inst_id), ""@)
    &&& p.pnl == signed_or_zero(opt_view(r.pnl))
    &&& p.fee == signed_or_zero(opt_view(r.fee))
    &&& p.ts == integer_or(opt_view(r.ts), i64::MAX as nat, 0)
    &&& p.bill_type@ == text_or(opt_view(r.bill_type), ""@)
    &&& p.ord_id@ == text_or(opt_view(r.ord_id), ""@)
}

fn bill_from_raw(r: &RawBill) -> (p: PnlRecord)
    ensures
        bill_matches(p, *r),
{
    let ts: i64 = match &r.ts {
        Some(s) => match parse_integer(s.as_str()) {
            Some(v) => if v <= i64::MAX as u64 {
                v as i64
            } else {
                0
            },
            None => 0,
        },
        None => 0,
    };
    PnlRecord {
        symbol: text_or_default(&r.inst_id, ""),
        pnl: signed_from_text(&r.pnl),
        fee: signed_from_text(&r.fee),
        ts,
        bill_type: text_or_default(&r.bill_type, ""),
        ord_id: text_or_default(&r.ord_id, ""),
    }
}

/// The realized profit-and-loss records of a raw ledger, one per entry.
pub fn pnl_from_raw(raw: &Vec<RawBill>) -> (r: Vec<PnlRecord>)
    ensures
        r@.len() == raw@.len(),
        forall|j: int| 0 <= j < r@.len() ==> bill_matches(#[trigger] r@[j], raw@[j]),
{
    let mut out: Vec<PnlRecord> = Vec::new();
    let mut i: usize = 0;
    while i < raw.len()
        invariant
            i <= raw.len(),
            out@.len() == i,
            forall|j: int| 0 <= j < i ==> bill_matches(#[trigger] out@[j], raw@[j]),
        decreases raw.len() - i,
    {
        out.push(bill_from_raw(&raw[i]));
        i = i + 1;
    }
    out
}

/// Take-profit and stop-loss trigger prices, in units, for a position on
/// `side` opened at `price`: `price * (1 + tp)` and `price * (1 - sl)` for
/// a long, the signs inverted otherwise; truncated to the unit.
pub open spec fn bracket_prices(is_long: bool, price: int, tp: int, sl: int) -> (int, int) {
    if is_long {
        (price * (SCALE + tp) / (SCALE as int), price * (SCALE - sl) / (SCALE as int))
    } else {
        (price * (SCALE - tp) / (SCALE as int), price * (SCALE + sl) / (SCALE as int))
    }
}

/// A trigger price that can be sent: representable and not zero once
/// rounded to the instrument's tick.
pub open spec fn trigger_ok(meta: Option<InstrumentMeta>, p: int) -> bool {
    0 < p <= u64::MAX && !price_text_is_zero(meta, p as nat)
}

/// The identifier the exchange gave an order, or `"unknown"`.
pub fn order_result(ord_id: &Option<String>, response: String) -> (r: OrderResult)
    ensures
        r.order_id@ == text_or(opt_view(*ord_id), "unknown"@),
        r.response@ == response@,
{
    OrderResult { order_id: text_or_default(ord_id, "unknown"), response }
}

/// The result reported for an order that dry-run mode did not send.
pub fn dry_run_result() -> (r: OrderResult)
    ensures
        r.order_id@ == "dry-run"@,
        r.response@ == "ok"@,
{
    OrderResult { order_id: String::from_str("dry-run"), response: String::from_str("ok") }
}

/// `price * (1 + pct)` when `up`, `price * (1 - pct)` otherwise, truncated;
/// `None` when that is not positive.
fn shifted_price(price: u64, pct: i64, up: bool) -> (r: Option<u128>)
    requires
        pct > 0,
    ensures
        ({
            let v = if up {
                price * (SCALE + pct) / (SCALE as int)
            } else {
                price * (SCALE - pct) / (SCALE as int)
            };
            &&& v > 0 ==> r == Some(v as u128) && v <= u128::MAX
            &&& v <= 0 ==> r is None
        }),
{
    let s = SCALE as u128;
    let p = price as u128;
    if up {
        let f = s + pct as u128;
        proof {
            assert(p * f <= u128::MAX) by (nonlinear_arith)
                requires
                    p <= u64::MAX,
                    f <= u64::MAX,
            ;
        }
        let v = p * f / s;
        if v == 0 {
            None
        } else {
            Some(v)
        }
    } else if pct as u128 >= s {
        proof {
            let d = SCALE - pct;
            assert(price * d <= 0) by (nonlinear_arith)
                requires
                    d <= 0,
                    price >= 0,
            ;
            assert(price * d / (SCALE as int) <= 0) by (nonlinear_arith)
                requires
                    price * d <= 0,
            ;
        }
        None
    } else {
        let f = s - pct as u128;
        proof {
            assert(p * f <= u128::MAX) by (nonlinear_arith)
                requires
                    p <= u64::MAX,
                    f <= u64::MAX,
            ;
        }
        let v = p * f / s;
        if v == 0 {
            None
        } else {
            Some(v)
        }
    }
}

fn trigger_price(cache: &InstrumentCache, symbol: &str, p: Option<u128>) -> (r: Option<String>)
    ensures
        match p {
            Some(v) => if trigger_ok(cache.lookup_spec(symbol@), v as int) {
                r matches Some(t) && t@ == price_text(cache.lookup_spec(symbol@), v as nat)
            } else {
                r is None
            },
            None => r is None,
        },
{
    let p = match p {
        Some(v) => v,
        None => {
            return None;
        },
    };
    if p == 0 || p > u64::MAX as u128 {
        return None;
    }
    let meta = cache.lookup(symbol);
    if price_is_zero(meta, p as u64) {
        None
    } else {
        Some(format_price(meta, p as u64))
    }
}

/// Plans a market order of `size` units of `symbol`: the size is floored to
/// the lot and fails when it shows as zero; when both fractions are
/// positive, a bracket is attached if both trigger prices can be sent.
pub fn plan_order(
    cache: &InstrumentCache,
    symbol: &str,
    side: &str,
    pos_side: &str,
    size: u128,
    current_price: u64,
    tp_pct: i64,
    sl_pct: i64,
) -> (r: Result<OrderPlan, OrderError>)
    requires
        size < u128::MAX,
    ensures
        size_text_is_zero(cache.lookup_spec(symbol@), size as nat) <==> r is Err,
        r matches Ok(plan) ==> {
            let meta = cache.lookup_spec(symbol@);
            let (tp, sl) = bracket_prices(
                pos_side@ == "long"@,
                current_price as int,
                tp_pct as int,
                sl_pct as int,
            );
            &&& plan.inst_id@ == symbol@
            &&& plan.side@ == side@
            &&& plan.pos_side@ == pos_side@
            &&& plan.size@ == size_text(meta, size as nat)
            &&& (tp_pct > 0 && sl_pct > 0 && trigger_ok(meta, tp) && trigger_ok(meta, sl))
                <==> plan.bracket is Some
            &&& plan.bracket_skipped <==> (tp_pct > 0 && sl_pct > 0 && !(trigger_ok(meta, tp)
                && trigger_ok(meta, sl)))
            &&& (plan.bracket matches Some(b) ==> b.tp_trigger@ == price_text(meta, tp as nat)
                && b.sl_trigger@ == price_text(meta, sl as nat))
        },
{
    let meta = cache.lookup(symbol);
    if size_is_zero(meta, size) {
        return Err(OrderError::SizeTooSmall);
    }
    let size_text = format_size(meta, size);
    let mut bracket: Option<Bracket> = None;
    let mut skipped = false;
    if tp_pct > 0 && sl_pct > 0 {
        let is_long = String::from_str(pos_side) == String::from_str("long");
        let tp_price = shifted_price(current_price, tp_pct, is_long);
        let sl_price = shifted_price(current_price, sl_pct, !is_long);
        let tp_text = trigger_price(cache, symbol, tp_price);
        let sl_text = trigger_price(cache, symbol, sl_price);
        match (tp_text, sl_text) {
            (Some(t), Some(l)) => {
                bracket = Some(Bracket { tp_trigger: t, sl_trigger: l });
            },
            _ => {
                skipped = true;
            },
        }
    }
    Ok(
        OrderPlan {
            inst_id: String::from_str(symbol),
            side: String::from_str(side),
            pos_side: String::from_str(pos_side),
            size: size_text,
            bracket,
            bracket_skipped: skipped,
        },
    )
}

} // verus!
