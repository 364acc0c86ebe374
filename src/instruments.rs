//! Per-symbol contract facts and the rounding of sizes and prices to them.
use vstd::prelude::*;
use vstd::arithmetic::div_mod::*;
use vstd::arithmetic::mul::*;
use crate::fixed::{
    amount_text, amount_to_text, count_digits, decimal_units, lemma_num_digits_bounds,
    lemma_pow10_monotonic, lemma_scale_is_pow10, num_digits, parse_units, plain_amount_text,
    plain_text, round_units, rounded_to, DECIMALS, SCALE,
};

verus! {

/// Tolerance, in units, added to a quantity before it is floored to a lot.
pub const SIZE_EPSILON: u64 = 1;

/// Contract facts of one instrument, all in units of `1 / SCALE`.
#[derive(Clone, Copy, Debug, PartialEq, Eq, Structural)]
pub struct InstrumentMeta {
    pub face_value: u64,
    pub tick_size: u64,
    pub min_size: u64,
    pub lot_size: u64,
}

/// One instrument as the exchange lists it: the id and the four numeric
/// fields as text, each possibly absent.
pub struct RawInstrument {
    pub inst_id: String,
    pub ct_val: Option<String>,
    pub tick_sz: Option<String>,
    pub min_sz: Option<String>,
    pub lot_sz: Option<String>,
}

pub struct InstrumentEntry {
    pub symbol: String,
    pub meta: InstrumentMeta,
}

/// The instrument metadata cache. Later entries for a symbol take
/// precedence over earlier ones.
pub struct InstrumentCache {
    pub entries: Vec<InstrumentEntry>,
}

/// Units of an optional numeric text: absent or unreadable text counts as 0.
pub open spec fn units_or_zero(t: Option<Seq<char>>) -> nat {
    match t {
        Some(s) => match decimal_units(s) {
            Some(v) => if v <= u64::MAX {
                v
            } else {
                0
            },
            None => 0,
        },
        None => 0,
    }
}

pub open spec fn opt_view(t: Option<String>) -> Option<Seq<char>> {
    match t {
        Some(s) => Some(s@),
        None => None,
    }
}

pub open spec fn raw_meta(r: RawInstrument) -> InstrumentMeta {
    InstrumentMeta {
        face_value: units_or_zero(opt_view(r.ct_val)) as u64,
        tick_size: units_or_zero(opt_view(r.tick_sz)) as u64,
        min_size: units_or_zero(opt_view(r.min_sz)) as u64,
        lot_size: units_or_zero(opt_view(r.lot_sz)) as u64,
    }
}

/// The metadata of `k` among `entries`: the last entry for it wins.
pub open spec fn lookup_in(entries: Seq<InstrumentEntry>, k: Seq<char>) -> Option<InstrumentMeta>
    decreases entries.len(),
{
    if entries.len() == 0 {
        None
    } else if entries.last().symbol@ == k {
        Some(entries.last().meta)
    } else {
        lookup_in(entries.drop_last(), k)
    }
}

/// The metadata that a list of raw instruments gives `k`: entries with an
/// empty id are skipped, and the last entry for `k` wins.
pub open spec fn raw_lookup(raw: Seq<RawInstrument>, k: Seq<char>) -> Option<InstrumentMeta>
    decreases raw.len(),
{
    if raw.len() == 0 {
        None
    } else if raw.last().inst_id@.len() > 0 && raw.last().inst_id@ == k {
        Some(raw_meta(raw.last()))
    } else {
        raw_lookup(raw.drop_last(), k)
    }
}

/// Quantity floored to a whole number of lots, after adding `SIZE_EPSILON`.
pub open spec fn aligned_units(q: nat, lot: nat) -> nat
    recommends
        lot > 0,
{
    ((q + SIZE_EPSILON as nat) / lot) * lot
}

/// Fractional digits shown for a size on a lot of `lot` units:
/// `ceil(|log10(lot)|)` below one whole unit, else none.
pub open spec fn size_decimals(lot: nat) -> nat {
    if lot < SCALE {
        (10 - num_digits(lot)) as nat
    } else {
        0
    }
}

/// Fractional digits shown for a price on a tick of `tick` units: the same
/// rule as for sizes, `ceil(|log10(tick)|)` below one whole unit, else none.
pub open spec fn price_decimals(tick: nat) -> nat {
    size_decimals(tick)
}

/// Fractional digits shown for a price with no tick size known.
pub open spec fn fallback_price_decimals(p: nat) -> nat {
    if p < 10_000_000 {
        6
    } else if p < SCALE {
        4
    } else if p < 10 * SCALE {
        3
    } else {
        2
    }
}

/// Size text for `q` units of an instrument: aligned to its lot and shown
/// with the lot's precision, or shown as is when no lot is known.
pub open spec fn size_text(meta: Option<InstrumentMeta>, q: nat) -> Seq<char> {
    match meta {
        Some(m) => if m.lot_size > 0 {
            amount_text(aligned_units(q, m.lot_size as nat), size_decimals(m.lot_size as nat))
        } else {
            plain_text(q)
        },
        None => plain_text(q),
    }
}

/// Whether the size text for `q` reads as zero.
pub open spec fn size_text_is_zero(meta: Option<InstrumentMeta>, q: nat) -> bool {
    match meta {
        Some(m) => if m.lot_size > 0 {
            rounded_to(
                aligned_units(q, m.lot_size as nat),
                size_decimals(m.lot_size as nat),
            ) == 0
        } else {
            q == 0
        },
        None => q == 0,
    }
}

/// Price text for `p` units of an instrument, with the precision of its tick
/// size, or of the price's own magnitude when no tick size is known.
pub open spec fn price_text(meta: Option<InstrumentMeta>, p: nat) -> Seq<char> {
    match meta {
        Some(m) => if m.tick_size > 0 {
            amount_text(p, price_decimals(m.tick_size as nat))
        } else {
            amount_text(p, fallback_price_decimals(p))
        },
        None => amount_text(p, fallback_price_decimals(p)),
    }
}

/// Whether the price text for `p` reads as zero.
pub open spec fn price_text_is_zero(meta: Option<InstrumentMeta>, p: nat) -> bool {
    match meta {
        Some(m) => if m.tick_size > 0 {
            rounded_to(p, price_decimals(m.tick_size as nat)) == 0
        } else {
            rounded_to(p, fallback_price_decimals(p)) == 0
        },
        None => rounded_to(p, fallback_price_decimals(p)) == 0,
    }
}

/// Rounding a quantity down to a lot gives a whole number of lots, at most
/// the quantity plus the tolerance; rounding the result again changes
/// nothing whenever the lot is larger than the tolerance.
pub proof fn lemma_round_size_down(q: nat, lot: nat)
    requires
        lot > 0,
    ensures
        aligned_units(q, lot) % lot == 0,
        aligned_units(q, lot) <= q + SIZE_EPSILON,
        lot > SIZE_EPSILON ==> aligned_units(aligned_units(q, lot), lot) == aligned_units(q, lot),
{
    let k = (q + 1) / lot;
    lemma_mod_multiples_basic(k as int, lot as int);
    lemma_fundamental_div_mod((q + 1) as int, lot as int);
    lemma_mod_bound((q + 1) as int, lot as int);
    lemma_mul_is_commutative(k as int, lot as int);
    if lot > SIZE_EPSILON {
        lemma_fundamental_div_mod_converse((k * lot + 1) as int, lot as int, k as int, 1);
    }
}

proof fn lemma_digits_below_scale(n: nat)
    requires
        n < SCALE,
    ensures
        1 <= num_digits(n) <= 9,
{
    lemma_num_digits_bounds(n);
    if num_digits(n) > 9 {
        lemma_pow10_monotonic(9, (num_digits(n) - 1) as nat);
        lemma_scale_is_pow10();
    }
}

/// Adds the tolerance and floors `qty` to a whole number of lots.
pub fn align_size_down(qty: u128, lot: u64) -> (r: u128)
    requires
        lot > 0,
        qty < u128::MAX,
    ensures
        r as nat == aligned_units(qty as nat, lot as nat),
        r <= qty + 1,
{
    let steps = (qty + 1) / (lot as u128);
    proof {
        lemma_round_size_down(qty as nat, lot as nat);
        lemma_fundamental_div_mod((qty + 1) as int, lot as int);
        lemma_mod_bound((qty + 1) as int, lot as int);
        lemma_mul_is_commutative(steps as int, lot as int);
    }
    steps * (lot as u128)
}

pub fn size_decimals_of(lot: u64) -> (r: u64)
    ensures
        r as nat == size_decimals(lot as nat),
        r <= DECIMALS,
{
    if lot < SCALE {
        proof {
            lemma_digits_below_scale(lot as nat);
        }
        10 - count_digits(lot as u128)
    } else {
        0
    }
}

pub fn price_decimals_of(tick: u64) -> (r: u64)
    ensures
        r as nat == price_decimals(tick as nat),
        r <= DECIMALS,
{
    size_decimals_of(tick)
}

pub fn fallback_price_decimals_of(p: u64) -> (r: u64)
    ensures
        r as nat == fallback_price_decimals(p as nat),
{
    if p < 10_000_000 {
        6
    } else if p < SCALE {
        4
    } else if p < 10 * SCALE {
        3
    } else {
        2
    }
}

fn units_from_text(t: &Option<String>) -> (r: u64)
    ensures
        r as nat == units_or_zero(opt_view(*t)),
{
    match t {
        Some(s) => match parse_units(s.as_str()) {
            Some(v) => v,
            None => 0,
        },
        None => 0,
    }
}

fn meta_from_raw(r: &RawInstrument) -> (m: InstrumentMeta)
    ensures
        m == raw_meta(*r),
{
    InstrumentMeta {
        face_value: units_from_text(&r.ct_val),
        tick_size: units_from_text(&r.tick_sz),
        min_size: units_from_text(&r.min_sz),
        lot_size: units_from_text(&r.lot_sz),
    }
}

impl InstrumentCache {
    pub open spec fn lookup_spec(&self, k: Seq<char>) -> Option<InstrumentMeta> {
        lookup_in(self.entries@, k)
    }

    /// An empty cache: every lookup misses.
    pub fn new() -> (r: InstrumentCache)
        ensures
            forall|k: Seq<char>| r.lookup_spec(k) == None::<InstrumentMeta>,
    {
        InstrumentCache { entries: Vec::new() }
    }

    /// A cache built from the exchange's instrument list.
    pub fn from_raw(raw: &Vec<RawInstrument>) -> (r: InstrumentCache)
        ensures
            forall|k: Seq<char>| r.lookup_spec(k) == raw_lookup(raw@, k),
    {
        let mut entries: Vec<InstrumentEntry> = Vec::new();
        let mut i: usize = 0;
        while i < raw.len()
            invariant
                i <= raw.len(),
                forall|k: Seq<char>|
                    lookup_in(entries@, k) == raw_lookup(raw@.take(i as int), k),
            decreases raw.len() - i,
        {
            let item = &raw[i];
            proof {
                assert(raw@.take(i + 1).drop_last() =~= raw@.take(i as int));
                assert(raw@.take(i + 1).last() == raw@[i as int]);
            }
            let ghost before = entries@;
            if item.inst_id.as_str().unicode_len() > 0 {
                let meta = meta_from_raw(item);
                let symbol = item.inst_id.clone();
                entries.push(InstrumentEntry { symbol, meta });
                proof {
                    assert(entries@.drop_last() =~= before);
                    assert forall|k: Seq<char>|
                        lookup_in(entries@, k) == raw_lookup(raw@.take(i + 1), k) by {
                        assert(lookup_in(before, k) == raw_lookup(raw@.take(i as int), k));
                    }
                }
            } else {
                proof {
                    assert forall|k: Seq<char>|
                        lookup_in(entries@, k) == raw_lookup(raw@.take(i + 1), k) by {
                        assert(lookup_in(before, k) == raw_lookup(raw@.take(i as int), k));
                    }
                }
            }
            i = i + 1;
        }
        proof {
            assert(raw@.take(raw.len() as int) =~= raw@);
        }
        InstrumentCache { entries }
    }

    /// Replaces the whole cache with one built from the exchange's list.
    pub fn refresh(&mut self, raw: &Vec<RawInstrument>)
        ensures
            forall|k: Seq<char>| final(self).lookup_spec(k) == raw_lookup(raw@, k),
    {
        *self = InstrumentCache::from_raw(raw);
    }

    /// The metadata of `symbol`, if the cache has it.
    pub fn lookup(&self, symbol: &str) -> (r: Option<InstrumentMeta>)
        ensures
            r == self.lookup_spec(symbol@),
    {
        let key = String::from_str(symbol);
        let mut i: usize = self.entries.len();
        proof {
            assert(self.entries@.take(i as int) =~= self.entries@);
        }
        while i > 0
            invariant
                i <= self.entries.len(),
                key@ == symbol@,
                lookup_in(self.entries@, symbol@) == lookup_in(
                    self.entries@.take(i as int),
                    symbol@,
                ),
            decreases i,
        {
            let e = &self.entries[i - 1];
            proof {
                assert(self.entries@.take(i as int).drop_last() =~= self.entries@.take(i - 1));
                assert(self.entries@.take(i as int).last() == self.entries@[i - 1]);
            }
            if e.symbol == key {
                return Some(e.meta);
            }
            i = i - 1;
        }
        None
    }

    /// Face value of one contract of `symbol`; 0 when the symbol is unknown.
    pub fn get_face_value(&self, symbol: &str) -> (r: u64)
        ensures
            r == match self.lookup_spec(symbol@) {
                Some(m) => m.face_value,
                None => 0,
            },
    {
        match self.lookup(symbol) {
            Some(m) => m.face_value,
            None => 0,
        }
    }

    /// Minimum order size of `symbol`; one whole contract when the symbol is
    /// unknown.
    pub fn get_min_size(&self, symbol: &str) -> (r: u64)
        ensures
            r == match self.lookup_spec(symbol@) {
                Some(m) => m.min_size,
                None => SCALE,
            },
    {
        match self.lookup(symbol) {
            Some(m) => m.min_size,
            None => SCALE,
        }
    }

    /// `qty` units of `symbol` floored to its lot and written with the lot's
    /// precision; written as is when the symbol or its lot is unknown.
    pub fn round_size_down(&self, symbol: &str, qty: u128) -> (r: String)
        requires
            qty < u128::MAX,
        ensures
            r@ == size_text(self.lookup_spec(symbol@), qty as nat),
    {
        format_size(self.lookup(symbol), qty)
    }

    /// `price` units of `symbol` written with the precision of its tick size,
    /// or of the price's magnitude when the tick size is unknown.
    pub fn round_price(&self, symbol: &str, price: u64) -> (r: String)
        ensures
            r@ == price_text(self.lookup_spec(symbol@), price as nat),
    {
        format_price(self.lookup(symbol), price)
    }
}

/// Size text of `qty` units for an instrument with metadata `meta`.
pub fn format_size(meta: Option<InstrumentMeta>, qty: u128) -> (r: String)
    requires
        qty < u128::MAX,
    ensures
        r@ == size_text(meta, qty as nat),
{
    match meta {
        Some(m) => {
            if m.lot_size > 0 {
                let aligned = align_size_down(qty, m.lot_size);
                let d = size_decimals_of(m.lot_size);
                amount_to_text(aligned, d)
            } else {
                plain_amount_text(qty)
            }
        },
        None => plain_amount_text(qty),
    }
}

/// Whether the size text of `qty` units reads as zero.
pub fn size_is_zero(meta: Option<InstrumentMeta>, qty: u128) -> (r: bool)
    requires
        qty < u128::MAX,
    ensures
        r == size_text_is_zero(meta, qty as nat),
{
    match meta {
        Some(m) => {
            if m.lot_size > 0 {
                let aligned = align_size_down(qty, m.lot_size);
                let d = size_decimals_of(m.lot_size);
                round_units(aligned, d) == 0
            } else {
                qty == 0
            }
        },
        None => qty == 0,
    }
}

/// Price text of `price` units for an instrument with metadata `meta`.
pub fn format_price(meta: Option<InstrumentMeta>, price: u64) -> (r: String)
    ensures
        r@ == price_text(meta, price as nat),
{
    let d = price_digits(meta, price);
    amount_to_text(price as u128, d)
}

/// Whether the price text of `price` units reads as zero.
pub fn price_is_zero(meta: Option<InstrumentMeta>, price: u64) -> (r: bool)
    ensures
        r == price_text_is_zero(meta, price as nat),
{
    let d = price_digits(meta, price);
    round_units(price as u128, d) == 0
}

fn price_digits(meta: Option<InstrumentMeta>, price: u64) -> (d: u64)
    ensures
        d <= DECIMALS,
        d as nat == match meta {
            Some(m) => if m.tick_size > 0 {
                price_decimals(m.tick_size as nat)
            } else {
                fallback_price_decimals(price as nat)
            },
            None => fallback_price_decimals(price as nat),
        },
{
    match meta {
        Some(m) => {
            if m.tick_size > 0 {
                price_decimals_of(m.tick_size)
            } else {
                fallback_price_decimals_of(price)
            }
        },
        None => fallback_price_decimals_of(price),
    }
}

} // verus!
