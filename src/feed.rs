//! The streaming price feed: its connection state machine and the price
//! updates a ticker message carries.
use vstd::prelude::*;
use crate::fixed::{decimal_units, parse_units};
use crate::instruments::opt_view;

verus! {

/// Pause before reconnecting after the stream is lost.
pub const RECONNECT_DELAY_MS: u64 = 5_000;

#[derive(Clone, Copy, Debug, PartialEq, Eq, Structural)]
pub enum FeedState {
    Disconnected,
    Connecting,
    Subscribed,
    Streaming,
}

/// What happened since the last step.
#[derive(Clone, Copy, Debug, PartialEq, Eq, Structural)]
pub enum FeedEvent {
    /// The feed is started, or the reconnect pause is over.
    Start,
    Connected,
    ConnectFailed,
    /// The subscription for every symbol went out in one message.
    SubscribeSent,
    SubscribeFailed,
    /// A message arrived on the stream.
    Message,
    /// A read error, or the stream closed.
    StreamLost,
}

/// What the feed does next.
#[derive(Clone, Copy, Debug, PartialEq, Eq, Structural)]
pub enum FeedAction {
    Connect,
    SendSubscribe,
    ReadNext,
    /// Wait this long, then start again.
    WaitThenStart { delay_ms: u64 },
}

pub open spec fn is_failure(e: FeedEvent) -> bool {
    e == FeedEvent::ConnectFailed || e == FeedEvent::SubscribeFailed || e == FeedEvent::StreamLost
}

/// The next state and action: connect, subscribe, then stream; any failure
/// goes back to disconnected and waits before starting again.
pub open spec fn feed_transition(s: FeedState, e: FeedEvent) -> (FeedState, FeedAction) {
    if is_failure(e) {
        (FeedState::Disconnected, FeedAction::WaitThenStart { delay_ms: RECONNECT_DELAY_MS })
    } else {
        match (s, e) {
            (FeedState::Disconnected, FeedEvent::Start) => (
                FeedState::Connecting,
                FeedAction::Connect,
            ),
            (FeedState::Connecting, FeedEvent::Connected) => (
                FeedState::Subscribed,
                FeedAction::SendSubscribe,
            ),
            (FeedState::Subscribed, FeedEvent::SubscribeSent) => (
                FeedState::Streaming,
                FeedAction::ReadNext,
            ),
            (FeedState::Streaming, FeedEvent::Message) => (
                FeedState::Streaming,
                FeedAction::ReadNext,
            ),
            _ => (
                FeedState::Disconnected,
                FeedAction::WaitThenStart { delay_ms: RECONNECT_DELAY_MS },
            ),
        }
    }
}

/// One step of the feed's connection loop.
pub fn feed_step(s: FeedState, e: FeedEvent) -> (r: (FeedState, FeedAction))
    ensures
        r == feed_transition(s, e),
{
    match (s, e) {
        (_, FeedEvent::ConnectFailed) | (_, FeedEvent::SubscribeFailed) | (
            _,
            FeedEvent::StreamLost,
        ) => (FeedState::Disconnected, FeedAction::WaitThenStart { delay_ms: RECONNECT_DELAY_MS }),
        (FeedState::Disconnected, FeedEvent::Start) => (FeedState::Connecting, FeedAction::Connect),
        (FeedState::Connecting, FeedEvent::Connected) => (
            FeedState::Subscribed,
            FeedAction::SendSubscribe,
        ),
        (FeedState::Subscribed, FeedEvent::SubscribeSent) => (
            FeedState::Streaming,
            FeedAction::ReadNext,
        ),
        (FeedState::Streaming, FeedEvent::Message) => (FeedState::Streaming, FeedAction::ReadNext),
        _ => (FeedState::Disconnected, FeedAction::WaitThenStart { delay_ms: RECONNECT_DELAY_MS }),
    }
}

/// One entry of a ticker message's data: instrument id and last price, as
/// text, each possibly absent.
pub struct TickerItem {
    pub inst_id: Option<String>,
    pub last: Option<String>,
}

/// A new latest price for a symbol, in units.
pub struct PriceUpdate {
    pub symbol: String,
    pub price: u64,
}

pub open spec fn item_price(t: TickerItem) -> Option<nat> {
    match (opt_view(t.inst_id), opt_view(t.last)) {
        (Some(_), Some(l)) => match decimal_units(l) {
            Some(v) => if v <= u64::MAX {
                Some(v)
            } else {
                None
            },
            None => None,
        },
        _ => None,
    }
}

pub open spec fn item_kept(t: TickerItem) -> bool {
    item_price(t) is Some
}

pub open spec fn kept_items(items: Seq<TickerItem>) -> Seq<TickerItem> {
    items.filter(|t: TickerItem| item_kept(t))
}

pub open spec fn update_matches(u: PriceUpdate, t: TickerItem) -> bool {
    &&& opt_view(t.inst_id) == Some(u.symbol@)
    &&& item_price(t) == Some(u.price as nat)
}

/// The price updates a ticker message carries, in order: items without an
/// instrument id or a readable last price are ignored.
pub fn ticker_updates(items: &Vec<TickerItem>) -> (r: Vec<PriceUpdate>)
    ensures
        r@.len() == kept_items(items@).len(),
        forall|j: int| 0 <= j < r@.len() ==> update_matches(#[trigger] r@[j], kept_items(items@)[j]),
{
    let mut out: Vec<PriceUpdate> = Vec::new();
    let mut i: usize = 0;
    while i < items.len()
        invariant
            i <= items.len(),
            out@.len() == kept_items(items@.take(i as int)).len(),
            forall|j: int|
                0 <= j < out@.len() ==> update_matches(
                    #[trigger] out@[j],
                    kept_items(items@.take(i as int))[j],
                ),
        decreases items.len() - i,
    {
        let item = &items[i];
        proof {
            assert(items@.take(i + 1) =~= items@.take(i as int).push(items@[i as int]));
            items@.take(i as int).lemma_filter_push(items@[i as int], |t: TickerItem| item_kept(t));
        }
        match (&item.inst_id, &item.last) {
            (Some(id), Some(last)) => {
                match parse_units(last.as_str()) {
                    Some(p) => {
                        out.push(PriceUpdate { symbol: id.clone(), price: p });
                    },
                    None => {},
                }
            },
            _ => {},
        }
        i = i + 1;
    }
    proof {
        assert(items@.take(items.len() as int) =~= items@);
    }
    out
}

} // verus!
