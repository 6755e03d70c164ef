//! Events of the exchange's websocket feed, as the quoting engine consumes
//! them. The subscriptions themselves — connecting, reconnecting with
//! backoff, decoding frames — are transport and live outside the library;
//! they hand these plain events in over a channel.

use vstd::prelude::*;

use crate::fixed::{Dec, DEC_SCALE};

verus! {

/// Events from the websocket feed relevant to the quoting engine.
#[derive(Clone, Debug)]
pub enum WsEvent {
    /// New midpoint value for a token.
    MidpointUpdate { asset_id: String, midpoint: Dec },
    /// Order book update with best bid and ask.
    BookUpdate { asset_id: String, best_bid: Option<Dec>, best_ask: Option<Dec> },
    /// A fill on one of the bot's orders.
    OrderFill { order_id: String, size: Dec, price: Dec },
    /// Connection lost; the engine falls back to polling.
    Disconnected,
    /// Connection restored.
    Reconnected,
}

impl WsEvent {
    /// Prices carried by an event are in `[0, 1]`; sizes are non-negative
    /// amounts.
    pub open spec fn wf(&self) -> bool {
        match *self {
            WsEvent::MidpointUpdate { midpoint, .. } => 0 <= midpoint@ <= DEC_SCALE as int,
            WsEvent::BookUpdate { best_bid, best_ask, .. } => {
                &&& match best_bid {
                    Some(b) => 0 <= b@ <= DEC_SCALE as int,
                    None => true,
                }
                &&& match best_ask {
                    Some(a) => 0 <= a@ <= DEC_SCALE as int,
                    None => true,
                }
            },
            WsEvent::OrderFill { size, price, .. } => 0 <= size@
                <= crate::fixed::AMOUNT_MAX as int && 0 <= price@ <= DEC_SCALE as int,
            WsEvent::Disconnected => true,
            WsEvent::Reconnected => true,
        }
    }
}

} // verus!
