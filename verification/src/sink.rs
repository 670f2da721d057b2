//! Delivery of push events to an embedding runtime's callbacks.
//!
//! A runtime registers at most one handler per event kind. Delivery is
//! best effort: an event whose kind has no registered handler is dropped,
//! and one event is delivered to exactly one handler. The calls into the
//! runtime happen outside; which handler an event goes to, and whether it
//! goes at all, is decided here.
use vstd::prelude::*;

use crate::types::PushEventDetail;

verus! {

/// The callback an event kind belongs to.
#[derive(Clone, Copy, Debug, PartialEq, Eq, Structural)]
pub enum CallbackKind {
    /// The quote handler
    Quote,
    /// The order-book handler
    Depth,
    /// The broker-queue handler
    Brokers,
    /// The trade handler
    Trades,
    /// The candlestick handler
    Candlestick,
    /// The order-change handler
    OrderChanged,
}

/// Which callbacks the embedding runtime has registered.
#[derive(Clone, Copy, Debug, PartialEq, Eq, Structural)]
pub struct HandlerSet {
    /// A quote handler is registered.
    pub quote: bool,
    /// An order-book handler is registered.
    pub depth: bool,
    /// A broker-queue handler is registered.
    pub brokers: bool,
    /// A trade handler is registered.
    pub trades: bool,
    /// A candlestick handler is registered.
    pub candlestick: bool,
    /// An order-change handler is registered.
    pub order_changed: bool,
}

/// The callback each event detail belongs to.
pub open spec fn spec_callback_kind(detail: &PushEventDetail) -> CallbackKind {
    match detail {
        PushEventDetail::Quote(_) => CallbackKind::Quote,
        PushEventDetail::Depth(_) => CallbackKind::Depth,
        PushEventDetail::Brokers(_) => CallbackKind::Brokers,
        PushEventDetail::Trade(_) => CallbackKind::Trades,
        PushEventDetail::Candlestick(_) => CallbackKind::Candlestick,
        PushEventDetail::OrderChanged(_) => CallbackKind::OrderChanged,
    }
}

/// True when the set holds a handler for the kind.
pub open spec fn spec_registered(handlers: HandlerSet, kind: CallbackKind) -> bool {
    match kind {
        CallbackKind::Quote => handlers.quote,
        CallbackKind::Depth => handlers.depth,
        CallbackKind::Brokers => handlers.brokers,
        CallbackKind::Trades => handlers.trades,
        CallbackKind::Candlestick => handlers.candlestick,
        CallbackKind::OrderChanged => handlers.order_changed,
    }
}

impl HandlerSet {
    /// A set with no handler registered.
    pub fn new() -> (r: HandlerSet)
        ensures
            forall|kind: CallbackKind| !spec_registered(r, kind),
    {
        HandlerSet {
            quote: false,
            depth: false,
            brokers: false,
            trades: false,
            candlestick: false,
            order_changed: false,
        }
    }
}

/// The handler an event goes to: the one registered for the event's
/// kind, or none — the event is then dropped, not queued.
pub fn dispatch_push_event(handlers: &HandlerSet, detail: &PushEventDetail) -> (r: Option<
    CallbackKind,
>)
    ensures
        r == if spec_registered(*handlers, spec_callback_kind(detail)) {
            Some(spec_callback_kind(detail))
        } else {
            None::<CallbackKind>
        },
{
    let kind = match detail {
        PushEventDetail::Quote(_) => CallbackKind::Quote,
        PushEventDetail::Depth(_) => CallbackKind::Depth,
        PushEventDetail::Brokers(_) => CallbackKind::Brokers,
        PushEventDetail::Trade(_) => CallbackKind::Trades,
        PushEventDetail::Candlestick(_) => CallbackKind::Candlestick,
        PushEventDetail::OrderChanged(_) => CallbackKind::OrderChanged,
    };
    let registered = match kind {
        CallbackKind::Quote => handlers.quote,
        CallbackKind::Depth => handlers.depth,
        CallbackKind::Brokers => handlers.brokers,
        CallbackKind::Trades => handlers.trades,
        CallbackKind::Candlestick => handlers.candlestick,
        CallbackKind::OrderChanged => handlers.order_changed,
    };
    if registered {
        Some(kind)
    } else {
        None
    }
}

} // verus!
