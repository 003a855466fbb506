//! Domain events: one per message, describing what the pipeline did with it.

use crate::messages::{Message, MessageView};
use vstd::prelude::*;

verus! {

/// What kind of event a message produced.
#[derive(Clone, Copy, Debug, PartialEq, Eq, Structural)]
pub enum EventKind {
    Verifying,
    AlreadyVerified,
    AlreadyRejected,
    Routing,
    UnfitForRouting,
}

/// An event of the gateway, carrying the message it speaks of.
#[derive(Debug, PartialEq, Eq)]
pub enum GatewayEvent {
    /// The message was handed to the oracle for verification.
    Verifying { msg: Message },
    /// The oracle had already confirmed the message.
    AlreadyVerified { msg: Message },
    /// The oracle had already rejected the message.
    AlreadyRejected { msg: Message },
    /// The message was forwarded for delivery, or stored as outgoing.
    Routing { msg: Message },
    /// The message's status does not permit routing.
    UnfitForRouting { msg: Message },
}

/// The mathematical value of a `GatewayEvent`.
pub enum GatewayEventView {
    Verifying { msg: MessageView },
    AlreadyVerified { msg: MessageView },
    AlreadyRejected { msg: MessageView },
    Routing { msg: MessageView },
    UnfitForRouting { msg: MessageView },
}

impl View for GatewayEvent {
    type V = GatewayEventView;

    open spec fn view(&self) -> GatewayEventView {
        match self {
            GatewayEvent::Verifying { msg } => GatewayEventView::Verifying { msg: msg@ },
            GatewayEvent::AlreadyVerified { msg } => GatewayEventView::AlreadyVerified {
                msg: msg@,
            },
            GatewayEvent::AlreadyRejected { msg } => GatewayEventView::AlreadyRejected {
                msg: msg@,
            },
            GatewayEvent::Routing { msg } => GatewayEventView::Routing { msg: msg@ },
            GatewayEvent::UnfitForRouting { msg } => GatewayEventView::UnfitForRouting {
                msg: msg@,
            },
        }
    }
}

/// The event of the given kind about the given message.
pub open spec fn event_with_kind(kind: EventKind, m: MessageView) -> GatewayEventView {
    match kind {
        EventKind::Verifying => GatewayEventView::Verifying { msg: m },
        EventKind::AlreadyVerified => GatewayEventView::AlreadyVerified { msg: m },
        EventKind::AlreadyRejected => GatewayEventView::AlreadyRejected { msg: m },
        EventKind::Routing => GatewayEventView::Routing { msg: m },
        EventKind::UnfitForRouting => GatewayEventView::UnfitForRouting { msg: m },
    }
}

/// Build the event of the given kind.
pub fn make_event(kind: EventKind, msg: Message) -> (r: GatewayEvent)
    ensures
        r@ == event_with_kind(kind, msg@),
{
    match kind {
        EventKind::Verifying => GatewayEvent::Verifying { msg },
        EventKind::AlreadyVerified => GatewayEvent::AlreadyVerified { msg },
        EventKind::AlreadyRejected => GatewayEvent::AlreadyRejected { msg },
        EventKind::Routing => GatewayEvent::Routing { msg },
        EventKind::UnfitForRouting => GatewayEvent::UnfitForRouting { msg },
    }
}

/// The views of a list of events, in order.
pub open spec fn event_views(s: Seq<GatewayEvent>) -> Seq<GatewayEventView> {
    s.map_values(|e: GatewayEvent| e@)
}

} // verus!
