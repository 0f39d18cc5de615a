//! What the relay asks its transport and its notifier to do.

use vstd::prelude::*;
use crate::connection::Connection;
use crate::push::{PushRequest, PushRequestView};

verus! {

/// Sent to a connection that claims an identity another connection holds.
pub const USERNAME_TAKEN: &'static str = "The username is taken";

/// Sent to the sender of a one-to-one message whose target is not
/// registered.
pub const NODE_NOT_FOUND: &'static str = "Could not find a node with that name";

/// Sent to the sender of a one-to-one message that names no target.
pub const NO_TARGET: &'static str = "No field 'to' provided";

/// Sent to the sender of a message that selects no valid delivery mode.
pub const INVALID_PROTOCOL: &'static str =
    "Invalid protocol, valid protocols include:\n                            'one-to-one'\n                            'one-to-self'\n                            'one-to-all'";

/// The one thing that leaves the relay in answer to an event.
#[derive(Debug, PartialEq, Eq)]
pub enum Delivery {
    /// Nothing is sent.
    Silent,
    /// `text` goes to every open connection, the sender's among them.
    Broadcast { text: String },
    /// `text` goes to the connection `to`, and to no other.
    Unicast { to: Connection, text: String },
    /// `request` goes to the notifier, once.
    Notify { request: PushRequest },
}

/// The mathematical value of a [`Delivery`].
pub enum DeliveryView {
    Silent,
    Broadcast { text: Seq<char> },
    Unicast { to: Connection, text: Seq<char> },
    Notify { request: PushRequestView },
}

impl View for Delivery {
    type V = DeliveryView;

    open spec fn view(&self) -> DeliveryView {
        match self {
            Delivery::Silent => DeliveryView::Silent,
            Delivery::Broadcast { text } => DeliveryView::Broadcast { text: text@ },
            Delivery::Unicast { to, text } => DeliveryView::Unicast { to: *to, text: text@ },
            Delivery::Notify { request } => DeliveryView::Notify { request: request@ },
        }
    }
}

impl DeliveryView {
    /// The notice `text` for the connection `to`.
    pub open spec fn notice(to: Connection, text: Seq<char>) -> DeliveryView {
        DeliveryView::Unicast { to, text }
    }

    /// Whether the delivery puts `text` on the connection `target`, given
    /// the set of connections that are open.
    pub open spec fn reaches(self, open: Set<Connection>, target: Connection, text: Seq<char>) -> bool {
        match self {
            DeliveryView::Silent => false,
            DeliveryView::Broadcast { text: sent } => open.contains(target) && sent == text,
            DeliveryView::Unicast { to, text: sent } => to == target && sent == text,
            DeliveryView::Notify { .. } => false,
        }
    }

    /// How many times the delivery calls the notifier.
    pub open spec fn notifications(self) -> nat {
        if self is Notify {
            1
        } else {
            0
        }
    }
}

impl Delivery {
    /// The notice `text` for the connection `to`.
    pub fn notice(to: Connection, text: &str) -> (delivery: Delivery)
        ensures
            delivery@ == DeliveryView::notice(to, text@),
    {
        Delivery::Unicast { to, text: text.to_owned() }
    }
}

} // verus!
