//! The handlers of one connection: what the relay does when the connection
//! opens, when a message arrives on it, and when it closes.
//!
//! Each handler is given the registry and the node of the connection, and
//! returns the one [`Delivery`] that the event calls for.

use vstd::prelude::*;
use crate::delivery::{
    Delivery, DeliveryView, INVALID_PROTOCOL, NODE_NOT_FOUND, NO_TARGET, USERNAME_TAKEN,
};
use crate::envelope::{first_of, Envelope, EnvelopeView};
use crate::handshake::{claimed_identity, claimed_user};
use crate::network::{claim_outcome, Network, NetworkView, RegisterError};
use crate::node::{Node, NodeView};
use crate::text::{holds, text_of};

verus! {

/// Delivery to every open connection.
pub const ONE_TO_ALL: &'static str = "one-to-all";

/// Delivery back to the sender.
pub const ONE_TO_SELF: &'static str = "one-to-self";

/// Delivery to the one connection that holds the identity named.
pub const ONE_TO_ONE: &'static str = "one-to-one";

/// Stores the sender's offline-notification descriptor.
pub const SUBSCRIBE_PUSH: &'static str = "subscribe-push";

/// Asks for an offline notification to the identity named.
pub const CONNECTION_REQUEST: &'static str = "connection-request";

/// The state an event leaves behind, and what it sends.
pub struct Outcome {
    pub network: NetworkView,
    pub node: NodeView,
    pub delivery: DeliveryView,
}

/// What an opening handshake with the resource `resource` does.
///
/// A claim of a free identity registers the connection under it. A claim of
/// an identity that is taken changes nothing and is answered with a notice.
/// Without a claim the connection stays as it is.
pub open spec fn open_outcome(network: NetworkView, node: NodeView, resource: Seq<char>) -> Outcome {
    match claimed_identity(resource) {
        Some(owner) => match claim_outcome(network, node, owner) {
            Ok(_) => Outcome {
                network: network.register(owner, node.sender),
                node: node.identified(owner),
                delivery: DeliveryView::Silent,
            },
            Err(RegisterError::IdentityTaken) => Outcome {
                network,
                node,
                delivery: DeliveryView::notice(node.sender, USERNAME_TAKEN@),
            },
            Err(RegisterError::AlreadyIdentified) => Outcome {
                network,
                node,
                delivery: DeliveryView::Silent,
            },
        },
        None => Outcome { network, node, delivery: DeliveryView::Silent },
    }
}

/// The registry after the connection of `node` has closed.
pub open spec fn close_outcome(network: NetworkView, node: NodeView) -> NetworkView {
    match node.owner {
        Some(owner) => network.unregister(owner),
        None => network,
    }
}

/// What the offline-notification request in `envelope` does, and nothing
/// where the envelope holds no such request.
///
/// `subscribe-push` stores the descriptor for the sender's identity. It
/// does nothing where the sender holds no identity or the envelope carries
/// no descriptor. `connection-request` calls for one notification to the
/// identity named, where a descriptor is stored for it. It does nothing
/// where none is stored, where the sender holds no identity, or where the
/// envelope names no target. Neither sends anything to a connection.
pub open spec fn push_outcome(network: NetworkView, node: NodeView, envelope: EnvelopeView) -> Option<
    Outcome,
> {
    if envelope.action == Some(SUBSCRIBE_PUSH@) {
        match (envelope.blob(), node.owner) {
            (Some(blob), Some(owner)) => Some(
                Outcome {
                    network: network.store_subscription(owner, blob),
                    node: node.subscribed(blob),
                    delivery: DeliveryView::Silent,
                },
            ),
            _ => Some(Outcome { network, node, delivery: DeliveryView::Silent }),
        }
    } else if envelope.action == Some(CONNECTION_REQUEST@) {
        match (envelope.callee(), node.owner) {
            (Some(callee), Some(owner)) => match network.push_for(owner, callee) {
                Some(request) => Some(
                    Outcome { network, node, delivery: DeliveryView::Notify { request } },
                ),
                None => Some(Outcome { network, node, delivery: DeliveryView::Silent }),
            },
            _ => Some(Outcome { network, node, delivery: DeliveryView::Silent }),
        }
    } else {
        None
    }
}

/// Where the message `text` goes by the delivery mode in `envelope`.
pub open spec fn route(
    network: NetworkView,
    node: NodeView,
    envelope: EnvelopeView,
    text: Seq<char>,
) -> DeliveryView {
    if envelope.protocol == Some(ONE_TO_ALL@) {
        DeliveryView::Broadcast { text }
    } else if envelope.protocol == Some(ONE_TO_SELF@) {
        DeliveryView::Unicast { to: node.sender, text }
    } else if envelope.protocol == Some(ONE_TO_ONE@) {
        match envelope.target() {
            Some(owner) => match network.resolve(owner) {
                Some(to) => DeliveryView::Unicast { to, text },
                None => DeliveryView::notice(node.sender, NODE_NOT_FOUND@),
            },
            None => DeliveryView::notice(node.sender, NO_TARGET@),
        }
    } else {
        DeliveryView::notice(node.sender, INVALID_PROTOCOL@)
    }
}

/// What a message with the envelope `envelope` and the text `text` does:
/// the offline-notification request where it holds one, and the delivery by
/// mode where it does not.
pub open spec fn envelope_outcome(
    network: NetworkView,
    node: NodeView,
    envelope: EnvelopeView,
    text: Seq<char>,
) -> Outcome {
    match push_outcome(network, node, envelope) {
        Some(outcome) => outcome,
        None => Outcome { network, node, delivery: route(network, node, envelope, text) },
    }
}

/// What the message `text` does.
pub open spec fn message_outcome(network: NetworkView, node: NodeView, text: Seq<char>) -> Outcome {
    envelope_outcome(network, node, EnvelopeView::of_text(text), text)
}

/// What an optional delivery holds.
pub open spec fn delivery_of(handled: Option<Delivery>) -> Option<DeliveryView> {
    match handled {
        Some(delivery) => Some(delivery@),
        None => None,
    }
}

/// The first of two optional fields that is present.
fn first_present<'a>(a: &'a Option<String>, b: &'a Option<String>) -> (chosen: &'a Option<String>)
    ensures
        text_of(*chosen) == first_of(text_of(*a), text_of(*b)),
{
    if a.is_some() {
        a
    } else {
        b
    }
}

/// Handles the opening of the connection of `node`, whose handshake asked
/// for `resource`.
pub fn on_open(network: &mut Network, node: &mut Node, resource: &str) -> (delivery: Delivery)
    ensures
        final(network)@ == open_outcome(old(network)@, old(node)@, resource@).network,
        final(node)@ == open_outcome(old(network)@, old(node)@, resource@).node,
        delivery@ == open_outcome(old(network)@, old(node)@, resource@).delivery,
{
    match claimed_user(resource) {
        Some(owner) => match network.add_user(owner.as_str(), node) {
            Ok(_) => Delivery::Silent,
            Err(RegisterError::IdentityTaken) => Delivery::notice(node.sender, USERNAME_TAKEN),
            Err(RegisterError::AlreadyIdentified) => Delivery::Silent,
        },
        None => Delivery::Silent,
    }
}

/// Handles the offline-notification request in `envelope`, if it holds one.
pub fn handle_push_requests(network: &mut Network, node: &mut Node, envelope: &Envelope) -> (handled:
    Option<Delivery>)
    ensures
        match push_outcome(old(network)@, old(node)@, envelope@) {
            Some(outcome) => {
                &&& delivery_of(handled) == Some(outcome.delivery)
                &&& final(network)@ == outcome.network
                &&& final(node)@ == outcome.node
            },
            None => {
                &&& handled.is_none()
                &&& final(network)@ == old(network)@
                &&& final(node)@ == old(node)@
            },
        },
{
    if holds(&envelope.action, SUBSCRIBE_PUSH) {
        match first_present(&envelope.data, &envelope.subscription_data) {
            Some(blob) => {
                network.add_subscription(blob.as_str(), node);
            },
            None => {},
        }
        Some(Delivery::Silent)
    } else if holds(&envelope.action, CONNECTION_REQUEST) {
        match (first_present(&envelope.connect_to, &envelope.endpoint), &node.owner) {
            (Some(callee), Some(owner)) => match network.send_push(
                owner.as_str(),
                callee.as_str(),
            ) {
                Some(request) => Some(Delivery::Notify { request }),
                None => Some(Delivery::Silent),
            },
            _ => Some(Delivery::Silent),
        }
    } else {
        None
    }
}

/// Decides where the message `text` goes by the delivery mode in
/// `envelope`.
pub fn dispatch(network: &Network, node: &Node, envelope: &Envelope, text: &str) -> (delivery:
    Delivery)
    ensures
        delivery@ == route(network@, node@, envelope@, text@),
{
    if holds(&envelope.protocol, ONE_TO_ALL) {
        Delivery::Broadcast { text: text.to_owned() }
    } else if holds(&envelope.protocol, ONE_TO_SELF) {
        Delivery::Unicast { to: node.sender, text: text.to_owned() }
    } else if holds(&envelope.protocol, ONE_TO_ONE) {
        match first_present(&envelope.to, &envelope.endpoint) {
            Some(owner) => match network.resolve(owner.as_str()) {
                Some(to) => Delivery::Unicast { to, text: text.to_owned() },
                None => Delivery::notice(node.sender, NODE_NOT_FOUND),
            },
            None => Delivery::notice(node.sender, NO_TARGET),
        }
    } else {
        Delivery::notice(node.sender, INVALID_PROTOCOL)
    }
}

/// Handles a message whose envelope has been read already.
pub fn handle_envelope(
    network: &mut Network,
    node: &mut Node,
    envelope: &Envelope,
    text: &str,
) -> (delivery: Delivery)
    ensures
        final(network)@ == envelope_outcome(old(network)@, old(node)@, envelope@, text@).network,
        final(node)@ == envelope_outcome(old(network)@, old(node)@, envelope@, text@).node,
        delivery@ == envelope_outcome(old(network)@, old(node)@, envelope@, text@).delivery,
{
    match handle_push_requests(network, node, envelope) {
        Some(delivery) => delivery,
        None => dispatch(network, node, envelope, text),
    }
}

/// Handles the message `text` that arrived on the connection of `node`.
///
/// A text that is no JSON is handled as a message without fields: the
/// sender is told which delivery modes there are.
pub fn on_message(network: &mut Network, node: &mut Node, text: &str) -> (delivery: Delivery)
    ensures
        final(network)@ == message_outcome(old(network)@, old(node)@, text@).network,
        final(node)@ == message_outcome(old(network)@, old(node)@, text@).node,
        delivery@ == message_outcome(old(network)@, old(node)@, text@).delivery,
{
    let envelope = Envelope::parse(text);
    handle_envelope(network, node, &envelope, text)
}

/// Handles the closing of the connection of `node`: the identity that the
/// node holds, if any, is free again.
pub fn on_close(network: &mut Network, node: &Node)
    ensures
        final(network)@ == close_outcome(old(network)@, node@),
{
    match &node.owner {
        Some(owner) => {
            network.remove(owner.as_str());
        },
        None => {},
    }
}

} // verus!
