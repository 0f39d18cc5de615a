//! The relay as a whole: every open connection with its node, and the
//! registry they share.
//!
//! Nothing here runs. The handlers of one connection see the registry and
//! one node; what holds of all connections together is stated and proved
//! here, over the same outcomes that the handlers are held to.

use vstd::prelude::*;
use vstd::set_lib::lemma_map_size;
use crate::connection::Connection;
use crate::delivery::{DeliveryView, INVALID_PROTOCOL, NODE_NOT_FOUND, USERNAME_TAKEN};
use crate::envelope::{parsed_members, EnvelopeView};
use crate::handshake::claimed_identity;
use crate::network::{claim_outcome, NetworkView};
use crate::node::NodeView;
use crate::push::{connection_request_payload, PushRequestView};
use crate::server::{
    close_outcome, envelope_outcome, message_outcome, open_outcome, push_outcome, Outcome,
    CONNECTION_REQUEST, ONE_TO_ALL, ONE_TO_ONE, ONE_TO_SELF, SUBSCRIBE_PUSH,
};

verus! {

/// The state of the relay: the registry, and the node of every connection
/// that is open.
pub struct Relay {
    pub network: NetworkView,
    pub nodes: Map<Connection, NodeView>,
}

/// What can happen to the relay.
pub enum Event {
    /// A connection opens; its handshake asked for `resource`.
    Open { sender: Connection, resource: Seq<char> },
    /// An open connection claims the identity `owner`.
    Claim { sender: Connection, owner: Seq<char> },
    /// The message `text` arrives on a connection.
    Message { sender: Connection, text: Seq<char> },
    /// A connection closes.
    Close { sender: Connection },
}

impl Event {
    /// The connection the event happens on.
    pub open spec fn sender(self) -> Connection {
        match self {
            Event::Open { sender, .. } => sender,
            Event::Claim { sender, .. } => sender,
            Event::Message { sender, .. } => sender,
            Event::Close { sender } => sender,
        }
    }
}

/// What a claim of `owner` by the connection of `node` does: where the
/// registry grants it, the connection is registered and the node holds the
/// identity; where it does not, nothing changes.
pub open spec fn claim_step(network: NetworkView, node: NodeView, owner: Seq<char>) -> Outcome {
    if claim_outcome(network, node, owner).is_ok() {
        Outcome {
            network: network.register(owner, node.sender),
            node: node.identified(owner),
            delivery: DeliveryView::Silent,
        }
    } else {
        Outcome { network, node, delivery: DeliveryView::Silent }
    }
}

impl Relay {
    /// A relay on which no connection has opened yet.
    pub open spec fn started(self) -> bool {
        &&& self.nodes == Map::<Connection, NodeView>::empty()
        &&& self.network.nodes == Map::<Seq<char>, Connection>::empty()
        &&& self.network.valid()
    }

    /// The connection `sender` is open and holds the identity `owner`.
    pub open spec fn holds(self, sender: Connection, owner: Seq<char>) -> bool {
        self.nodes.contains_key(sender) && self.nodes[sender].owner == Some(owner)
    }

    /// The open connections that hold an identity.
    pub open spec fn identified(self) -> Set<Connection> {
        Set::new(|sender: Connection| self.nodes.contains_key(sender) && self.nodes[sender].owner.is_some())
    }

    /// The registry and the nodes agree: a connection is registered under an
    /// identity exactly when it is open and its node holds that identity.
    pub open spec fn consistent(self) -> bool {
        &&& self.network.valid()
        &&& self.nodes.dom().finite()
        &&& forall|sender: Connection| #[trigger]
            self.nodes.contains_key(sender) ==> self.nodes[sender].sender == sender
        &&& forall|owner: Seq<char>| #[trigger]
            self.network.nodes.contains_key(owner) ==> self.holds(self.network.nodes[owner], owner)
        &&& forall|sender: Connection, owner: Seq<char>| #[trigger]
            self.holds(sender, owner) ==> self.network.resolve(owner) == Some(sender)
    }

    /// Whether `event` can happen now: a connection opens only while it is
    /// not open, and it claims, receives messages and closes only while it
    /// is.
    pub open spec fn admits(self, event: Event) -> bool {
        match event {
            Event::Open { sender, .. } => !self.nodes.contains_key(sender),
            Event::Claim { sender, .. } => self.nodes.contains_key(sender),
            Event::Message { sender, .. } => self.nodes.contains_key(sender),
            Event::Close { sender } => self.nodes.contains_key(sender),
        }
    }

    /// What the handler of the event's connection makes of `event`.
    pub open spec fn outcome(self, event: Event) -> Outcome {
        match event {
            Event::Open { sender, resource } => open_outcome(
                self.network,
                NodeView::fresh(sender),
                resource,
            ),
            Event::Claim { sender, owner } => claim_step(self.network, self.nodes[sender], owner),
            Event::Message { sender, text } => message_outcome(
                self.network,
                self.nodes[sender],
                text,
            ),
            Event::Close { sender } => Outcome {
                network: close_outcome(self.network, self.nodes[sender]),
                node: self.nodes[sender],
                delivery: DeliveryView::Silent,
            },
        }
    }

    /// The relay after `event`.
    pub open spec fn step(self, event: Event) -> Relay {
        let outcome = self.outcome(event);
        match event {
            Event::Close { sender } => Relay {
                network: outcome.network,
                nodes: self.nodes.remove(sender),
            },
            _ => Relay {
                network: outcome.network,
                nodes: self.nodes.insert(event.sender(), outcome.node),
            },
        }
    }

    /// Whether the events can happen one after the other, starting now.
    pub open spec fn admits_all(self, events: Seq<Event>) -> bool
        decreases events.len(),
    {
        events.len() == 0 || (self.admits(events[0]) && self.step(events[0]).admits_all(
            events.drop_first(),
        ))
    }

    /// The relay after all of `events`.
    pub open spec fn after(self, events: Seq<Event>) -> Relay
        decreases events.len(),
    {
        if events.len() == 0 {
            self
        } else {
            self.step(events[0]).after(events.drop_first())
        }
    }
}

/// The words that select a delivery mode differ from one another, and so do
/// the two that select an offline-notification request.
pub proof fn lemma_words_differ()
    ensures
        ONE_TO_ALL@ != ONE_TO_SELF@,
        ONE_TO_ALL@ != ONE_TO_ONE@,
        ONE_TO_SELF@ != ONE_TO_ONE@,
        SUBSCRIBE_PUSH@ != CONNECTION_REQUEST@,
{
    reveal_strlit("one-to-all");
    reveal_strlit("one-to-self");
    reveal_strlit("one-to-one");
    reveal_strlit("subscribe-push");
    reveal_strlit("connection-request");
    assert(ONE_TO_ALL@[7] == 'a');
    assert(ONE_TO_ONE@[7] == 'o');
    assert(ONE_TO_SELF@.len() == 11);
    assert(ONE_TO_ALL@.len() == 10);
    assert(ONE_TO_ONE@.len() == 10);
    assert(SUBSCRIBE_PUSH@.len() == 14);
    assert(CONNECTION_REQUEST@.len() == 18);
}

/// A message changes neither who is registered nor the identity or the
/// connection of the node it arrived on.
pub proof fn lemma_message_keeps_identities(network: NetworkView, node: NodeView, text: Seq<char>)
    ensures
        message_outcome(network, node, text).network.nodes == network.nodes,
        message_outcome(network, node, text).network.vapid_path == network.vapid_path,
        message_outcome(network, node, text).node.owner == node.owner,
        message_outcome(network, node, text).node.sender == node.sender,
        network.valid() ==> message_outcome(network, node, text).network.valid(),
{
}

/// An event that can happen leaves a consistent relay consistent.
pub proof fn lemma_step_consistent(relay: Relay, event: Event)
    requires
        relay.consistent(),
        relay.admits(event),
    ensures
        relay.step(event).consistent(),
{
    let next = relay.step(event);
    match event {
        Event::Open { sender, resource } => {
            let fresh = NodeView::fresh(sender);
            assert forall|other: Connection| #[trigger]
                next.nodes.contains_key(other) implies next.nodes[other].sender == other by {
                if other != sender {
                    assert(relay.nodes.contains_key(other));
                }
            }
            assert forall|owner: Seq<char>| #[trigger]
                next.network.nodes.contains_key(owner) implies next.holds(
                next.network.nodes[owner],
                owner,
            ) by {
                if relay.network.nodes.contains_key(owner) {
                    assert(relay.holds(relay.network.nodes[owner], owner));
                }
            }
            assert forall|other: Connection, owner: Seq<char>| #[trigger]
                next.holds(other, owner) implies next.network.resolve(owner) == Some(other) by {
                if other != sender {
                    assert(relay.holds(other, owner));
                }
            }
        },
        Event::Claim { sender, owner: claimed } => {
            let node = relay.nodes[sender];
            assert forall|other: Connection| #[trigger]
                next.nodes.contains_key(other) implies next.nodes[other].sender == other by {
                assert(relay.nodes.contains_key(other));
            }
            assert forall|owner: Seq<char>| #[trigger]
                next.network.nodes.contains_key(owner) implies next.holds(
                next.network.nodes[owner],
                owner,
            ) by {
                if relay.network.nodes.contains_key(owner) {
                    assert(relay.holds(relay.network.nodes[owner], owner));
                }
            }
            assert forall|other: Connection, owner: Seq<char>| #[trigger]
                next.holds(other, owner) implies next.network.resolve(owner) == Some(other) by {
                if other != sender {
                    assert(relay.holds(other, owner));
                } else if node.owner.is_some() {
                    assert(relay.holds(sender, owner));
                }
            }
        },
        Event::Message { sender, text } => {
            lemma_message_keeps_identities(relay.network, relay.nodes[sender], text);
            assert forall|other: Connection| #[trigger]
                next.nodes.contains_key(other) implies next.nodes[other].sender == other by {
                assert(relay.nodes.contains_key(other));
            }
            assert forall|owner: Seq<char>| #[trigger]
                next.network.nodes.contains_key(owner) implies next.holds(
                next.network.nodes[owner],
                owner,
            ) by {
                assert(relay.network.nodes.contains_key(owner));
                assert(relay.holds(relay.network.nodes[owner], owner));
            }
            assert forall|other: Connection, owner: Seq<char>| #[trigger]
                next.holds(other, owner) implies next.network.resolve(owner) == Some(other) by {
                assert(relay.holds(other, owner));
            }
        },
        Event::Close { sender } => {
            let node = relay.nodes[sender];
            assert forall|other: Connection| #[trigger]
                next.nodes.contains_key(other) implies next.nodes[other].sender == other by {
                assert(relay.nodes.contains_key(other));
            }
            assert forall|owner: Seq<char>| #[trigger]
                next.network.nodes.contains_key(owner) implies next.holds(
                next.network.nodes[owner],
                owner,
            ) by {
                assert(relay.network.nodes.contains_key(owner));
                assert(relay.holds(relay.network.nodes[owner], owner));
            }
            assert forall|other: Connection, owner: Seq<char>| #[trigger]
                next.holds(other, owner) implies next.network.resolve(owner) == Some(other) by {
                assert(relay.holds(other, owner));
                if node.owner == Some(owner) {
                    assert(relay.holds(sender, owner));
                }
            }
        },
    }
}

/// Whatever happens to a relay that was consistent, it stays consistent.
pub proof fn lemma_consistent_after(relay: Relay, events: Seq<Event>)
    requires
        relay.consistent(),
        relay.admits_all(events),
    ensures
        relay.after(events).consistent(),
    decreases events.len(),
{
    if events.len() > 0 {
        lemma_step_consistent(relay, events[0]);
        lemma_consistent_after(relay.step(events[0]), events.drop_first());
    }
}

/// In a consistent relay at most one open connection holds a given
/// identity.
pub proof fn lemma_one_holder(relay: Relay, a: Connection, b: Connection, owner: Seq<char>)
    requires
        relay.consistent(),
        relay.holds(a, owner),
        relay.holds(b, owner),
    ensures
        a == b,
{
}

/// In a consistent relay the registry has as many entries as there are open
/// connections that hold an identity.
pub proof fn lemma_size_counts_identified(relay: Relay)
    requires
        relay.consistent(),
    ensures
        relay.identified().finite(),
        relay.network.size() == relay.identified().len(),
{
    let names = relay.network.nodes.dom();
    let holder = |owner: Seq<char>| relay.network.nodes[owner];
    assert(names.map(holder) =~= relay.identified()) by {
        assert forall|sender: Connection| relay.identified().contains(sender) implies names.map(
            holder,
        ).contains(sender) by {
            let owner = relay.nodes[sender].owner.unwrap();
            assert(relay.holds(sender, owner));
            assert(names.contains(owner) && holder(owner) == sender);
        }
        assert forall|sender: Connection| names.map(holder).contains(sender) implies relay.identified().contains(
            sender,
        ) by {
            let owner = choose|owner: Seq<char>| names.contains(owner) && holder(owner) == sender;
            assert(relay.network.nodes.contains_key(owner));
        }
    }
    assert(vstd::relations::injective_on(holder, names)) by {
        assert forall|x: Seq<char>, y: Seq<char>|
            names.contains(x) && names.contains(y) && #[trigger] holder(x) == #[trigger] holder(
                y,
            ) implies x == y by {
            assert(relay.network.nodes.contains_key(x));
            assert(relay.network.nodes.contains_key(y));
        }
    }
    lemma_map_size(names, relay.identified(), holder);
}

/// From the start of the relay on, whatever opens, arrives and closes: no
/// identity is held by two open connections, and the size of the registry
/// is the number of open connections that hold an identity.
pub proof fn lemma_registry_tracks_connections(relay: Relay, events: Seq<Event>)
    requires
        relay.started(),
        relay.admits_all(events),
    ensures
        relay.after(events).consistent(),
        relay.after(events).network.size() == relay.after(events).identified().len(),
        forall|a: Connection, b: Connection, owner: Seq<char>|
            #![trigger relay.after(events).holds(a, owner), relay.after(events).holds(b, owner)]
            relay.after(events).holds(a, owner) && relay.after(events).holds(b, owner) ==> a == b,
{
    assert(relay.consistent());
    lemma_consistent_after(relay, events);
    lemma_size_counts_identified(relay.after(events));
}

/// A claim of an identity that is registered changes nothing: the registry
/// keeps its entries, the claimant stays as it was, and the claimant alone
/// is told.
pub proof fn lemma_duplicate_claim(
    network: NetworkView,
    node: NodeView,
    resource: Seq<char>,
    owner: Seq<char>,
)
    requires
        claimed_identity(resource) == Some(owner),
        network.nodes.contains_key(owner),
    ensures
        open_outcome(network, node, resource).network == network,
        open_outcome(network, node, resource).network.size() == network.size(),
        open_outcome(network, node, resource).node == node,
        open_outcome(network, node, resource).delivery == DeliveryView::notice(
            node.sender,
            USERNAME_TAKEN@,
        ),
{
}

/// The identity that `resource` claims, where it claims one that is not
/// registered.
pub open spec fn free_claim(network: NetworkView, resource: Seq<char>) -> Option<Seq<char>> {
    match claimed_identity(resource) {
        Some(owner) => if network.nodes.contains_key(owner) {
            None
        } else {
            Some(owner)
        },
        None => None,
    }
}

/// The handshake of a connection that holds no identity makes the registry
/// larger by one exactly when it claims an identity that is free, and the
/// connection then holds that identity. Every other handshake leaves the
/// size of the registry and the connection as they were.
pub proof fn lemma_open_grows_registry(network: NetworkView, node: NodeView, resource: Seq<char>)
    requires
        network.valid(),
        node.owner.is_none(),
    ensures
        free_claim(network, resource) matches Some(owner) ==> {
            &&& open_outcome(network, node, resource).network.size() == network.size() + 1
            &&& open_outcome(network, node, resource).network.resolve(owner) == Some(node.sender)
            &&& open_outcome(network, node, resource).node.owner == Some(owner)
        },
        free_claim(network, resource).is_none() ==> {
            &&& open_outcome(network, node, resource).network.size() == network.size()
            &&& open_outcome(network, node, resource).network.nodes == network.nodes
            &&& open_outcome(network, node, resource).node == node
        },
{
}

/// A one-to-one message to a registered identity reaches the connection
/// registered under it, with the text as it was sent, and no other
/// connection.
pub proof fn lemma_one_to_one(
    network: NetworkView,
    node: NodeView,
    envelope: EnvelopeView,
    text: Seq<char>,
    owner: Seq<char>,
)
    requires
        push_outcome(network, node, envelope).is_none(),
        envelope.protocol == Some(ONE_TO_ONE@),
        envelope.target() == Some(owner),
        network.nodes.contains_key(owner),
    ensures
        envelope_outcome(network, node, envelope, text) == (Outcome {
            network,
            node,
            delivery: DeliveryView::Unicast { to: network.nodes[owner], text },
        }),
        forall|open: Set<Connection>, other: Connection, sent: Seq<char>|
            #[trigger] envelope_outcome(network, node, envelope, text).delivery.reaches(
                open,
                other,
                sent,
            ) <==> other == network.nodes[owner] && sent == text,
{
    lemma_words_differ();
}

/// A one-to-one message to an identity that is not registered reaches
/// nobody: the sender alone is told that the target was not found.
pub proof fn lemma_unknown_target(
    network: NetworkView,
    node: NodeView,
    envelope: EnvelopeView,
    text: Seq<char>,
    owner: Seq<char>,
)
    requires
        push_outcome(network, node, envelope).is_none(),
        envelope.protocol == Some(ONE_TO_ONE@),
        envelope.target() == Some(owner),
        !network.nodes.contains_key(owner),
    ensures
        envelope_outcome(network, node, envelope, text) == (Outcome {
            network,
            node,
            delivery: DeliveryView::notice(node.sender, NODE_NOT_FOUND@),
        }),
        forall|open: Set<Connection>, other: Connection, sent: Seq<char>|
            #[trigger] envelope_outcome(network, node, envelope, text).delivery.reaches(
                open,
                other,
                sent,
            ) <==> other == node.sender && sent == NODE_NOT_FOUND@,
{
    lemma_words_differ();
}

/// A one-to-all message reaches every open connection, the sender's among
/// them, with the text as it was sent.
pub proof fn lemma_broadcast(
    network: NetworkView,
    node: NodeView,
    envelope: EnvelopeView,
    text: Seq<char>,
)
    requires
        push_outcome(network, node, envelope).is_none(),
        envelope.protocol == Some(ONE_TO_ALL@),
    ensures
        envelope_outcome(network, node, envelope, text) == (Outcome {
            network,
            node,
            delivery: DeliveryView::Broadcast { text },
        }),
        forall|open: Set<Connection>, other: Connection, sent: Seq<char>|
            #[trigger] envelope_outcome(network, node, envelope, text).delivery.reaches(
                open,
                other,
                sent,
            ) <==> open.contains(other) && sent == text,
{
}

/// A one-to-self message reaches the sender, and the sender alone.
pub proof fn lemma_echo(
    network: NetworkView,
    node: NodeView,
    envelope: EnvelopeView,
    text: Seq<char>,
)
    requires
        push_outcome(network, node, envelope).is_none(),
        envelope.protocol == Some(ONE_TO_SELF@),
    ensures
        envelope_outcome(network, node, envelope, text) == (Outcome {
            network,
            node,
            delivery: DeliveryView::Unicast { to: node.sender, text },
        }),
{
    lemma_words_differ();
}

/// A text that is no JSON changes nothing: the sender alone is told which
/// delivery modes there are.
pub proof fn lemma_malformed_message(network: NetworkView, node: NodeView, text: Seq<char>)
    requires
        parsed_members(text).is_none(),
    ensures
        message_outcome(network, node, text) == (Outcome {
            network,
            node,
            delivery: DeliveryView::notice(node.sender, INVALID_PROTOCOL@),
        }),
{
}

/// When the connection that holds `owner` closes, `owner` resolves to
/// nothing, the registry is smaller by one, and a one-to-one message to
/// `owner` is answered as one to an unknown target.
pub proof fn lemma_close_cleans_up(
    relay: Relay,
    sender: Connection,
    owner: Seq<char>,
    node: NodeView,
    envelope: EnvelopeView,
    text: Seq<char>,
)
    requires
        relay.consistent(),
        relay.holds(sender, owner),
        push_outcome(relay.step(Event::Close { sender }).network, node, envelope).is_none(),
        envelope.protocol == Some(ONE_TO_ONE@),
        envelope.target() == Some(owner),
    ensures
        relay.step(Event::Close { sender }).network.resolve(owner).is_none(),
        relay.step(Event::Close { sender }).network.size() == relay.network.size() - 1,
        !relay.step(Event::Close { sender }).nodes.contains_key(sender),
        envelope_outcome(relay.step(Event::Close { sender }).network, node, envelope, text).delivery
            == DeliveryView::notice(node.sender, NODE_NOT_FOUND@),
{
    lemma_words_differ();
    assert(relay.network.resolve(owner) == Some(sender));
}

/// Opening and closing connections never touches the stored descriptors.
pub proof fn lemma_subscriptions_outlive_connections(relay: Relay, event: Event)
    requires
        !(event is Message),
    ensures
        relay.step(event).network.subscriptions == relay.network.subscriptions,
        relay.step(event).network.vapid_path == relay.network.vapid_path,
{
}

/// A `subscribe-push` from a connection that holds an identity stores the
/// descriptor for that identity, and sends nothing.
pub proof fn lemma_subscribe_stores(
    network: NetworkView,
    node: NodeView,
    envelope: EnvelopeView,
    text: Seq<char>,
    owner: Seq<char>,
    blob: Seq<char>,
)
    requires
        envelope.action == Some(SUBSCRIBE_PUSH@),
        envelope.blob() == Some(blob),
        node.owner == Some(owner),
    ensures
        envelope_outcome(network, node, envelope, text).network.subscription_for(owner) == Some(
            blob,
        ),
        envelope_outcome(network, node, envelope, text).network.nodes == network.nodes,
        envelope_outcome(network, node, envelope, text).delivery == DeliveryView::Silent,
{
}

/// A descriptor outlives the connection it was stored from: after the
/// connection that holds `callee` has closed, a connection request to
/// `callee` from a connection that holds an identity still calls the
/// notifier, once, with the descriptor stored for `callee`.
pub proof fn lemma_subscription_survives_close(
    relay: Relay,
    closing: Connection,
    callee: Seq<char>,
    blob: Seq<char>,
    caller: NodeView,
    caller_name: Seq<char>,
    envelope: EnvelopeView,
    text: Seq<char>,
)
    requires
        relay.holds(closing, callee),
        relay.network.subscription_for(callee) == Some(blob),
        caller.owner == Some(caller_name),
        envelope.action == Some(CONNECTION_REQUEST@),
        envelope.callee() == Some(callee),
    ensures
        envelope_outcome(relay.step(Event::Close { sender: closing }).network, caller, envelope, text).delivery
            == (DeliveryView::Notify {
            request: PushRequestView::new(
                connection_request_payload(caller_name),
                blob,
                relay.network.vapid_path,
            ),
        }),
        envelope_outcome(relay.step(Event::Close { sender: closing }).network, caller, envelope, text).delivery.notifications()
            == 1,
{
    lemma_words_differ();
}

/// Whatever a message does in a consistent relay, a text that it sends to
/// one connection goes to a connection that is open.
pub proof fn lemma_unicast_to_open_connection(relay: Relay, sender: Connection, text: Seq<char>)
    requires
        relay.consistent(),
        relay.nodes.contains_key(sender),
    ensures
        relay.outcome(Event::Message { sender, text }).delivery matches DeliveryView::Unicast {
            to,
            ..
        } ==> relay.nodes.contains_key(to),
{
    let node = relay.nodes[sender];
    let envelope = EnvelopeView::of_text(text);
    if let Some(owner) = envelope.target() {
        if relay.network.nodes.contains_key(owner) {
            assert(relay.holds(relay.network.nodes[owner], owner));
        }
    }
}

} // verus!
