//! Per-connection state.

use vstd::prelude::*;
use crate::connection::Connection;
use crate::text::text_of;

verus! {

/// The state kept for one open connection.
#[derive(Debug)]
pub struct Node {
    /// The identity the connection has claimed, if any.
    pub owner: Option<String>,
    /// The offline-notification descriptor the connection stored last, if any.
    pub subscription: Option<String>,
    /// The connection this node speaks for.
    pub sender: Connection,
}

/// The mathematical value of a [`Node`].
pub struct NodeView {
    pub owner: Option<Seq<char>>,
    pub subscription: Option<Seq<char>>,
    pub sender: Connection,
}

impl View for Node {
    type V = NodeView;

    open spec fn view(&self) -> NodeView {
        NodeView {
            owner: text_of(self.owner),
            subscription: text_of(self.subscription),
            sender: self.sender,
        }
    }
}

impl NodeView {
    /// The node of a connection that has just opened: no identity, no
    /// subscription.
    pub open spec fn fresh(sender: Connection) -> NodeView {
        NodeView { owner: None, subscription: None, sender }
    }

    /// The node once it holds the identity `owner`.
    pub open spec fn identified(self, owner: Seq<char>) -> NodeView {
        NodeView { owner: Some(owner), ..self }
    }

    /// The node once `blob` is the descriptor it stored last.
    pub open spec fn subscribed(self, blob: Seq<char>) -> NodeView {
        NodeView { subscription: Some(blob), ..self }
    }
}

impl Node {
    /// The node of a connection that has just opened.
    pub fn new(sender: Connection) -> (node: Node)
        ensures
            node@ == NodeView::fresh(sender),
    {
        Node { owner: None, subscription: None, sender }
    }

    /// Whether the connection has claimed an identity.
    pub fn is_identified(&self) -> (b: bool)
        ensures
            b == self@.owner.is_some(),
    {
        self.owner.is_some()
    }
}

} // verus!
