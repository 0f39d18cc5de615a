//! The registry: which identity belongs to which open connection, and which
//! offline-notification descriptor was stored for which identity.

use vstd::prelude::*;
use vstd::hash_map::StringHashMap;
use crate::connection::Connection;
use crate::text::text_of;
use crate::node::{Node, NodeView};
use crate::push::{connection_payload, connection_request_payload, PushRequest, PushRequestView};

verus! {

/// The mathematical value of a [`Network`].
pub struct NetworkView {
    /// The connection registered under each identity.
    pub nodes: Map<Seq<char>, Connection>,
    /// The descriptor stored for each identity.
    pub subscriptions: Map<Seq<char>, Seq<char>>,
    /// Where the signing key for offline notifications is kept.
    pub vapid_path: Seq<char>,
}

impl NetworkView {
    /// Both tables are finite.
    pub open spec fn valid(self) -> bool {
        self.nodes.dom().finite() && self.subscriptions.dom().finite()
    }

    /// The registry of a relay that has just started.
    pub open spec fn empty() -> NetworkView {
        NetworkView { nodes: Map::empty(), subscriptions: Map::empty(), vapid_path: Seq::empty() }
    }

    /// The number of registered identities.
    pub open spec fn size(self) -> nat {
        self.nodes.len()
    }

    /// The connection registered under `owner`, if there is one.
    pub open spec fn resolve(self, owner: Seq<char>) -> Option<Connection> {
        if self.nodes.contains_key(owner) {
            Some(self.nodes[owner])
        } else {
            None
        }
    }

    /// The descriptor stored for `owner`, if there is one.
    pub open spec fn subscription_for(self, owner: Seq<char>) -> Option<Seq<char>> {
        if self.subscriptions.contains_key(owner) {
            Some(self.subscriptions[owner])
        } else {
            None
        }
    }

    /// The registry with `owner` registered for `sender`.
    pub open spec fn register(self, owner: Seq<char>, sender: Connection) -> NetworkView {
        NetworkView { nodes: self.nodes.insert(owner, sender), ..self }
    }

    /// The registry without an entry for `owner`.
    pub open spec fn unregister(self, owner: Seq<char>) -> NetworkView {
        NetworkView { nodes: self.nodes.remove(owner), ..self }
    }

    /// The registry with `blob` stored for `owner`, replacing what was stored.
    pub open spec fn store_subscription(self, owner: Seq<char>, blob: Seq<char>) -> NetworkView {
        NetworkView { subscriptions: self.subscriptions.insert(owner, blob), ..self }
    }

    /// The registry with the signing key kept at `path`.
    pub open spec fn with_vapid_path(self, path: Seq<char>) -> NetworkView {
        NetworkView { vapid_path: path, ..self }
    }

    /// The notification due when `sender` asks to be connected to
    /// `endpoint`: one for the descriptor stored for `endpoint`, and none
    /// where nothing is stored.
    pub open spec fn push_for(self, sender: Seq<char>, endpoint: Seq<char>) -> Option<
        PushRequestView,
    > {
        match self.subscription_for(endpoint) {
            Some(blob) => Some(
                PushRequestView::new(connection_request_payload(sender), blob, self.vapid_path),
            ),
            None => None,
        }
    }
}

/// Why an identity claim was refused.
#[derive(Clone, Copy, Debug, PartialEq, Eq, Structural)]
pub enum RegisterError {
    /// Another open connection holds the identity.
    IdentityTaken,
    /// The claiming connection already holds an identity of its own.
    AlreadyIdentified,
}

/// The outcome the registry owes to a claim of `owner` by `node`.
pub open spec fn claim_outcome(network: NetworkView, node: NodeView, owner: Seq<char>) -> Result<
    (),
    RegisterError,
> {
    if network.nodes.contains_key(owner) {
        Err(RegisterError::IdentityTaken)
    } else if node.owner.is_some() {
        Err(RegisterError::AlreadyIdentified)
    } else {
        Ok(())
    }
}

/// What an optional request holds.
pub open spec fn request_view(request: Option<PushRequest>) -> Option<PushRequestView> {
    match request {
        Some(r) => Some(r@),
        None => None,
    }
}

/// The stored descriptors, each as the characters it holds.
spec fn texts(blobs: Map<Seq<char>, String>) -> Map<Seq<char>, Seq<char>> {
    blobs.map_values(|blob: String| blob@)
}

/// `texts` keeps the keys, and follows an insertion.
proof fn lemma_texts(blobs: Map<Seq<char>, String>)
    ensures
        texts(blobs).dom() == blobs.dom(),
        forall|owner: Seq<char>, blob: String| #[trigger]
            texts(blobs.insert(owner, blob)) == texts(blobs).insert(owner, blob@),
{
    assert(texts(blobs).dom() =~= blobs.dom());
    assert forall|owner: Seq<char>, blob: String| #[trigger]
        texts(blobs.insert(owner, blob)) == texts(blobs).insert(owner, blob@) by {
        assert(texts(blobs.insert(owner, blob)) =~= texts(blobs).insert(owner, blob@));
    }
}

/// The registry of the relay.
pub struct Network {
    nodemap: StringHashMap<Connection>,
    pushmap: StringHashMap<String>,
    vapid_path: String,
}

impl View for Network {
    type V = NetworkView;

    closed spec fn view(&self) -> NetworkView {
        NetworkView {
            nodes: self.nodemap@,
            subscriptions: texts(self.pushmap@),
            vapid_path: self.vapid_path@,
        }
    }
}

impl Default for Network {
    fn default() -> (network: Network)
        ensures
            network@ == NetworkView::empty(),
            network@.valid(),
    {
        Network::new()
    }
}

impl Network {
    #[verifier::type_invariant]
    spec fn well_formed(self) -> bool {
        self.nodemap@.dom().finite() && self.pushmap@.dom().finite()
    }

    /// An empty registry.
    pub fn new() -> (network: Network)
        ensures
            network@ == NetworkView::empty(),
            network@.valid(),
    {
        let network = Network {
            nodemap: StringHashMap::new(),
            pushmap: StringHashMap::new(),
            vapid_path: String::new(),
        };
        proof {
            lemma_texts(network.pushmap@);
            assert(network@.subscriptions =~= Map::empty());
        }
        network
    }

    /// Takes the table of connections out of the registry, leaving an empty
    /// one in its place, so that the table can be changed on its own.
    fn take_nodes(&mut self) -> (nodes: StringHashMap<Connection>)
        ensures
            nodes@ == old(self)@.nodes,
            nodes@.dom().finite(),
            final(self)@ == (NetworkView { nodes: Map::empty(), ..old(self)@ }),
    {
        proof {
            use_type_invariant(&*self);
            lemma_texts(self.pushmap@);
        }
        let mut nodes: StringHashMap<Connection> = StringHashMap::new();
        core::mem::swap(&mut self.nodemap, &mut nodes);
        nodes
    }

    /// Puts a table of connections in place of the one the registry holds.
    fn put_nodes(&mut self, nodes: StringHashMap<Connection>)
        requires
            nodes@.dom().finite(),
        ensures
            final(self)@ == (NetworkView { nodes: nodes@, ..old(self)@ }),
    {
        proof {
            use_type_invariant(&*self);
            lemma_texts(self.pushmap@);
        }
        let mut nodes = nodes;
        core::mem::swap(&mut self.nodemap, &mut nodes);
    }

    /// Takes the table of descriptors out of the registry, leaving an empty
    /// one in its place, so that the table can be changed on its own.
    fn take_subscriptions(&mut self) -> (blobs: StringHashMap<String>)
        ensures
            texts(blobs@) == old(self)@.subscriptions,
            blobs@.dom().finite(),
            final(self)@ == (NetworkView { subscriptions: Map::empty(), ..old(self)@ }),
    {
        proof {
            use_type_invariant(&*self);
        }
        let mut blobs: StringHashMap<String> = StringHashMap::new();
        proof {
            lemma_texts(blobs@);
            assert(texts(blobs@) =~= Map::empty());
        }
        core::mem::swap(&mut self.pushmap, &mut blobs);
        blobs
    }

    /// Puts a table of descriptors in place of the one the registry holds.
    fn put_subscriptions(&mut self, blobs: StringHashMap<String>)
        requires
            blobs@.dom().finite(),
        ensures
            final(self)@ == (NetworkView { subscriptions: texts(blobs@), ..old(self)@ }),
    {
        proof {
            use_type_invariant(&*self);
        }
        let mut blobs = blobs;
        core::mem::swap(&mut self.pushmap, &mut blobs);
    }

    /// Registers `owner` for the connection of `node`, and records the
    /// identity in the node.
    ///
    /// The claim is refused, and nothing changes, when `owner` is already
    /// registered or when the node already holds an identity.
    pub fn add_user(&mut self, owner: &str, node: &mut Node) -> (outcome: Result<(), RegisterError>)
        ensures
            outcome == claim_outcome(old(self)@, old(node)@, owner@),
            outcome.is_ok() ==> final(self)@ == old(self)@.register(owner@, old(node)@.sender),
            outcome.is_ok() ==> final(node)@ == old(node)@.identified(owner@),
            outcome.is_ok() ==> final(self)@.size() == old(self)@.size() + 1,
            outcome.is_err() ==> final(self)@ == old(self)@,
            outcome.is_err() ==> final(node)@ == old(node)@,
            final(self)@.valid(),
    {
        proof {
            use_type_invariant(&*self);
            lemma_texts(self.pushmap@);
        }
        if self.nodemap.contains_key(owner) {
            Err(RegisterError::IdentityTaken)
        } else if node.owner.is_some() {
            Err(RegisterError::AlreadyIdentified)
        } else {
            let mut nodes = self.take_nodes();
            nodes.insert(owner.to_owned(), node.sender);
            self.put_nodes(nodes);
            node.owner = Some(owner.to_owned());
            Ok(())
        }
    }

    /// Removes the entry of `owner`, if there is one.
    pub fn remove(&mut self, owner: &str)
        ensures
            final(self)@ == old(self)@.unregister(owner@),
            final(self)@.valid(),
            old(self)@.nodes.contains_key(owner@) ==> final(self)@.size() == old(self)@.size() - 1,
            !old(self)@.nodes.contains_key(owner@) ==> final(self)@ == old(self)@,
    {
        proof {
            use_type_invariant(&*self);
            lemma_texts(self.pushmap@);
        }
        let mut nodes = self.take_nodes();
        nodes.remove(owner);
        self.put_nodes(nodes);
        proof {
            if !old(self)@.nodes.contains_key(owner@) {
                assert(old(self)@.nodes.remove(owner@) =~= old(self)@.nodes);
            }
        }
    }

    /// The number of registered identities.
    pub fn size(&self) -> (n: usize)
        ensures
            n == self@.size(),
            self@.valid(),
    {
        proof {
            use_type_invariant(self);
            lemma_texts(self.pushmap@);
        }
        self.nodemap.len()
    }

    /// Stores `blob` as the descriptor of `owner`, in place of what was
    /// stored for it, whether or not `owner` is connected.
    pub fn store_subscription(&mut self, owner: &str, blob: &str)
        ensures
            final(self)@ == old(self)@.store_subscription(owner@, blob@),
            final(self)@.valid(),
    {
        proof {
            use_type_invariant(&*self);
            lemma_texts(self.pushmap@);
        }
        let mut blobs = self.take_subscriptions();
        proof {
            lemma_texts(blobs@);
        }
        blobs.insert(owner.to_owned(), blob.to_owned());
        self.put_subscriptions(blobs);
    }

    /// Stores `subscription` as the descriptor of the identity that `node`
    /// holds, in place of what was stored for it, and records it in the node.
    ///
    /// Nothing changes when the node holds no identity.
    pub fn add_subscription(&mut self, subscription: &str, node: &mut Node)
        ensures
            old(node)@.owner matches Some(owner) ==> {
                &&& final(self)@ == old(self)@.store_subscription(owner, subscription@)
                &&& final(node)@ == old(node)@.subscribed(subscription@)
            },
            old(node)@.owner is None ==> {
                &&& final(self)@ == old(self)@
                &&& final(node)@ == old(node)@
            },
            final(self)@.valid(),
    {
        proof {
            use_type_invariant(&*self);
            lemma_texts(self.pushmap@);
        }
        match &node.owner {
            Some(owner) => {
                self.store_subscription(owner.as_str(), subscription);
                node.subscription = Some(subscription.to_owned());
            },
            None => {},
        }
    }

    /// The descriptor stored for `owner`, if there is one.
    pub fn subscription_for(&self, owner: &str) -> (found: Option<String>)
        ensures
            text_of(found) == self@.subscription_for(owner@),
    {
        match self.pushmap.get(owner) {
            Some(blob) => Some(blob.clone()),
            None => None,
        }
    }

    /// Tells the registry where the signing key is kept.
    pub fn set_vapid_path(&mut self, vapid_path: &str)
        ensures
            final(self)@ == old(self)@.with_vapid_path(vapid_path@),
            final(self)@.valid(),
    {
        proof {
            use_type_invariant(&*self);
            lemma_texts(self.pushmap@);
        }
        self.vapid_path = vapid_path.to_owned();
    }

    /// The notification due when `sender` asks to be connected to
    /// `endpoint`.
    ///
    /// There is one exactly when a descriptor is stored for `endpoint`,
    /// whether or not `endpoint` is connected.
    pub fn send_push(&self, sender: &str, endpoint: &str) -> (request: Option<PushRequest>)
        ensures
            request_view(request) == self@.push_for(sender@, endpoint@),
    {
        let payload = connection_payload(sender);
        match self.pushmap.get(endpoint) {
            Some(blob) => Some(
                PushRequest::new(payload.as_str(), blob.as_str(), self.vapid_path.as_str()),
            ),
            None => None,
        }
    }

    /// The connection registered under `owner`, if there is one.
    pub fn resolve(&self, owner: &str) -> (found: Option<Connection>)
        ensures
            found == self@.resolve(owner@),
    {
        match self.nodemap.get(owner) {
            Some(sender) => Some(*sender),
            None => None,
        }
    }
}

} // verus!
