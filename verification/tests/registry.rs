use rustysignal::connection::Connection;
use rustysignal::network::{Network, RegisterError};
use rustysignal::node::Node;
use rustysignal::push::{PushRequest, PUSH_TIMEOUT_SECS, PUSH_TTL};

fn node(token: usize) -> Node {
    Node::new(Connection::new(token, token as u32))
}

#[test]
fn new_node_is_unidentified() {
    let n = Node::new(Connection::new(7, 3));
    assert_eq!(n.owner, None);
    assert_eq!(n.subscription, None);
    assert_eq!(n.sender, Connection { token: 7, id: 3 });
    assert!(!n.is_identified());
}

#[test]
fn new_registry_is_empty() {
    let network = Network::new();
    assert_eq!(network.size(), 0);
    assert_eq!(network.resolve("alice"), None);
    assert_eq!(network.subscription_for("alice"), None);
    let network = Network::default();
    assert_eq!(network.size(), 0);
}

#[test]
fn add_user_registers_and_identifies() {
    let mut network = Network::new();
    let mut alice = node(1);
    assert_eq!(network.add_user("alice", &mut alice), Ok(()));
    assert_eq!(alice.owner, Some("alice".to_string()));
    assert!(alice.is_identified());
    assert_eq!(network.size(), 1);
    assert_eq!(network.resolve("alice"), Some(Connection::new(1, 1)));
}

#[test]
fn duplicate_claim_is_refused_and_changes_nothing() {
    let mut network = Network::new();
    let mut first = node(1);
    let mut second = node(2);
    assert_eq!(network.add_user("alice", &mut first), Ok(()));
    assert_eq!(network.add_user("alice", &mut second), Err(RegisterError::IdentityTaken));
    assert_eq!(network.size(), 1);
    assert_eq!(second.owner, None);
    assert_eq!(network.resolve("alice"), Some(Connection::new(1, 1)));
}

#[test]
fn identity_is_set_at_most_once() {
    let mut network = Network::new();
    let mut alice = node(1);
    assert_eq!(network.add_user("alice", &mut alice), Ok(()));
    assert_eq!(network.add_user("alicia", &mut alice), Err(RegisterError::AlreadyIdentified));
    assert_eq!(alice.owner, Some("alice".to_string()));
    assert_eq!(network.size(), 1);
    assert_eq!(network.resolve("alicia"), None);
    assert_eq!(network.add_user("alice", &mut alice), Err(RegisterError::IdentityTaken));
}

#[test]
fn identities_are_case_sensitive_and_may_be_empty() {
    let mut network = Network::new();
    let mut a = node(1);
    let mut b = node(2);
    let mut c = node(3);
    assert_eq!(network.add_user("Alice", &mut a), Ok(()));
    assert_eq!(network.add_user("alice", &mut b), Ok(()));
    assert_eq!(network.add_user("", &mut c), Ok(()));
    assert_eq!(network.size(), 3);
    assert_eq!(network.resolve("Alice"), Some(Connection::new(1, 1)));
    assert_eq!(network.resolve("alice"), Some(Connection::new(2, 2)));
    assert_eq!(network.resolve(""), Some(Connection::new(3, 3)));
}

#[test]
fn remove_is_idempotent() {
    let mut network = Network::new();
    let mut alice = node(1);
    let mut bob = node(2);
    network.add_user("alice", &mut alice).unwrap();
    network.add_user("bob", &mut bob).unwrap();
    assert_eq!(network.size(), 2);
    network.remove("alice");
    assert_eq!(network.size(), 1);
    assert_eq!(network.resolve("alice"), None);
    assert_eq!(network.resolve("bob"), Some(Connection::new(2, 2)));
    network.remove("alice");
    assert_eq!(network.size(), 1);
    network.remove("nobody");
    assert_eq!(network.size(), 1);
}

#[test]
fn a_freed_identity_can_be_claimed_again() {
    let mut network = Network::new();
    let mut first = node(1);
    let mut second = node(2);
    network.add_user("alice", &mut first).unwrap();
    network.remove("alice");
    assert_eq!(network.add_user("alice", &mut second), Ok(()));
    assert_eq!(network.resolve("alice"), Some(Connection::new(2, 2)));
    assert_eq!(network.size(), 1);
}

#[test]
fn add_subscription_stores_for_the_identity() {
    let mut network = Network::new();
    let mut dave = node(4);
    network.add_user("dave", &mut dave).unwrap();
    network.add_subscription("blob-1", &mut dave);
    assert_eq!(network.subscription_for("dave"), Some("blob-1".to_string()));
    assert_eq!(dave.subscription, Some("blob-1".to_string()));
    network.add_subscription("blob-2", &mut dave);
    assert_eq!(network.subscription_for("dave"), Some("blob-2".to_string()));
    assert_eq!(dave.subscription, Some("blob-2".to_string()));
    assert_eq!(network.size(), 1);
}

#[test]
fn add_subscription_without_identity_does_nothing() {
    let mut network = Network::new();
    let mut anonymous = node(9);
    network.add_subscription("blob", &mut anonymous);
    assert_eq!(anonymous.subscription, None);
    assert_eq!(network.subscription_for(""), None);
    assert_eq!(network.size(), 0);
}

#[test]
fn remove_keeps_the_subscription() {
    let mut network = Network::new();
    let mut dave = node(4);
    network.add_user("dave", &mut dave).unwrap();
    network.add_subscription("blob", &mut dave);
    network.remove("dave");
    assert_eq!(network.resolve("dave"), None);
    assert_eq!(network.subscription_for("dave"), Some("blob".to_string()));
}

#[test]
fn send_push_needs_a_stored_subscription() {
    let mut network = Network::new();
    let mut dave = node(4);
    network.add_user("dave", &mut dave).unwrap();
    assert_eq!(network.send_push("erin", "dave"), None);
    network.add_subscription("blob", &mut dave);
    assert_eq!(network.send_push("erin", "nobody"), None);
    let request = network.send_push("erin", "dave").unwrap();
    assert_eq!(request.subscription, "blob");
    assert_eq!(request.vapid_path, "");
    assert_eq!(request.ttl, 3600);
    assert_eq!(request.timeout_secs, 4);
    assert_eq!(request.ttl, PUSH_TTL);
    assert_eq!(request.timeout_secs, PUSH_TIMEOUT_SECS);
    assert_eq!(
        request.payload,
        "{\"actions\":[{\"action\":\"allowConnection\",\"title\":\"\u{2714}\u{fe0f} Allow\"},{\"action\":\"denyConnection\",\"title\":\"\u{2716}\u{fe0f} Deny\"}],\"body\":\"erin\\nwants to connect with you\",\"sender\":\"erin\"}"
    );
}

#[test]
fn set_vapid_path_is_used_for_requests() {
    let mut network = Network::new();
    let mut dave = node(4);
    network.add_user("dave", &mut dave).unwrap();
    network.add_subscription("blob", &mut dave);
    network.set_vapid_path("keys/private.pem");
    let request: PushRequest = network.send_push("erin", "dave").unwrap();
    assert_eq!(request.vapid_path, "keys/private.pem");
    network.set_vapid_path("other.pem");
    assert_eq!(network.send_push("erin", "dave").unwrap().vapid_path, "other.pem");
    assert_eq!(network.size(), 1);
    assert_eq!(network.subscription_for("dave"), Some("blob".to_string()));
}

#[test]
fn store_subscription_needs_no_connection() {
    let mut network = Network::new();
    network.store_subscription("dave", "blob");
    assert_eq!(network.subscription_for("dave"), Some("blob".to_string()));
    assert_eq!(network.resolve("dave"), None);
    assert_eq!(network.size(), 0);
    network.store_subscription("dave", "other");
    assert_eq!(network.subscription_for("dave"), Some("other".to_string()));
    assert_eq!(network.send_push("erin", "dave").unwrap().subscription, "other");
}
