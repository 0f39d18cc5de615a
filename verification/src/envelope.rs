//! The wire envelope: the few fields of an inbound message that routing
//! reads.
//!
//! A message is JSON text. `serde_json` parses it; this module picks the
//! fields out of the parsed document and keeps them as plain strings.

use vstd::prelude::*;
use crate::text::text_of;

verus! {

/// A parsed JSON document of `serde_json`. Nothing of its inside is known
/// here but what [`text_members`] names.
#[verifier::external_type_specification]
#[verifier::external_body]
pub struct ExValue(serde_json::Value);

/// The error with which `serde_json` refuses a text.
#[verifier::external_type_specification]
#[verifier::external_body]
pub struct ExError(serde_json::Error);

/// The members of a document that hold a string, by key: empty for a
/// document that is no JSON object.
pub uninterp spec fn text_members(document: serde_json::Value) -> Map<Seq<char>, Seq<char>>;

/// What parsing `text` yields: the string members of the document it stands
/// for, or nothing where the text is no JSON.
pub uninterp spec fn parsed_members(text: Seq<char>) -> Option<Map<Seq<char>, Seq<char>>>;

/// Calls `serde_json::from_str` for a `Value`.
///
/// Trusted: whether the text is accepted, and the string members of the
/// document that comes back, depend on the text alone.
#[verifier::external_body]
fn parse_document(text: &str) -> (parsed: Result<serde_json::Value, serde_json::Error>)
    ensures
        match parsed {
            Ok(document) => parsed_members(text@) == Some(text_members(document)),
            Err(_) => parsed_members(text@).is_none(),
        },
{
    serde_json::from_str::<serde_json::Value>(text)
}

/// Calls `Value::get` with a string key.
///
/// Trusted: the result is the string that the member `key` holds, and
/// nothing where the document is no object, has no such member, or the
/// member holds no string.
#[verifier::external_body]
fn text_member(document: &serde_json::Value, key: &str) -> (found: Option<String>)
    ensures
        text_of(found) == member(text_members(*document), key@),
{
    match document.get(key) {
        Some(serde_json::Value::String(text)) => Some(text.clone()),
        _ => None,
    }
}

/// The string that `members` holds under `key`, if any.
pub open spec fn member(members: Map<Seq<char>, Seq<char>>, key: Seq<char>) -> Option<Seq<char>> {
    if members.contains_key(key) {
        Some(members[key])
    } else {
        None
    }
}

/// The first of two optional values that is present.
pub open spec fn first_of(a: Option<Seq<char>>, b: Option<Seq<char>>) -> Option<Seq<char>> {
    if a.is_some() {
        a
    } else {
        b
    }
}

/// Selects the delivery mode.
pub const KEY_PROTOCOL: &'static str = "protocol";

/// Selects an offline-notification request; it is looked at before
/// `protocol`.
pub const KEY_ACTION: &'static str = "action";

/// Names the target of a one-to-one message.
pub const KEY_TO: &'static str = "to";

/// Names the target of a one-to-one message or of a connection request,
/// where the field of first choice is absent.
pub const KEY_ENDPOINT: &'static str = "endpoint";

/// Carries the descriptor to store.
pub const KEY_DATA: &'static str = "data";

/// Carries the descriptor to store, where `data` is absent.
pub const KEY_SUBSCRIPTION_DATA: &'static str = "subscriptionData";

/// Names the target of a connection request.
pub const KEY_CONNECT_TO: &'static str = "connect_to";

/// The fields of an inbound message that routing reads. A field is absent
/// where the message has no member of that name or the member holds no
/// string.
#[derive(Debug, PartialEq, Eq)]
pub struct Envelope {
    pub action: Option<String>,
    pub protocol: Option<String>,
    pub to: Option<String>,
    pub endpoint: Option<String>,
    pub data: Option<String>,
    pub subscription_data: Option<String>,
    pub connect_to: Option<String>,
}

/// The mathematical value of an [`Envelope`].
pub struct EnvelopeView {
    pub action: Option<Seq<char>>,
    pub protocol: Option<Seq<char>>,
    pub to: Option<Seq<char>>,
    pub endpoint: Option<Seq<char>>,
    pub data: Option<Seq<char>>,
    pub subscription_data: Option<Seq<char>>,
    pub connect_to: Option<Seq<char>>,
}

impl View for Envelope {
    type V = EnvelopeView;

    open spec fn view(&self) -> EnvelopeView {
        EnvelopeView {
            action: text_of(self.action),
            protocol: text_of(self.protocol),
            to: text_of(self.to),
            endpoint: text_of(self.endpoint),
            data: text_of(self.data),
            subscription_data: text_of(self.subscription_data),
            connect_to: text_of(self.connect_to),
        }
    }
}

impl EnvelopeView {
    /// The envelope with no field at all.
    pub open spec fn empty() -> EnvelopeView {
        EnvelopeView {
            action: None,
            protocol: None,
            to: None,
            endpoint: None,
            data: None,
            subscription_data: None,
            connect_to: None,
        }
    }

    /// The envelope of a document with the string members `members`.
    pub open spec fn of_members(members: Map<Seq<char>, Seq<char>>) -> EnvelopeView {
        EnvelopeView {
            action: member(members, KEY_ACTION@),
            protocol: member(members, KEY_PROTOCOL@),
            to: member(members, KEY_TO@),
            endpoint: member(members, KEY_ENDPOINT@),
            data: member(members, KEY_DATA@),
            subscription_data: member(members, KEY_SUBSCRIPTION_DATA@),
            connect_to: member(members, KEY_CONNECT_TO@),
        }
    }

    /// The envelope of the message `text`: that of the document the text
    /// stands for, and the empty one where the text is no JSON.
    pub open spec fn of_text(text: Seq<char>) -> EnvelopeView {
        match parsed_members(text) {
            Some(members) => EnvelopeView::of_members(members),
            None => EnvelopeView::empty(),
        }
    }

    /// The target of a one-to-one message: `to`, else `endpoint`.
    pub open spec fn target(self) -> Option<Seq<char>> {
        first_of(self.to, self.endpoint)
    }

    /// The descriptor to store: `data`, else `subscriptionData`.
    pub open spec fn blob(self) -> Option<Seq<char>> {
        first_of(self.data, self.subscription_data)
    }

    /// The target of a connection request: `connect_to`, else `endpoint`.
    pub open spec fn callee(self) -> Option<Seq<char>> {
        first_of(self.connect_to, self.endpoint)
    }
}

impl Envelope {
    /// The envelope with no field at all.
    pub fn empty() -> (envelope: Envelope)
        ensures
            envelope@ == EnvelopeView::empty(),
    {
        Envelope {
            action: None,
            protocol: None,
            to: None,
            endpoint: None,
            data: None,
            subscription_data: None,
            connect_to: None,
        }
    }

    /// Picks the fields out of a parsed document.
    fn of_document(document: &serde_json::Value) -> (envelope: Envelope)
        ensures
            envelope@ == EnvelopeView::of_members(text_members(*document)),
    {
        Envelope {
            action: text_member(document, KEY_ACTION),
            protocol: text_member(document, KEY_PROTOCOL),
            to: text_member(document, KEY_TO),
            endpoint: text_member(document, KEY_ENDPOINT),
            data: text_member(document, KEY_DATA),
            subscription_data: text_member(document, KEY_SUBSCRIPTION_DATA),
            connect_to: text_member(document, KEY_CONNECT_TO),
        }
    }

    /// Reads the envelope of the message `text`. A text that is no JSON is
    /// read as a message without fields.
    pub fn parse(text: &str) -> (envelope: Envelope)
        ensures
            envelope@ == EnvelopeView::of_text(text@),
    {
        match parse_document(text) {
            Ok(document) => Envelope::of_document(&document),
            Err(_) => Envelope::empty(),
        }
    }
}

} // verus!
