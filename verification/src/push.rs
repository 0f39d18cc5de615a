//! Offline notifications: what is handed to the notifier.
//!
//! The relay does not deliver a notification itself. It decides that one is
//! due, for which stored descriptor, and with which payload, and hands that
//! out as a [`PushRequest`].

use vstd::prelude::*;
use vstd::string::*;

verus! {

/// How long, in seconds, the push service may keep an undelivered
/// notification.
pub const PUSH_TTL: u32 = 3600;

/// How long, in seconds, the notifier may wait for the push service.
pub const PUSH_TIMEOUT_SECS: u64 = 4;

/// Where the signing key is looked for when the registry was told nothing.
pub const DEFAULT_VAPID_PATH: &'static str = "cert/vapid/private.pem";

/// What follows the sender's name in the body of a connection request.
pub const REQUEST_SUFFIX: &'static str = "\nwants to connect with you";

/// The payload up to the quoted body.
pub const PAYLOAD_HEAD: &'static str =
    "{\"actions\":[{\"action\":\"allowConnection\",\"title\":\"\u{2714}\u{fe0f} Allow\"},{\"action\":\"denyConnection\",\"title\":\"\u{2716}\u{fe0f} Deny\"}],\"body\":";

/// The payload between the quoted body and the quoted sender.
pub const PAYLOAD_MIDDLE: &'static str = ",\"sender\":";

/// The payload after the quoted sender.
pub const PAYLOAD_TAIL: &'static str = "}";

/// The digits of a `\u` escape.
pub const HEX_DIGITS: &'static str = "0123456789abcdef";

/// What stands for the character `c` inside a JSON string literal: `"` and
/// `\` behind a backslash, a control character below U+0020 as its short
/// escape or, where it has none, as `\u00` and two hexadecimal digits, and
/// every other character as it is.
pub open spec fn escaped(c: char) -> Seq<char> {
    if c == '"' {
        seq!['\\', '"']
    } else if c == '\\' {
        seq!['\\', '\\']
    } else if c == '\u{8}' {
        seq!['\\', 'b']
    } else if c == '\t' {
        seq!['\\', 't']
    } else if c == '\n' {
        seq!['\\', 'n']
    } else if c == '\u{c}' {
        seq!['\\', 'f']
    } else if c == '\r' {
        seq!['\\', 'r']
    } else if (c as int) < 0x20 {
        seq!['\\', 'u', '0', '0', HEX_DIGITS@[(c as int) / 16], HEX_DIGITS@[(c as int) % 16]]
    } else {
        seq![c]
    }
}

/// The escaped characters of `text`, one after the other.
pub open spec fn escaped_text(text: Seq<char>) -> Seq<char> {
    text.map_values(|c: char| escaped(c)).flatten()
}

/// The JSON string literal for `text`: the escaped characters of the text,
/// one after the other, between two double quotes.
pub open spec fn json_string(text: Seq<char>) -> Seq<char> {
    seq!['"'] + escaped_text(text) + seq!['"']
}

/// No character of `text` needs an escape.
pub open spec fn plain(text: Seq<char>) -> bool {
    forall|i: int| 0 <= i < text.len() ==> escaped(#[trigger] text[i]) == seq![text[i]]
}

/// The escaped text of two texts joined is their escaped texts joined.
pub proof fn lemma_escaped_text_joins(a: Seq<char>, b: Seq<char>)
    ensures
        escaped_text(a + b) == escaped_text(a) + escaped_text(b),
    decreases a.len(),
{
    let pieces = (a + b).map_values(|c: char| escaped(c));
    if a.len() == 0 {
        assert(a + b =~= b);
        assert(escaped_text(a) =~= Seq::<char>::empty());
        assert(escaped_text(a) + escaped_text(b) =~= escaped_text(b));
    } else {
        let rest = a.drop_first();
        lemma_escaped_text_joins(rest, b);
        assert(pieces.first() == escaped(a[0]));
        assert(pieces.drop_first() =~= (rest + b).map_values(|c: char| escaped(c)));
        assert(a.map_values(|c: char| escaped(c)).drop_first() =~= rest.map_values(
            |c: char| escaped(c),
        ));
        assert(escaped_text(a) == escaped(a[0]) + escaped_text(rest));
        assert(escaped_text(a + b) == escaped(a[0]) + escaped_text(rest + b));
        assert(escaped(a[0]) + (escaped_text(rest) + escaped_text(b)) =~= (escaped(a[0])
            + escaped_text(rest)) + escaped_text(b));
    }
}

/// A text of which no character needs an escape is its own escaped text,
/// and is quoted by putting it between two double quotes.
pub proof fn lemma_json_string_plain(text: Seq<char>)
    requires
        plain(text),
    ensures
        escaped_text(text) == text,
        json_string(text) == seq!['"'] + text + seq!['"'],
    decreases text.len(),
{
    let pieces = text.map_values(|c: char| escaped(c));
    if text.len() == 0 {
        assert(pieces.flatten() =~= text);
    } else {
        let rest = text.drop_first();
        assert(pieces.drop_first() =~= rest.map_values(|c: char| escaped(c)));
        assert forall|i: int| 0 <= i < rest.len() implies escaped(#[trigger] rest[i]) == seq![
            rest[i],
        ] by {
            assert(rest[i] == text[i + 1]);
        }
        lemma_json_string_plain(rest);
        assert(pieces.first() == seq![text[0]]);
        assert(pieces.flatten() =~= text);
    }
}

/// The escaped text of what follows the sender's name in the body of a
/// connection request.
pub const ESCAPED_REQUEST_SUFFIX: &'static str = "\\nwants to connect with you";

/// What follows the sender's name in the body of a connection request is
/// escaped by writing its line feed as `\n`.
pub proof fn lemma_request_suffix_escaped()
    ensures
        escaped_text(REQUEST_SUFFIX@) == ESCAPED_REQUEST_SUFFIX@,
{
    reveal_strlit("\nwants to connect with you");
    reveal_strlit("\\nwants to connect with you");
    let words = REQUEST_SUFFIX@.drop_first();
    assert(plain(words));
    lemma_json_string_plain(words);
    assert(REQUEST_SUFFIX@ =~= seq!['\n'] + words);
    lemma_escaped_text_joins(seq!['\n'], words);
    assert(seq!['\n'].map_values(|c: char| escaped(c)) =~= seq![escaped('\n')]);
    seq![escaped('\n')].lemma_flatten_one_element();
    assert(escaped_text(seq!['\n']) == seq!['\\', 'n']);
    assert(seq!['\\', 'n'] + words =~= ESCAPED_REQUEST_SUFFIX@);
}

/// The payload of a connection request from a sender whose name needs no
/// escape: the name stands in it twice, as it is.
pub proof fn lemma_plain_sender_payload(sender: Seq<char>)
    requires
        plain(sender),
    ensures
        connection_request_payload(sender) == PAYLOAD_HEAD@ + (seq!['"'] + sender
            + ESCAPED_REQUEST_SUFFIX@ + seq!['"']) + PAYLOAD_MIDDLE@ + (seq!['"'] + sender + seq![
            '"',
        ]) + PAYLOAD_TAIL@,
{
    lemma_json_string_plain(sender);
    lemma_request_suffix_escaped();
    lemma_escaped_text_joins(sender, REQUEST_SUFFIX@);
    assert(seq!['"'] + (sender + ESCAPED_REQUEST_SUFFIX@) + seq!['"'] =~= seq!['"'] + sender
        + ESCAPED_REQUEST_SUFFIX@ + seq!['"']);
}

/// Calls `serde_json`'s `Display` for `Value::String`, through `to_string`.
///
/// Trusted: the result is the JSON string literal for `text` as
/// [`json_string`] states it, which is how `serde_json` writes a string:
/// it escapes `"`, `\` and the control characters below U+0020, and copies
/// every other character. Writing a string value cannot fail.
#[verifier::external_body]
fn quote(text: &str) -> (quoted: String)
    ensures
        quoted@ == json_string(text@),
{
    serde_json::Value::String(text.to_owned()).to_string()
}

/// The body of a connection request from `sender`, before quoting.
pub open spec fn request_body(sender: Seq<char>) -> Seq<char> {
    sender + REQUEST_SUFFIX@
}

/// The payload made of an already quoted body and an already quoted sender.
pub open spec fn payload_of(quoted_body: Seq<char>, quoted_sender: Seq<char>) -> Seq<char> {
    PAYLOAD_HEAD@ + quoted_body + PAYLOAD_MIDDLE@ + quoted_sender + PAYLOAD_TAIL@
}

/// The payload of a connection request from `sender`.
pub open spec fn connection_request_payload(sender: Seq<char>) -> Seq<char> {
    payload_of(json_string(request_body(sender)), json_string(sender))
}

/// Puts a payload together from its two quoted parts: a JSON object with the
/// two actions a callee can take, the body and the sender, in that order.
pub fn assemble_payload(quoted_body: &str, quoted_sender: &str) -> (payload: String)
    ensures
        payload@ == payload_of(quoted_body@, quoted_sender@),
{
    let mut payload: String = PAYLOAD_HEAD.to_owned();
    payload.append(quoted_body);
    payload.append(PAYLOAD_MIDDLE);
    payload.append(quoted_sender);
    payload.append(PAYLOAD_TAIL);
    payload
}

/// The payload that tells a callee that `sender` wants to connect.
pub fn connection_payload(sender: &str) -> (payload: String)
    ensures
        payload@ == connection_request_payload(sender@),
{
    let mut body: String = sender.to_owned();
    body.append(REQUEST_SUFFIX);
    let quoted_body = quote(body.as_str());
    let quoted_sender = quote(sender);
    assemble_payload(quoted_body.as_str(), quoted_sender.as_str())
}

/// One offline notification, ready for the notifier.
#[derive(Debug, PartialEq, Eq)]
pub struct PushRequest {
    /// The descriptor the callee stored.
    pub subscription: String,
    /// What the callee is to be shown.
    pub payload: String,
    /// Where the signing key is kept.
    pub vapid_path: String,
    /// How long, in seconds, the push service may keep the notification.
    pub ttl: u32,
    /// How long, in seconds, the notifier may wait for the push service.
    pub timeout_secs: u64,
}

/// The mathematical value of a [`PushRequest`].
pub struct PushRequestView {
    pub subscription: Seq<char>,
    pub payload: Seq<char>,
    pub vapid_path: Seq<char>,
    pub ttl: u32,
    pub timeout_secs: u64,
}

impl View for PushRequest {
    type V = PushRequestView;

    open spec fn view(&self) -> PushRequestView {
        PushRequestView {
            subscription: self.subscription@,
            payload: self.payload@,
            vapid_path: self.vapid_path@,
            ttl: self.ttl,
            timeout_secs: self.timeout_secs,
        }
    }
}

impl PushRequestView {
    /// The request for `payload` to the holder of `subscription`, signed with
    /// the key at `vapid_path`, under the relay's fixed limits.
    pub open spec fn new(
        payload: Seq<char>,
        subscription: Seq<char>,
        vapid_path: Seq<char>,
    ) -> PushRequestView {
        PushRequestView {
            subscription,
            payload,
            vapid_path,
            ttl: PUSH_TTL,
            timeout_secs: PUSH_TIMEOUT_SECS,
        }
    }
}

impl PushRequest {
    /// The request for `payload` to the holder of `subscription`, signed with
    /// the key at `vapid_path`.
    pub fn new(payload: &str, subscription: &str, vapid_path: &str) -> (request: PushRequest)
        ensures
            request@ == PushRequestView::new(payload@, subscription@, vapid_path@),
    {
        PushRequest {
            subscription: subscription.to_owned(),
            payload: payload.to_owned(),
            vapid_path: vapid_path.to_owned(),
            ttl: PUSH_TTL,
            timeout_secs: PUSH_TIMEOUT_SECS,
        }
    }
}

/// The request for `push_payload` to the holder of `subscription`, signed
/// with the key at its default place.
pub fn push(push_payload: &str, subscription: &str) -> (request: PushRequest)
    ensures
        request@ == PushRequestView::new(push_payload@, subscription@, DEFAULT_VAPID_PATH@),
{
    PushRequest::new(push_payload, subscription, DEFAULT_VAPID_PATH)
}

} // verus!
