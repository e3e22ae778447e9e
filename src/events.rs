//! The application events that the messenger contract logs, and their
//! sentinel log line format.
use vstd::prelude::*;
use crate::hash::{base58_hash, base58_text, hash_to_base58, parse_base58_hash, CryptoHash};
use crate::json::{
    json_string, lemma_parse_four_members, lemma_parse_json_string, lemma_parse_object_value,
    lemma_parse_pair_object, lemma_parse_triple_object, lookup, member, members_view, pairs_view,
    parse_document, parse_value, push_json_string, push_str, push_string_member, read_document,
    JValue, JsonValue,
};
use crate::text::{chars_of, same_text, starts_with, string_of};

verus! {

/// The id of a message: a 32-byte hash, written in JSON as base58 text.
#[derive(Debug, Clone, Copy)]
pub struct MessageId(pub CryptoHash);

impl MessageId {
    /// The base58 text of the id.
    pub fn to_base58(&self) -> (r: String)
        ensures
            r@ == base58_text(self.0@),
            base58_hash(r@) == Some(self.0@),
    {
        hash_to_base58(&self.0)
    }

    /// Reads an id from base58 text; `None` unless the text is base58 for
    /// exactly 32 bytes.
    pub fn from_base58(s: &str) -> (r: Option<MessageId>)
        ensures
            match r {
                Some(id) => base58_hash(s@) == Some(id.0@),
                None => base58_hash(s@) is None,
            },
    {
        match parse_base58_hash(s) {
            Some(h) => Some(MessageId(h)),
            None => None,
        }
    }
}

/// A contact request, as seen by its sender or by its receiver.
#[derive(Debug)]
pub struct PendingContactRequest {
    pub sender: String,
    pub receiver: String,
}

/// `this` has added `contact` as a contact.
#[derive(Debug)]
pub struct NewContact {
    pub this: String,
    pub contact: String,
}

#[derive(Debug)]
pub struct MessageSent {
    pub sender: String,
    pub receiver: String,
}

#[derive(Debug)]
pub struct MessageReceived {
    pub sender: String,
    pub receiver: String,
    pub message_id: MessageId,
}

/// What happened; the variant is written as the `event` field and its
/// payload as the `data` object.
#[derive(Debug)]
pub enum EventKind {
    PendingContactRequest(PendingContactRequest),
    ReceivedContactRequest(PendingContactRequest),
    NewContact(NewContact),
    MessageSent(MessageSent),
    MessageReceived(MessageReceived),
}

/// An application event, as logged by the messenger contract.
#[derive(Debug)]
pub struct Event {
    pub standard: String,
    pub version: String,
    pub event_kind: EventKind,
}

/// The content of an event kind.
pub enum EventKindView {
    PendingContactRequest { sender: Seq<char>, receiver: Seq<char> },
    ReceivedContactRequest { sender: Seq<char>, receiver: Seq<char> },
    NewContact { this: Seq<char>, contact: Seq<char> },
    MessageSent { sender: Seq<char>, receiver: Seq<char> },
    MessageReceived { sender: Seq<char>, receiver: Seq<char>, message_id: Seq<u8> },
}

/// The content of an event.
pub struct EventView {
    pub standard: Seq<char>,
    pub version: Seq<char>,
    pub kind: EventKindView,
}

impl View for EventKind {
    type V = EventKindView;

    open spec fn view(&self) -> EventKindView {
        match self {
            EventKind::PendingContactRequest(x) => EventKindView::PendingContactRequest {
                sender: x.sender@,
                receiver: x.receiver@,
            },
            EventKind::ReceivedContactRequest(x) => EventKindView::ReceivedContactRequest {
                sender: x.sender@,
                receiver: x.receiver@,
            },
            EventKind::NewContact(x) => EventKindView::NewContact {
                this: x.this@,
                contact: x.contact@,
            },
            EventKind::MessageSent(x) => EventKindView::MessageSent {
                sender: x.sender@,
                receiver: x.receiver@,
            },
            EventKind::MessageReceived(x) => EventKindView::MessageReceived {
                sender: x.sender@,
                receiver: x.receiver@,
                message_id: x.message_id.0@,
            },
        }
    }
}

impl View for Event {
    type V = EventView;

    open spec fn view(&self) -> EventView {
        EventView { standard: self.standard@, version: self.version@, kind: self.event_kind@ }
    }
}

/// The name written in the `event` field for each kind.
pub open spec fn event_tag(k: EventKindView) -> Seq<char> {
    match k {
        EventKindView::PendingContactRequest { .. } => "pending_contact_request"@,
        EventKindView::ReceivedContactRequest { .. } => "received_contact_request"@,
        EventKindView::NewContact { .. } => "new_contact"@,
        EventKindView::MessageSent { .. } => "message_sent"@,
        EventKindView::MessageReceived { .. } => "message_received"@,
    }
}

/// A JSON object of two string members.
pub open spec fn pair_json(k1: Seq<char>, v1: Seq<char>, k2: Seq<char>, v2: Seq<char>) -> Seq<
    char,
> {
    seq!['{'] + member(k1, json_string(v1)) + seq![','] + member(k2, json_string(v2)) + seq!['}']
}

/// The `data` object of each kind, its members in declaration order.
pub open spec fn data_json(k: EventKindView) -> Seq<char> {
    match k {
        EventKindView::PendingContactRequest { sender, receiver } => pair_json(
            "sender"@,
            sender,
            "receiver"@,
            receiver,
        ),
        EventKindView::ReceivedContactRequest { sender, receiver } => pair_json(
            "sender"@,
            sender,
            "receiver"@,
            receiver,
        ),
        EventKindView::NewContact { this, contact } => pair_json(
            "this"@,
            this,
            "contact"@,
            contact,
        ),
        EventKindView::MessageSent { sender, receiver } => pair_json(
            "sender"@,
            sender,
            "receiver"@,
            receiver,
        ),
        EventKindView::MessageReceived { sender, receiver, message_id } => seq!['{'] + member(
            "sender"@,
            json_string(sender),
        ) + seq![','] + member("receiver"@, json_string(receiver)) + seq![','] + member(
            "message_id"@,
            json_string(base58_text(message_id)),
        ) + seq!['}'],
    }
}

/// The compact JSON text of an event: `standard`, `version`, `event`, `data`,
/// in that order, with no white space.
pub open spec fn event_json(e: EventView) -> Seq<char> {
    seq!['{'] + member("standard"@, json_string(e.standard)) + seq![','] + member(
        "version"@,
        json_string(e.version),
    ) + seq![','] + member("event"@, json_string(event_tag(e.kind))) + seq![','] + member(
        "data"@,
        data_json(e.kind),
    ) + seq!['}']
}

/// The prefix that marks a log line as carrying an event.
pub open spec fn sentinel() -> Seq<char> {
    "EVENT_JSON:"@
}

/// The log line that carries an event.
pub open spec fn event_log_line(e: EventView) -> Seq<char> {
    sentinel() + event_json(e)
}

fn push_pair(out: &mut Vec<char>, k1: &str, v1: &String, k2: &str, v2: &String)
    ensures
        final(out)@ == old(out)@ + pair_json(k1@, v1@, k2@, v2@),
{
    let ghost start = out@;
    out.push('{');
    push_string_member(out, k1, &chars_of(v1.as_str()));
    out.push(',');
    push_string_member(out, k2, &chars_of(v2.as_str()));
    out.push('}');
    assert(out@ =~= start + pair_json(k1@, v1@, k2@, v2@));
}

impl EventKind {
    /// The name written in the `event` field.
    pub fn tag(&self) -> (r: &'static str)
        ensures
            r@ == event_tag(self@),
    {
        match self {
            EventKind::PendingContactRequest(_) => "pending_contact_request",
            EventKind::ReceivedContactRequest(_) => "received_contact_request",
            EventKind::NewContact(_) => "new_contact",
            EventKind::MessageSent(_) => "message_sent",
            EventKind::MessageReceived(_) => "message_received",
        }
    }

    fn push_data(&self, out: &mut Vec<char>)
        ensures
            final(out)@ == old(out)@ + data_json(self@),
            id_reads_back(self@),
    {
        match self {
            EventKind::PendingContactRequest(x) => push_pair(
                out,
                "sender",
                &x.sender,
                "receiver",
                &x.receiver,
            ),
            EventKind::ReceivedContactRequest(x) => push_pair(
                out,
                "sender",
                &x.sender,
                "receiver",
                &x.receiver,
            ),
            EventKind::NewContact(x) => push_pair(out, "this", &x.this, "contact", &x.contact),
            EventKind::MessageSent(x) => push_pair(
                out,
                "sender",
                &x.sender,
                "receiver",
                &x.receiver,
            ),
            EventKind::MessageReceived(x) => {
                let ghost start = out@;
                out.push('{');
                push_string_member(out, "sender", &chars_of(x.sender.as_str()));
                out.push(',');
                push_string_member(out, "receiver", &chars_of(x.receiver.as_str()));
                out.push(',');
                let id = x.message_id.to_base58();
                push_string_member(out, "message_id", &chars_of(id.as_str()));
                out.push('}');
                assert(out@ =~= start + data_json(self@));
            },
        }
    }
}

impl Event {
    fn push_json(&self, out: &mut Vec<char>)
        ensures
            final(out)@ == old(out)@ + event_json(self@),
            id_reads_back(self.event_kind@),
    {
        let ghost start = out@;
        out.push('{');
        push_string_member(out, "standard", &chars_of(self.standard.as_str()));
        out.push(',');
        push_string_member(out, "version", &chars_of(self.version.as_str()));
        out.push(',');
        push_string_member(out, "event", &chars_of(self.event_kind.tag()));
        out.push(',');
        push_json_string(out, &chars_of("data"));
        out.push(':');
        self.event_kind.push_data(out);
        out.push('}');
        assert(out@ =~= start + event_json(self@));
    }

    /// The event's compact JSON text, as one line of the event log holds it.
    pub fn to_json(&self) -> (r: String)
        ensures
            r@ == event_json(self@),
            parse_event_json(r@) == Some(self@),
    {
        let mut out: Vec<char> = Vec::new();
        self.push_json(&mut out);
        proof {
            lemma_event_round_trip(self@);
        }
        assert(out@ =~= event_json(self@));
        string_of(&out)
    }

    /// The event as the contract writes it into the ledger's logs: the
    /// sentinel prefix, then the JSON text.
    pub fn to_log(&self) -> (r: String)
        ensures
            r@ == event_log_line(self@),
            parse_event_line(r@) == Some(self@),
    {
        let mut out: Vec<char> = Vec::new();
        push_str(&mut out, "EVENT_JSON:");
        self.push_json(&mut out);
        proof {
            lemma_event_round_trip(self@);
        }
        string_of(&out)
    }
}

impl Event {
    /// The event standard that the messenger contract follows.
    pub const STANDARD: &'static str = "NearMessenger";

    /// The version of that standard.
    pub const VERSION: &'static str = "1.0.0";

    fn with_kind(event_kind: EventKind) -> (r: Event)
        ensures
            r.standard@ == Self::STANDARD@,
            r.version@ == Self::VERSION@,
            r.event_kind == event_kind,
    {
        Event {
            standard: string_of(&chars_of(Self::STANDARD)),
            version: string_of(&chars_of(Self::VERSION)),
            event_kind,
        }
    }

    /// `sender` has sent a contact request to `receiver`.
    pub fn pending_contact_request(sender: &String, receiver: &String) -> (r: Event)
        ensures
            r.standard@ == Self::STANDARD@,
            r.version@ == Self::VERSION@,
            r.event_kind@ == (EventKindView::PendingContactRequest {
                sender: sender@,
                receiver: receiver@,
            }),
    {
        Self::with_kind(
            EventKind::PendingContactRequest(
                PendingContactRequest { sender: sender.clone(), receiver: receiver.clone() },
            ),
        )
    }

    /// `receiver` has received a contact request from `sender`.
    pub fn received_contact_request(sender: &String, receiver: &String) -> (r: Event)
        ensures
            r.standard@ == Self::STANDARD@,
            r.version@ == Self::VERSION@,
            r.event_kind@ == (EventKindView::ReceivedContactRequest {
                sender: sender@,
                receiver: receiver@,
            }),
    {
        Self::with_kind(
            EventKind::ReceivedContactRequest(
                PendingContactRequest { sender: sender.clone(), receiver: receiver.clone() },
            ),
        )
    }

    /// `this` has added `contact` as a contact.
    pub fn new_contact(this: &String, contact: &String) -> (r: Event)
        ensures
            r.standard@ == Self::STANDARD@,
            r.version@ == Self::VERSION@,
            r.event_kind@ == (EventKindView::NewContact { this: this@, contact: contact@ }),
    {
        Self::with_kind(
            EventKind::NewContact(NewContact { this: this.clone(), contact: contact.clone() }),
        )
    }

    /// `sender` has sent a message to `receiver`.
    pub fn message_sent(sender: &String, receiver: &String) -> (r: Event)
        ensures
            r.standard@ == Self::STANDARD@,
            r.version@ == Self::VERSION@,
            r.event_kind@ == (EventKindView::MessageSent { sender: sender@, receiver: receiver@ }),
    {
        Self::with_kind(
            EventKind::MessageSent(MessageSent { sender: sender.clone(), receiver: receiver.clone() }),
        )
    }

    /// `receiver` has received from `sender` the message with id `id`.
    pub fn message_received(sender: &String, receiver: &String, id: &MessageId) -> (r: Event)
        ensures
            r.standard@ == Self::STANDARD@,
            r.version@ == Self::VERSION@,
            r.event_kind@ == (EventKindView::MessageReceived {
                sender: sender@,
                receiver: receiver@,
                message_id: id.0@,
            }),
    {
        Self::with_kind(
            EventKind::MessageReceived(
                MessageReceived {
                    sender: sender.clone(),
                    receiver: receiver.clone(),
                    message_id: *id,
                },
            ),
        )
    }

    /// The contact request of a pending or a received contact request event.
    pub fn as_pending_contact_request(&self) -> (r: Option<&PendingContactRequest>)
        ensures
            match self.event_kind {
                EventKind::PendingContactRequest(x) => r == Some(&x),
                EventKind::ReceivedContactRequest(x) => r == Some(&x),
                _ => r is None,
            },
    {
        match &self.event_kind {
            EventKind::PendingContactRequest(x) => Some(x),
            EventKind::ReceivedContactRequest(x) => Some(x),
            _ => None,
        }
    }

    /// The payload of a new contact event.
    pub fn as_new_contact(&self) -> (r: Option<&NewContact>)
        ensures
            match self.event_kind {
                EventKind::NewContact(x) => r == Some(&x),
                _ => r is None,
            },
    {
        match &self.event_kind {
            EventKind::NewContact(x) => Some(x),
            _ => None,
        }
    }

    /// The payload of a message sent event.
    pub fn as_message_sent(&self) -> (r: Option<&MessageSent>)
        ensures
            match self.event_kind {
                EventKind::MessageSent(x) => r == Some(&x),
                _ => r is None,
            },
    {
        match &self.event_kind {
            EventKind::MessageSent(x) => Some(x),
            _ => None,
        }
    }

    /// The payload of a message received event.
    pub fn as_message_received(&self) -> (r: Option<&MessageReceived>)
        ensures
            match self.event_kind {
                EventKind::MessageReceived(x) => r == Some(&x),
                _ => r is None,
            },
    {
        match &self.event_kind {
            EventKind::MessageReceived(x) => Some(x),
            _ => None,
        }
    }
}

/// The string value of the first member named `key`.
pub open spec fn string_member(ms: Seq<(Seq<char>, JsonValue)>, key: Seq<char>) -> Option<
    Seq<char>,
> {
    match lookup(ms, key) {
        Some(JsonValue::Str(v)) => Some(v),
        _ => None,
    }
}

/// The kind of event that an `event` name and a `data` object describe.
/// Members that the kind does not use are ignored.
pub open spec fn kind_from(tag: Seq<char>, data: Seq<(Seq<char>, Seq<char>)>) -> Option<
    EventKindView,
> {
    let sender = lookup(data, "sender"@);
    let receiver = lookup(data, "receiver"@);
    if tag == "pending_contact_request"@ {
        if sender is Some && receiver is Some {
            Some(
                EventKindView::PendingContactRequest {
                    sender: sender->0,
                    receiver: receiver->0,
                },
            )
        } else {
            None
        }
    } else if tag == "received_contact_request"@ {
        if sender is Some && receiver is Some {
            Some(
                EventKindView::ReceivedContactRequest {
                    sender: sender->0,
                    receiver: receiver->0,
                },
            )
        } else {
            None
        }
    } else if tag == "new_contact"@ {
        let this = lookup(data, "this"@);
        let contact = lookup(data, "contact"@);
        if this is Some && contact is Some {
            Some(EventKindView::NewContact { this: this->0, contact: contact->0 })
        } else {
            None
        }
    } else if tag == "message_sent"@ {
        if sender is Some && receiver is Some {
            Some(EventKindView::MessageSent { sender: sender->0, receiver: receiver->0 })
        } else {
            None
        }
    } else if tag == "message_received"@ {
        let id = lookup(data, "message_id"@);
        if sender is Some && receiver is Some && id is Some && base58_hash(id->0) is Some {
            Some(
                EventKindView::MessageReceived {
                    sender: sender->0,
                    receiver: receiver->0,
                    message_id: base58_hash(id->0)->0,
                },
            )
        } else {
            None
        }
    } else {
        None
    }
}

/// The event that the members of a read object describe, if any.
pub open spec fn event_from(ms: Seq<(Seq<char>, JsonValue)>) -> Option<EventView> {
    let standard = string_member(ms, "standard"@);
    let version = string_member(ms, "version"@);
    let tag = string_member(ms, "event"@);
    match lookup(ms, "data"@) {
        Some(JsonValue::Obj(data)) => if standard is Some && version is Some && tag is Some {
            match kind_from(tag->0, data) {
                Some(kind) => Some(
                    EventView { standard: standard->0, version: version->0, kind },
                ),
                None => None,
            }
        } else {
            None
        },
        _ => None,
    }
}

/// The event that a JSON text holds, if it holds one.
pub open spec fn parse_event_json(text: Seq<char>) -> Option<EventView> {
    match parse_document(text) {
        Some(ms) => event_from(ms),
        None => None,
    }
}

/// The event that a log line carries: the line starts with the sentinel and
/// the rest is the JSON text of an event.
pub open spec fn parse_event_line(line: Seq<char>) -> Option<EventView> {
    if line.len() >= sentinel().len() && line.take(sentinel().len() as int) == sentinel() {
        parse_event_json(line.skip(sentinel().len() as int))
    } else {
        None
    }
}

/// The members of the `data` object of each kind, in the order they are written.
pub open spec fn data_pairs(k: EventKindView) -> Seq<(Seq<char>, Seq<char>)> {
    match k {
        EventKindView::PendingContactRequest { sender, receiver } => seq![
            ("sender"@, sender),
            ("receiver"@, receiver),
        ],
        EventKindView::ReceivedContactRequest { sender, receiver } => seq![
            ("sender"@, sender),
            ("receiver"@, receiver),
        ],
        EventKindView::NewContact { this, contact } => seq![("this"@, this), ("contact"@, contact)],
        EventKindView::MessageSent { sender, receiver } => seq![
            ("sender"@, sender),
            ("receiver"@, receiver),
        ],
        EventKindView::MessageReceived { sender, receiver, message_id } => seq![
            ("sender"@, sender),
            ("receiver"@, receiver),
            ("message_id"@, base58_text(message_id)),
        ],
    }
}

/// The message id of a kind, where it has one, reads back from its base58 text.
pub open spec fn id_reads_back(k: EventKindView) -> bool {
    k matches EventKindView::MessageReceived { message_id, .. } ==> base58_hash(
        base58_text(message_id),
    ) == Some(message_id)
}

proof fn lemma_data_reads_back(k: EventKindView, rest: Seq<char>)
    ensures
        parse_value(data_json(k) + rest) == Some((JsonValue::Obj(data_pairs(k)), rest)),
{
    match k {
        EventKindView::PendingContactRequest { sender, receiver } => {
            lemma_parse_pair_object("sender"@, sender, "receiver"@, receiver, rest);
        },
        EventKindView::ReceivedContactRequest { sender, receiver } => {
            lemma_parse_pair_object("sender"@, sender, "receiver"@, receiver, rest);
        },
        EventKindView::NewContact { this, contact } => {
            lemma_parse_pair_object("this"@, this, "contact"@, contact, rest);
        },
        EventKindView::MessageSent { sender, receiver } => {
            lemma_parse_pair_object("sender"@, sender, "receiver"@, receiver, rest);
        },
        EventKindView::MessageReceived { sender, receiver, message_id } => {
            lemma_parse_triple_object(
                "sender"@,
                sender,
                "receiver"@,
                receiver,
                "message_id"@,
                base58_text(message_id),
                rest,
            );
        },
    }
    lemma_parse_object_value(data_json(k), data_pairs(k), rest);
}

proof fn lemma_pair_lookups(k1: Seq<char>, v1: Seq<char>, k2: Seq<char>, v2: Seq<char>)
    requires
        k1.len() != k2.len(),
    ensures
        lookup(seq![(k1, v1), (k2, v2)], k1) == Some(v1),
        lookup(seq![(k1, v1), (k2, v2)], k2) == Some(v2),
{
    let d = seq![(k1, v1), (k2, v2)];
    assert(d.drop_first() =~= seq![(k2, v2)]);
    assert(k1 != k2);
    assert(lookup(d.drop_first(), k2) == Some(v2));
}

proof fn lemma_kind_reads_back(k: EventKindView)
    requires
        id_reads_back(k),
    ensures
        kind_from(event_tag(k), data_pairs(k)) == Some(k),
{
    reveal_strlit("pending_contact_request");
    reveal_strlit("received_contact_request");
    reveal_strlit("new_contact");
    reveal_strlit("message_sent");
    reveal_strlit("message_received");
    reveal_strlit("sender");
    reveal_strlit("receiver");
    match k {
        EventKindView::PendingContactRequest { sender, receiver } => {
            lemma_pair_lookups("sender"@, sender, "receiver"@, receiver);
        },
        EventKindView::ReceivedContactRequest { sender, receiver } => {
            lemma_pair_lookups("sender"@, sender, "receiver"@, receiver);
            assert(event_tag(k).len() != "pending_contact_request"@.len());
        },
        EventKindView::NewContact { this, contact } => {
            reveal_strlit("this");
            reveal_strlit("contact");
            lemma_pair_lookups("this"@, this, "contact"@, contact);
            assert(event_tag(k).len() != "pending_contact_request"@.len());
            assert(event_tag(k).len() != "received_contact_request"@.len());
        },
        EventKindView::MessageSent { sender, receiver } => {
            lemma_pair_lookups("sender"@, sender, "receiver"@, receiver);
            assert(event_tag(k).len() != "pending_contact_request"@.len());
            assert(event_tag(k).len() != "received_contact_request"@.len());
            assert(event_tag(k).len() != "new_contact"@.len());
        },
        EventKindView::MessageReceived { sender, receiver, message_id } => {
            reveal_strlit("message_id");
            let d = data_pairs(k);
            assert(d.drop_first() =~= seq![("receiver"@, receiver), ("message_id"@, base58_text(message_id))]);
            assert(d.drop_first().drop_first() =~= seq![("message_id"@, base58_text(message_id))]);
            assert("sender"@.len() != "message_id"@.len());
            assert("receiver"@.len() != "message_id"@.len());
            let id_text = base58_text(message_id);
            assert("sender"@ != "message_id"@);
            assert("receiver"@ != "message_id"@);
            assert("sender"@ != "receiver"@);
            assert(lookup(d, "sender"@) == Some(sender));
            assert(lookup(d.drop_first(), "receiver"@) == Some(receiver));
            assert(lookup(d, "receiver"@) == Some(receiver));
            assert(lookup(d.drop_first().drop_first(), "message_id"@) == Some(id_text));
            assert(lookup(d.drop_first(), "message_id"@) == Some(id_text));
            assert(lookup(d, "message_id"@) == Some(id_text));
            assert(event_tag(k).len() != "pending_contact_request"@.len());
            assert(event_tag(k).len() != "received_contact_request"@.len());
            assert(event_tag(k).len() != "new_contact"@.len());
            assert(event_tag(k).len() != "message_sent"@.len());
        },
    }
}

/// The members that the JSON text of an event reads back as.
pub open spec fn event_members(e: EventView) -> Seq<(Seq<char>, JsonValue)> {
    seq![
        ("standard"@, JsonValue::Str(e.standard)),
        ("version"@, JsonValue::Str(e.version)),
        ("event"@, JsonValue::Str(event_tag(e.kind))),
        ("data"@, JsonValue::Obj(data_pairs(e.kind))),
    ]
}

proof fn lemma_event_json_members(e: EventView)
    ensures
        parse_document(event_json(e)) == Some(event_members(e)),
{
    let t1 = json_string(e.standard);
    let t2 = json_string(e.version);
    let t3 = json_string(event_tag(e.kind));
    let t4 = data_json(e.kind);
    let tail3 = seq![','] + member("data"@, t4) + seq!['}'];
    let tail2 = seq![','] + member("event"@, t3) + tail3;
    let tail1 = seq![','] + member("version"@, t2) + tail2;
    lemma_parse_json_string(e.standard, tail1);
    lemma_parse_json_string(e.version, tail2);
    lemma_parse_json_string(event_tag(e.kind), tail3);
    lemma_data_reads_back(e.kind, seq!['}']);
    lemma_parse_four_members(
        "standard"@,
        t1,
        JsonValue::Str(e.standard),
        "version"@,
        t2,
        JsonValue::Str(e.version),
        "event"@,
        t3,
        JsonValue::Str(event_tag(e.kind)),
        "data"@,
        t4,
        JsonValue::Obj(data_pairs(e.kind)),
        tail1,
        tail2,
        tail3,
    );
    assert(event_json(e) =~= seq!['{'] + member("standard"@, t1) + tail1);
}

proof fn lemma_event_from_members(e: EventView)
    requires
        id_reads_back(e.kind),
    ensures
        event_from(event_members(e)) == Some(e),
{
    let ms = event_members(e);
    reveal_strlit("standard");
    reveal_strlit("version");
    reveal_strlit("event");
    reveal_strlit("data");
    assert(ms.drop_first() =~= seq![ms[1], ms[2], ms[3]]);
    assert(ms.drop_first().drop_first() =~= seq![ms[2], ms[3]]);
    assert(ms.drop_first().drop_first().drop_first() =~= seq![ms[3]]);
    let s1 = ms.drop_first();
    let s2 = s1.drop_first();
    let s3 = s2.drop_first();
    assert("standard"@.len() == 8);
    assert("version"@.len() == 7);
    assert("event"@.len() == 5);
    assert("data"@.len() == 4);
    assert("standard"@ != "version"@);
    assert("standard"@ != "event"@);
    assert("standard"@ != "data"@);
    assert("version"@ != "event"@);
    assert("version"@ != "data"@);
    assert("event"@ != "data"@);
    assert(lookup(ms, "standard"@) == Some(ms[0].1));
    assert(lookup(s1, "version"@) == Some(ms[1].1));
    assert(lookup(ms, "version"@) == Some(ms[1].1));
    assert(lookup(s2, "event"@) == Some(ms[2].1));
    assert(lookup(s1, "event"@) == Some(ms[2].1));
    assert(lookup(ms, "event"@) == Some(ms[2].1));
    assert(lookup(s3, "data"@) == Some(ms[3].1));
    assert(lookup(s2, "data"@) == Some(ms[3].1));
    assert(lookup(s1, "data"@) == Some(ms[3].1));
    assert(lookup(ms, "data"@) == Some(ms[3].1));
    lemma_kind_reads_back(e.kind);
}

/// Reading back the log line of an event gives the same event, for every
/// kind; for a received message, provided its id reads back from its base58
/// text, which the base58 codec guarantees for every id the library writes.
pub proof fn lemma_event_round_trip(e: EventView)
    requires
        id_reads_back(e.kind),
    ensures
        parse_event_json(event_json(e)) == Some(e),
        parse_event_line(event_log_line(e)) == Some(e),
{
    lemma_event_json_members(e);
    lemma_event_from_members(e);
    let line = event_log_line(e);
    reveal_strlit("EVENT_JSON:");
    assert(line.take(sentinel().len() as int) =~= sentinel());
    assert(line.skip(sentinel().len() as int) =~= event_json(e));
}

/// The position of the first member named `key`.
fn find_member(ms: &Vec<(Vec<char>, JValue)>, key: &str) -> (r: Option<usize>)
    ensures
        match r {
            Some(i) => i < ms@.len() && lookup(members_view(ms@), key@) == Some(ms@[i as int].1@),
            None => lookup(members_view(ms@), key@) is None,
        },
{
    let k = chars_of(key);
    let ghost mv = members_view(ms@);
    assert(mv.skip(0) =~= mv);
    let mut i: usize = 0;
    while i < ms.len()
        invariant
            0 <= i <= ms@.len(),
            mv == members_view(ms@),
            k@ == key@,
            lookup(mv, key@) == lookup(mv.skip(i as int), key@),
        decreases ms@.len() - i,
    {
        assert(mv.skip(i as int)[0] == (ms@[i as int].0@, ms@[i as int].1@));
        if same_text(&ms[i].0, &k) {
            return Some(i);
        }
        assert(mv.skip(i as int).drop_first() =~= mv.skip(i + 1));
        i = i + 1;
    }
    None
}

/// The string value of the first member named `key`.
fn string_member_of(ms: &Vec<(Vec<char>, JValue)>, key: &str) -> (r: Option<String>)
    ensures
        match r {
            Some(v) => string_member(members_view(ms@), key@) == Some(v@),
            None => string_member(members_view(ms@), key@) is None,
        },
{
    match find_member(ms, key) {
        Some(i) => match &ms[i].1 {
            JValue::Str(v) => Some(string_of(v)),
            JValue::Obj(_) => None,
        },
        None => None,
    }
}

/// The value of the first pair named `key`.
fn pair_value(d: &Vec<(Vec<char>, Vec<char>)>, key: &str) -> (r: Option<String>)
    ensures
        match r {
            Some(v) => lookup(pairs_view(d@), key@) == Some(v@),
            None => lookup(pairs_view(d@), key@) is None,
        },
{
    let k = chars_of(key);
    let ghost pv = pairs_view(d@);
    assert(pv.skip(0) =~= pv);
    let mut i: usize = 0;
    while i < d.len()
        invariant
            0 <= i <= d@.len(),
            pv == pairs_view(d@),
            k@ == key@,
            lookup(pv, key@) == lookup(pv.skip(i as int), key@),
        decreases d@.len() - i,
    {
        assert(pv.skip(i as int)[0] == (d@[i as int].0@, d@[i as int].1@));
        if same_text(&d[i].0, &k) {
            return Some(string_of(&d[i].1));
        }
        assert(pv.skip(i as int).drop_first() =~= pv.skip(i + 1));
        i = i + 1;
    }
    None
}

fn is_tag(tag: &Vec<char>, name: &str) -> (r: bool)
    ensures
        r == (tag@ == name@),
{
    same_text(tag, &chars_of(name))
}

/// Builds the kind of event that an `event` name and a `data` object describe.
fn kind_of(tag: &Vec<char>, data: &Vec<(Vec<char>, Vec<char>)>) -> (r: Option<EventKind>)
    ensures
        match r {
            Some(k) => kind_from(tag@, pairs_view(data@)) == Some(k@),
            None => kind_from(tag@, pairs_view(data@)) is None,
        },
{
    let sender = pair_value(data, "sender");
    let receiver = pair_value(data, "receiver");
    if is_tag(tag, "pending_contact_request") {
        match (sender, receiver) {
            (Some(sender), Some(receiver)) => Some(
                EventKind::PendingContactRequest(PendingContactRequest { sender, receiver }),
            ),
            _ => None,
        }
    } else if is_tag(tag, "received_contact_request") {
        match (sender, receiver) {
            (Some(sender), Some(receiver)) => Some(
                EventKind::ReceivedContactRequest(PendingContactRequest { sender, receiver }),
            ),
            _ => None,
        }
    } else if is_tag(tag, "new_contact") {
        match (pair_value(data, "this"), pair_value(data, "contact")) {
            (Some(this), Some(contact)) => Some(
                EventKind::NewContact(NewContact { this, contact }),
            ),
            _ => None,
        }
    } else if is_tag(tag, "message_sent") {
        match (sender, receiver) {
            (Some(sender), Some(receiver)) => Some(
                EventKind::MessageSent(MessageSent { sender, receiver }),
            ),
            _ => None,
        }
    } else if is_tag(tag, "message_received") {
        match (sender, receiver, pair_value(data, "message_id")) {
            (Some(sender), Some(receiver), Some(id)) => match MessageId::from_base58(
                id.as_str(),
            ) {
                Some(message_id) => Some(
                    EventKind::MessageReceived(MessageReceived { sender, receiver, message_id }),
                ),
                None => None,
            },
            _ => None,
        }
    } else {
        None
    }
}

/// Builds the event that the members of a read object describe.
fn event_of(ms: &Vec<(Vec<char>, JValue)>) -> (r: Option<Event>)
    ensures
        match r {
            Some(e) => event_from(members_view(ms@)) == Some(e@),
            None => event_from(members_view(ms@)) is None,
        },
{
    let data = match find_member(ms, "data") {
        Some(i) => match &ms[i].1 {
            JValue::Obj(d) => d,
            JValue::Str(_) => {
                return None;
            },
        },
        None => {
            return None;
        },
    };
    let standard = string_member_of(ms, "standard");
    let version = string_member_of(ms, "version");
    let tag = string_member_of(ms, "event");
    match (standard, version, tag) {
        (Some(standard), Some(version), Some(tag)) => {
            match kind_of(&chars_of(tag.as_str()), data) {
                Some(event_kind) => Some(Event { standard, version, event_kind }),
                None => None,
            }
        },
        _ => None,
    }
}

/// Reads the event that a log line carries: the line must start with
/// `EVENT_JSON:` and the rest must be the JSON text of one event. Any other
/// line gives `None`.
pub fn parse_event(log: &str) -> (r: Option<Event>)
    ensures
        match r {
            Some(e) => parse_event_line(log@) == Some(e@),
            None => parse_event_line(log@) is None,
        },
{
    let mut chars = chars_of(log);
    let prefix = chars_of("EVENT_JSON:");
    if !starts_with(&chars, &prefix) {
        return None;
    }
    let body = chars.split_off(prefix.len());
    match read_document(&body) {
        Some(ms) => event_of(&ms),
        None => None,
    }
}

} // verus!
