//! A parsed message as plain data, and what a preview reads from it.

use crate::text::{eq_ignore_ascii_case, same_ignoring_ascii_case, text_eq};
use vstd::prelude::*;

verus! {

/// One header line: its name and its decoded value.
#[derive(Debug, Clone)]
pub struct MailHeader {
    pub name: String,
    pub value: String,
}

/// One immediate part of a multipart message.
#[derive(Debug, Clone)]
pub struct MessagePart {
    /// The part's content type, in lower case.
    pub mimetype: String,
    /// The part's body as text, where it could be decoded.
    pub body: Option<String>,
}

/// A message taken apart: its headers in the order they were written, its
/// content type, its own body and its immediate parts.
#[derive(Debug, Clone)]
pub struct ParsedMessage {
    pub headers: Vec<MailHeader>,
    /// The content type of the whole message, in lower case.
    pub mimetype: String,
    /// The body of the message itself as text, where it could be decoded.
    pub body: Option<String>,
    pub parts: Vec<MessagePart>,
}

/// One mailbox of an address header.
#[derive(Debug, Clone)]
pub struct Mailbox {
    pub display_name: Option<String>,
    pub address: String,
}

/// One entry of an address header: a mailbox, or a named group of them.
#[derive(Debug, Clone)]
pub enum MailAddress {
    Single(Mailbox),
    Group(String),
}

/// What a [`MailHeader`] says, as text.
pub struct HeaderText {
    pub name: Seq<char>,
    pub value: Seq<char>,
}

/// What a [`MessagePart`] says, as text.
pub struct PartText {
    pub mimetype: Seq<char>,
    pub body: Option<Seq<char>>,
}

/// What a [`ParsedMessage`] says, as text.
pub struct MessageText {
    pub headers: Seq<HeaderText>,
    pub mimetype: Seq<char>,
    pub body: Option<Seq<char>>,
    pub parts: Seq<PartText>,
}

/// What a [`Mailbox`] says, as text.
pub struct MailboxText {
    pub display_name: Option<Seq<char>>,
    pub address: Seq<char>,
}

/// What a [`MailAddress`] says, as text.
pub enum AddressText {
    Single(MailboxText),
    Group(Seq<char>),
}

/// The text of a string that may be missing.
pub open spec fn option_text(s: Option<String>) -> Option<Seq<char>> {
    match s {
        Some(s) => Some(s@),
        None => None,
    }
}

/// The views of the items of a sequence, in the same order.
pub open spec fn views<T: View>(items: Seq<T>) -> Seq<T::V> {
    Seq::new(items.len(), |i: int| items[i]@)
}

impl View for MailHeader {
    type V = HeaderText;

    open spec fn view(&self) -> HeaderText {
        HeaderText { name: self.name@, value: self.value@ }
    }
}

impl View for MessagePart {
    type V = PartText;

    open spec fn view(&self) -> PartText {
        PartText { mimetype: self.mimetype@, body: option_text(self.body) }
    }
}

impl View for ParsedMessage {
    type V = MessageText;

    open spec fn view(&self) -> MessageText {
        MessageText {
            headers: views(self.headers@),
            mimetype: self.mimetype@,
            body: option_text(self.body),
            parts: views(self.parts@),
        }
    }
}

impl View for Mailbox {
    type V = MailboxText;

    open spec fn view(&self) -> MailboxText {
        MailboxText { display_name: option_text(self.display_name), address: self.address@ }
    }
}

impl View for MailAddress {
    type V = AddressText;

    open spec fn view(&self) -> AddressText {
        match self {
            MailAddress::Single(mailbox) => AddressText::Single(mailbox@),
            MailAddress::Group(name) => AddressText::Group(name@),
        }
    }
}

/// The value of the first header whose name is `key`, whatever the case of
/// its ASCII letters.
pub open spec fn first_value(headers: Seq<HeaderText>, key: Seq<char>) -> Option<Seq<char>>
    decreases headers.len(),
{
    if headers.len() == 0 {
        None
    } else if same_ignoring_ascii_case(headers[0].name, key) {
        Some(headers[0].value)
    } else {
        first_value(headers.drop_first(), key)
    }
}

/// The body of the first part whose content type is `text/plain`.
/// `None` where no part has that type; `Some(None)` where the first such
/// part has no readable body.
pub open spec fn first_plain_body(parts: Seq<PartText>) -> Option<Option<Seq<char>>>
    decreases parts.len(),
{
    if parts.len() == 0 {
        None
    } else if parts[0].mimetype == "text/plain"@ {
        Some(parts[0].body)
    } else {
        first_plain_body(parts.drop_first())
    }
}

/// The text that a preview shows for a message. A `multipart/alternative`
/// message shows the body of its first `text/plain` part, any other message
/// its own body. Where that body is missing or unreadable the text is empty.
pub open spec fn plain_text(message: MessageText) -> Seq<char> {
    let chosen = if message.mimetype == "multipart/alternative"@ {
        match first_plain_body(message.parts) {
            Some(body) => body,
            None => None,
        }
    } else {
        message.body
    };
    match chosen {
        Some(text) => text,
        None => Seq::empty(),
    }
}

/// The name to show for the sender: the display name of the first address
/// where it has one, else its bare address. There is none where the list is
/// empty or starts with a group.
pub open spec fn author_text(addresses: Seq<AddressText>) -> Option<Seq<char>> {
    if addresses.len() == 0 {
        None
    } else {
        match addresses[0] {
            AddressText::Single(mailbox) => match mailbox.display_name {
                Some(name) => Some(name),
                None => Some(mailbox.address),
            },
            AddressText::Group(_) => None,
        }
    }
}

/// The header has the name `key`, whatever the case of its ASCII letters.
pub open spec fn is_named(header: HeaderText, key: Seq<char>) -> bool {
    same_ignoring_ascii_case(header.name, key)
}

/// Some header has the name `key`.
pub open spec fn has_header(headers: Seq<HeaderText>, key: Seq<char>) -> bool {
    exists|i: int| 0 <= i < headers.len() && is_named(#[trigger] headers[i], key)
}

/// A value is found under a name just where some header has the name.
pub proof fn lemma_has_header(headers: Seq<HeaderText>, key: Seq<char>)
    ensures
        has_header(headers, key) == first_value(headers, key).is_some(),
    decreases headers.len(),
{
    if headers.len() > 0 {
        let rest = headers.drop_first();
        lemma_has_header(rest, key);
        if has_header(rest, key) {
            let i = choose|i: int| 0 <= i < rest.len() && is_named(#[trigger] rest[i], key);
            assert(is_named(headers[i + 1], key));
        } else if !is_named(headers[0], key) && has_header(headers, key) {
            let i = choose|i: int|
                0 <= i < headers.len() && is_named(#[trigger] headers[i], key);
            assert(is_named(rest[i - 1], key));
        }
    }
}

/// What [`first_plain_body`] finds: the body of the part before which no
/// part is `text/plain`.
pub proof fn lemma_first_plain_body(parts: Seq<PartText>, at: int)
    requires
        0 <= at < parts.len(),
        parts[at].mimetype == "text/plain"@,
        forall|i: int| 0 <= i < at ==> (#[trigger] parts[i]).mimetype != "text/plain"@,
    ensures
        first_plain_body(parts) == Some(parts[at].body),
    decreases parts.len(),
{
    if at > 0 {
        let rest = parts.drop_first();
        assert forall|i: int| 0 <= i < at - 1 implies (#[trigger] rest[i]).mimetype
            != "text/plain"@ by {
            assert(rest[i] == parts[i + 1]);
        }
        lemma_first_plain_body(rest, at - 1);
    }
}

/// [`first_plain_body`] finds nothing where no part is `text/plain`.
pub proof fn lemma_no_plain_body(parts: Seq<PartText>)
    requires
        forall|i: int| 0 <= i < parts.len() ==> (#[trigger] parts[i]).mimetype != "text/plain"@,
    ensures
        first_plain_body(parts).is_none(),
    decreases parts.len(),
{
    if parts.len() > 0 {
        let rest = parts.drop_first();
        assert forall|i: int| 0 <= i < rest.len() implies (#[trigger] rest[i]).mimetype
            != "text/plain"@ by {
            assert(rest[i] == parts[i + 1]);
        }
        lemma_no_plain_body(rest);
    }
}

/// Looks a header up by name; the case of ASCII letters in the name does not
/// matter, and of several headers with that name the first one counts.
pub fn first_header_value(headers: &Vec<MailHeader>, key: &str) -> (found: Option<String>)
    ensures
        option_text(found) == first_value(views(headers@), key@),
{
    let ghost all = views(headers@);
    assert(all.skip(0) =~= all);
    let mut i: usize = 0;
    while i < headers.len()
        invariant
            i <= headers.len(),
            all == views(headers@),
            first_value(all, key@) == first_value(all.skip(i as int), key@),
        decreases headers.len() - i,
    {
        let header = &headers[i];
        if eq_ignore_ascii_case(header.name.as_str(), key) {
            return Some(header.value.clone());
        }
        assert(all.skip(i as int).drop_first() =~= all.skip(i + 1));
        i += 1;
    }
    None
}

/// Picks the text that a preview shows for `message`.
pub fn body_text(message: &ParsedMessage) -> (text: String)
    ensures
        text@ == plain_text(message@),
{
    if text_eq(message.mimetype.as_str(), "multipart/alternative") {
        let ghost all = views(message.parts@);
        assert(all.skip(0) =~= all);
        let mut i: usize = 0;
        while i < message.parts.len()
            invariant
                i <= message.parts.len(),
                message.mimetype@ == "multipart/alternative"@,
                all == views(message.parts@),
                first_plain_body(all) == first_plain_body(all.skip(i as int)),
            decreases message.parts.len() - i,
        {
            let part = &message.parts[i];
            if text_eq(part.mimetype.as_str(), "text/plain") {
                return match &part.body {
                    Some(body) => body.clone(),
                    None => String::new(),
                };
            }
            assert(all.skip(i as int).drop_first() =~= all.skip(i + 1));
            i += 1;
        }
        String::new()
    } else {
        match &message.body {
            Some(body) => body.clone(),
            None => String::new(),
        }
    }
}

/// Picks the name to show for the sender out of a parsed address header.
pub fn first_author(addresses: &Vec<MailAddress>) -> (author: Option<String>)
    ensures
        option_text(author) == author_text(views(addresses@)),
{
    if addresses.len() == 0 {
        return None;
    }
    match &addresses[0] {
        MailAddress::Single(mailbox) => match &mailbox.display_name {
            Some(name) => Some(name.clone()),
            None => Some(mailbox.address.clone()),
        },
        MailAddress::Group(_) => None,
    }
}

} // verus!
