//! From the messages that an IMAP server returns to the previews of a page.

use crate::decode::{
    date_seconds, format_rfc3339, parse_addresses, parse_mail, parsed_addresses, parsed_mail,
    rfc3339_utc,
};
use crate::message::{
    author_text, body_text, first_author, first_header_value, first_value, has_header,
    lemma_first_plain_body, lemma_has_header, lemma_no_plain_body, option_text, plain_text,
    views, AddressText, MailboxText, MessageText, ParsedMessage,
};
use crate::range::{
    descending, is_largest_of, lemma_selection_ignores_listing_order, lemma_selection_len,
    lemma_selection_newest_first, selected_range, strictly_descending, window_len,
};
use crate::types::{MessagePreview, PreviewText};
use vstd::prelude::*;
use vstd::seq_lib::to_multiset_contains;
use vstd::string::*;

verus! {

/// Why a fetched message gave no preview.
#[derive(Debug, Clone, Copy, PartialEq, Eq)]
pub enum HeaderParseError {
    /// The server's answer held no bytes for the message.
    NoHeader,
    /// The message has no header of this name.
    NoHeaderField(&'static str),
    /// The bytes are not a well-formed message.
    Malformed,
    /// The `Date` header cannot be read as a point in time.
    BadDate,
    /// The `From` header does not start with a mailbox.
    BadAddress,
}

/// What a [`HeaderParseError`] says, as text.
pub enum ParseFailure {
    NoHeader,
    NoHeaderField(Seq<char>),
    Malformed,
    BadDate,
    BadAddress,
}

impl View for HeaderParseError {
    type V = ParseFailure;

    open spec fn view(&self) -> ParseFailure {
        match self {
            HeaderParseError::NoHeader => ParseFailure::NoHeader,
            HeaderParseError::NoHeaderField(name) => ParseFailure::NoHeaderField(name@),
            HeaderParseError::Malformed => ParseFailure::Malformed,
            HeaderParseError::BadDate => ParseFailure::BadDate,
            HeaderParseError::BadAddress => ParseFailure::BadAddress,
        }
    }
}

impl ParseFailure {
    /// The sentence that describes the failure.
    pub open spec fn message(self) -> Seq<char> {
        match self {
            ParseFailure::NoHeader => "fetch call didn't include headers"@,
            ParseFailure::NoHeaderField(name) => "couldn't find `"@ + name + "` header"@,
            ParseFailure::Malformed => "message is not well-formed"@,
            ParseFailure::BadDate => "couldn't read the `Date` header as a date"@,
            ParseFailure::BadAddress => "couldn't read the `From` header as a mailbox"@,
        }
    }
}

impl HeaderParseError {
    /// The sentence that describes the failure.
    pub fn message(&self) -> (text: String)
        ensures
            text@ == self@.message(),
    {
        match self {
            HeaderParseError::NoHeader => String::from_str("fetch call didn't include headers"),
            HeaderParseError::NoHeaderField(name) => {
                let mut text = String::from_str("couldn't find `");
                text.append(name);
                text.append("` header");
                text
            },
            HeaderParseError::Malformed => String::from_str("message is not well-formed"),
            HeaderParseError::BadDate => String::from_str(
                "couldn't read the `Date` header as a date",
            ),
            HeaderParseError::BadAddress => String::from_str(
                "couldn't read the `From` header as a mailbox",
            ),
        }
    }
}

/// One message of a server's answer to a fetch.
#[derive(Debug, Clone)]
pub struct FetchedMessage {
    /// The identifier that the server gives for the message.
    pub id: u32,
    /// The header block, where the answer holds it.
    pub header: Option<Vec<u8>>,
    /// The whole message, where the answer holds it.
    pub body: Option<Vec<u8>>,
}

/// What a [`FetchedMessage`] holds, as bytes.
pub struct FetchedBytes {
    pub id: u32,
    pub header: Option<Seq<u8>>,
    pub body: Option<Seq<u8>>,
}

/// The bytes of a buffer that may be missing.
pub open spec fn option_bytes(bytes: Option<Vec<u8>>) -> Option<Seq<u8>> {
    match bytes {
        Some(b) => Some(b@),
        None => None,
    }
}

impl View for FetchedMessage {
    type V = FetchedBytes;

    open spec fn view(&self) -> FetchedBytes {
        FetchedBytes {
            id: self.id,
            header: option_bytes(self.header),
            body: option_bytes(self.body),
        }
    }
}

/// A header field that a preview needs, after it was looked up and read.
#[derive(Debug, Clone)]
pub enum FieldValue {
    /// The message has no such header.
    Missing,
    /// The header is there, and what it holds cannot be read.
    Invalid,
    /// What the header holds, ready for the preview.
    Valid(String),
}

/// What a [`FieldValue`] says, as text.
pub enum FieldText {
    Missing,
    Invalid,
    Valid(Seq<char>),
}

impl View for FieldValue {
    type V = FieldText;

    open spec fn view(&self) -> FieldText {
        match self {
            FieldValue::Missing => FieldText::Missing,
            FieldValue::Invalid => FieldText::Invalid,
            FieldValue::Valid(text) => FieldText::Valid(text@),
        }
    }
}

/// What an extraction gives, as text.
pub open spec fn outcome_text(outcome: Result<MessagePreview, HeaderParseError>) -> Result<
    PreviewText,
    ParseFailure,
> {
    match outcome {
        Ok(preview) => Ok(preview@),
        Err(error) => Err(error@),
    }
}

/// The preview made of four fields, or the first thing that stands in its
/// way: a missing subject, then a missing or unreadable date, then a missing
/// or unreadable sender.
pub open spec fn composed(
    subject: Option<Seq<char>>,
    time: FieldText,
    author: FieldText,
    text: Seq<char>,
) -> Result<PreviewText, ParseFailure> {
    match subject {
        None => Err(ParseFailure::NoHeaderField("Subject"@)),
        Some(title) => match time {
            FieldText::Missing => Err(ParseFailure::NoHeaderField("Date"@)),
            FieldText::Invalid => Err(ParseFailure::BadDate),
            FieldText::Valid(time) => match author {
                FieldText::Missing => Err(ParseFailure::NoHeaderField("From"@)),
                FieldText::Invalid => Err(ParseFailure::BadAddress),
                FieldText::Valid(author) => Ok(PreviewText { title, author, time, text }),
            },
        },
    }
}

/// The time of a preview, read from the text of a `Date` header: the point
/// in time that the header names, written in RFC 3339 in UTC.
pub open spec fn time_of(date: Seq<char>) -> FieldText {
    match date_seconds(date) {
        None => FieldText::Invalid,
        Some(seconds) => match rfc3339_utc(seconds) {
            None => FieldText::Invalid,
            Some(text) => FieldText::Valid(text),
        },
    }
}

/// The author of a preview, read from the text of a `From` header.
pub open spec fn author_of(from: Seq<char>) -> FieldText {
    match parsed_addresses(from) {
        None => FieldText::Invalid,
        Some(addresses) => match author_text(addresses) {
            None => FieldText::Invalid,
            Some(author) => FieldText::Valid(author),
        },
    }
}

/// What a header of a message gives once `read` has read its value.
pub open spec fn field_of(
    message: MessageText,
    name: Seq<char>,
    read: spec_fn(Seq<char>) -> FieldText,
) -> FieldText {
    match first_value(message.headers, name) {
        None => FieldText::Missing,
        Some(value) => read(value),
    }
}

/// The preview of a parsed message.
pub open spec fn preview_of(message: MessageText) -> Result<PreviewText, ParseFailure> {
    composed(
        first_value(message.headers, "Subject"@),
        field_of(message, "Date"@, |date: Seq<char>| time_of(date)),
        field_of(message, "From"@, |from: Seq<char>| author_of(from)),
        plain_text(message),
    )
}

/// The bytes of a fetched message that a preview is read from: the whole
/// message where the answer holds it, else the header block.
pub open spec fn message_bytes(message: FetchedBytes) -> Option<Seq<u8>> {
    match message.body {
        Some(body) => Some(body),
        None => message.header,
    }
}

/// The preview of a fetched message.
pub open spec fn extracted(message: FetchedBytes) -> Result<PreviewText, ParseFailure> {
    match message_bytes(message) {
        None => Err(ParseFailure::NoHeader),
        Some(raw) => match parsed_mail(raw) {
            None => Err(ParseFailure::Malformed),
            Some(parsed) => preview_of(parsed),
        },
    }
}

/// Puts a preview together from its four fields, or says what stands in the
/// way. The subject is looked at first, then the date, then the sender.
pub fn compose_preview(
    subject: Option<String>,
    time: FieldValue,
    author: FieldValue,
    text: String,
) -> (outcome: Result<MessagePreview, HeaderParseError>)
    ensures
        outcome_text(outcome) == composed(option_text(subject), time@, author@, text@),
{
    let title = match subject {
        Some(title) => title,
        None => return Err(HeaderParseError::NoHeaderField("Subject")),
    };
    let time = match time {
        FieldValue::Valid(time) => time,
        FieldValue::Missing => return Err(HeaderParseError::NoHeaderField("Date")),
        FieldValue::Invalid => return Err(HeaderParseError::BadDate),
    };
    let author = match author {
        FieldValue::Valid(author) => author,
        FieldValue::Missing => return Err(HeaderParseError::NoHeaderField("From")),
        FieldValue::Invalid => return Err(HeaderParseError::BadAddress),
    };
    Ok(MessagePreview { title, author, time, text })
}

/// Reads the text of a `Date` header and writes the point in time that it
/// names in RFC 3339, in UTC.
pub fn resolve_time(date: &str) -> (time: FieldValue)
    ensures
        time@ == time_of(date@),
{
    match mailparse::dateparse(date) {
        Ok(seconds) => match format_rfc3339(seconds) {
            Some(text) => FieldValue::Valid(text),
            None => FieldValue::Invalid,
        },
        Err(_) => FieldValue::Invalid,
    }
}

/// Reads the text of a `From` header and picks the name to show for the
/// sender. Of several addresses only the first counts.
pub fn resolve_author(from: &str) -> (author: FieldValue)
    ensures
        author@ == author_of(from@),
{
    match parse_addresses(from) {
        Ok(addresses) => match first_author(&addresses) {
            Some(author) => FieldValue::Valid(author),
            None => FieldValue::Invalid,
        },
        Err(_) => FieldValue::Invalid,
    }
}

/// Makes the preview of a parsed message.
pub fn preview_from_parsed(message: &ParsedMessage) -> (outcome: Result<
    MessagePreview,
    HeaderParseError,
>)
    ensures
        outcome_text(outcome) == preview_of(message@),
{
    let subject = first_header_value(&message.headers, "Subject");
    let time = match first_header_value(&message.headers, "Date") {
        Some(date) => resolve_time(date.as_str()),
        None => FieldValue::Missing,
    };
    let author = match first_header_value(&message.headers, "From") {
        Some(from) => resolve_author(from.as_str()),
        None => FieldValue::Missing,
    };
    let text = body_text(message);
    compose_preview(subject, time, author, text)
}

/// Makes the preview of a fetched message.
pub fn parse_imap_message_preview(message: &FetchedMessage) -> (outcome: Result<
    MessagePreview,
    HeaderParseError,
>)
    ensures
        outcome_text(outcome) == extracted(message@),
{
    let raw = match &message.body {
        Some(body) => body,
        None => match &message.header {
            Some(header) => header,
            None => return Err(HeaderParseError::NoHeader),
        },
    };
    match parse_mail(raw.as_slice()) {
        Ok(parsed) => preview_from_parsed(&parsed),
        Err(_) => Err(HeaderParseError::Malformed),
    }
}

/// One place of a page: the identifier of the message that belongs there,
/// and its preview or the reason why there is none.
#[derive(Debug)]
pub struct PageEntry {
    pub id: u32,
    pub outcome: Result<MessagePreview, HeaderParseError>,
}

/// What a [`PageEntry`] says, as text.
pub struct EntryText {
    pub id: u32,
    pub outcome: Result<PreviewText, ParseFailure>,
}

impl View for PageEntry {
    type V = EntryText;

    open spec fn view(&self) -> EntryText {
        EntryText { id: self.id, outcome: outcome_text(self.outcome) }
    }
}

/// The first message of an answer that carries the identifier `id`.
pub open spec fn fetched_for(fetched: Seq<FetchedBytes>, id: u32) -> Option<FetchedBytes>
    decreases fetched.len(),
{
    if fetched.len() == 0 {
        None
    } else if fetched[0].id == id {
        Some(fetched[0])
    } else {
        fetched_for(fetched.drop_first(), id)
    }
}

/// The place of the message `id` in a page, given the server's answer.
pub open spec fn entry_for(fetched: Seq<FetchedBytes>, id: u32) -> EntryText {
    EntryText {
        id,
        outcome: match fetched_for(fetched, id) {
            None => Err(ParseFailure::NoHeader),
            Some(message) => extracted(message),
        },
    }
}

/// The page for the identifiers `selection`: one place for each of them, in
/// their order, whatever the order of the server's answer.
pub open spec fn page_entries(selection: Seq<u32>, fetched: Seq<FetchedBytes>) -> Seq<EntryText> {
    Seq::new(selection.len(), |i: int| entry_for(fetched, selection[i]))
}

/// The page from `start` to `stop` of a mailbox that lists the identifiers
/// `ids`, when the server answers the fetch with `fetched`.
pub open spec fn preview_page(
    ids: Seq<u32>,
    fetched: Seq<FetchedBytes>,
    start: int,
    stop: int,
) -> Seq<EntryText> {
    page_entries(selected_range(ids, start, stop), fetched)
}

/// The previews of a page, without the places that have none.
pub open spec fn previews_text(page: Seq<EntryText>) -> Seq<PreviewText>
    decreases page.len(),
{
    if page.len() == 0 {
        Seq::empty()
    } else {
        match page.last().outcome {
            Ok(preview) => previews_text(page.drop_last()).push(preview),
            Err(_) => previews_text(page.drop_last()),
        }
    }
}

/// Finds the first message of an answer that carries the identifier `id`.
pub fn find_fetched(fetched: &Vec<FetchedMessage>, id: u32) -> (found: Option<usize>)
    ensures
        match found {
            Some(at) => at < fetched@.len() && fetched_for(views(fetched@), id) == Some(
                fetched@[at as int]@,
            ),
            None => fetched_for(views(fetched@), id).is_none(),
        },
{
    let ghost all = views(fetched@);
    assert(all.skip(0) =~= all);
    let mut i: usize = 0;
    while i < fetched.len()
        invariant
            i <= fetched.len(),
            all == views(fetched@),
            fetched_for(all, id) == fetched_for(all.skip(i as int), id),
        decreases fetched.len() - i,
    {
        if fetched[i].id == id {
            return Some(i);
        }
        assert(all.skip(i as int).drop_first() =~= all.skip(i + 1));
        i += 1;
    }
    None
}

/// Makes the page for the identifiers `selection` out of the server's
/// answer to the fetch. Each message is looked up by its identifier, and a
/// message without a preview does not stand in the way of the others.
pub fn assemble_page(selection: &Vec<u32>, fetched: &Vec<FetchedMessage>) -> (page: Vec<
    PageEntry,
>)
    ensures
        views(page@) == page_entries(selection@, views(fetched@)),
        page@.len() == selection@.len(),
{
    let mut page: Vec<PageEntry> = Vec::new();
    let mut i: usize = 0;
    while i < selection.len()
        invariant
            i <= selection.len(),
            page@.len() == i,
            forall|k: int|
                0 <= k < i ==> (#[trigger] page@[k])@ == entry_for(views(fetched@), selection@[k]),
        decreases selection.len() - i,
    {
        let id: u32 = selection[i];
        let outcome = match find_fetched(fetched, id) {
            Some(at) => parse_imap_message_preview(&fetched[at]),
            None => Err(HeaderParseError::NoHeader),
        };
        page.push(PageEntry { id, outcome });
        i += 1;
    }
    page
}

/// Copies the previews of a page, in its order.
pub fn previews(page: &Vec<PageEntry>) -> (list: Vec<MessagePreview>)
    ensures
        views(list@) == previews_text(views(page@)),
{
    let ghost all = views(page@);
    let mut list: Vec<MessagePreview> = Vec::new();
    let mut i: usize = 0;
    while i < page.len()
        invariant
            i <= page.len(),
            all == views(page@),
            views(list@) == previews_text(all.take(i as int)),
        decreases page.len() - i,
    {
        assert(all.take(i + 1).drop_last() =~= all.take(i as int));
        match &page[i].outcome {
            Ok(preview) => {
                list.push(
                    MessagePreview {
                        title: preview.title.clone(),
                        author: preview.author.clone(),
                        time: preview.time.clone(),
                        text: preview.text.clone(),
                    },
                );
            },
            Err(_) => {},
        }
        i += 1;
    }
    assert(all.take(i as int) =~= all);
    list
}

/// No two messages of an answer carry the same identifier.
pub open spec fn distinct_ids(fetched: Seq<FetchedBytes>) -> bool {
    forall|i: int, j: int|
        0 <= i < j < fetched.len() ==> (#[trigger] fetched[i]).id != (#[trigger] fetched[j]).id
}

/// What is found under an identifier is a message of the answer that
/// carries it, and nothing is found only where no message carries it.
pub proof fn lemma_fetched_for(fetched: Seq<FetchedBytes>, id: u32)
    ensures
        match fetched_for(fetched, id) {
            Some(message) => message.id == id && fetched.contains(message),
            None => forall|i: int| 0 <= i < fetched.len() ==> (#[trigger] fetched[i]).id != id,
        },
    decreases fetched.len(),
{
    if fetched.len() > 0 && fetched[0].id != id {
        let rest = fetched.drop_first();
        lemma_fetched_for(rest, id);
        match fetched_for(rest, id) {
            Some(message) => {
                let at = choose|at: int| 0 <= at < rest.len() && rest[at] == message;
                assert(fetched[at + 1] == message);
            },
            None => {
                assert forall|i: int| 0 <= i < fetched.len() implies (#[trigger] fetched[i]).id
                    != id by {
                    if i > 0 {
                        assert(rest[i - 1] == fetched[i]);
                    }
                }
            },
        }
    }
}

/// Where no identifier occurs twice in an answer, the message found under
/// an identifier does not depend on the order of the answer.
pub proof fn lemma_lookup_ignores_answer_order(
    a: Seq<FetchedBytes>,
    b: Seq<FetchedBytes>,
    id: u32,
)
    requires
        a.to_multiset() == b.to_multiset(),
        distinct_ids(a),
    ensures
        fetched_for(a, id) == fetched_for(b, id),
{
    lemma_fetched_for(a, id);
    lemma_fetched_for(b, id);
    assert forall|m: FetchedBytes| a.contains(m) == b.contains(m) by {
        to_multiset_contains(a, m);
        to_multiset_contains(b, m);
    }
    match (fetched_for(a, id), fetched_for(b, id)) {
        (Some(in_a), Some(in_b)) => {
            assert(a.contains(in_b));
            let i = choose|i: int| 0 <= i < a.len() && a[i] == in_a;
            let j = choose|j: int| 0 <= j < a.len() && a[j] == in_b;
            assert(i == j);
        },
        (Some(in_a), None) => {
            assert(b.contains(in_a));
        },
        (None, Some(in_b)) => {
            assert(a.contains(in_b));
        },
        (None, None) => {},
    }
}

/// A page has one place for each message between its two offsets, each
/// offset cut down to the number of messages in the mailbox. So the page of
/// an empty mailbox is empty, and so is a page without width.
pub proof fn lemma_page_len(ids: Seq<u32>, fetched: Seq<FetchedBytes>, start: nat, stop: nat)
    ensures
        preview_page(ids, fetched, start as int, stop as int).len() == window_len(
            ids.len() as int,
            start as int,
            stop as int,
        ),
        ids.len() == 0 ==> preview_page(ids, fetched, start as int, stop as int).len() == 0,
        stop <= start ==> preview_page(ids, fetched, start as int, stop as int).len() == 0,
{
    lemma_selection_len(ids, start, stop);
}

/// The identifiers that the places of a page stand for, in their order.
pub open spec fn page_ids(page: Seq<EntryText>) -> Seq<u32> {
    Seq::new(page.len(), |i: int| page[i].id)
}

/// A page runs from newer to older. Its places stand for the selected
/// identifiers in their order, so no place carries a larger identifier than
/// a place before it, the first place carries the largest of the page, and
/// a page that starts at offset 0 starts with the largest identifier of the
/// mailbox. Where no identifier occurs twice in the mailbox, each place
/// carries a smaller identifier than the one before.
pub proof fn lemma_page_newest_first(
    ids: Seq<u32>,
    fetched: Seq<FetchedBytes>,
    start: nat,
    stop: nat,
)
    ensures
        page_ids(preview_page(ids, fetched, start as int, stop as int)) == selected_range(
            ids,
            start as int,
            stop as int,
        ),
        descending(page_ids(preview_page(ids, fetched, start as int, stop as int))),
        ids.no_duplicates() ==> strictly_descending(
            page_ids(preview_page(ids, fetched, start as int, stop as int)),
        ),
        preview_page(ids, fetched, start as int, stop as int).len() > 0 ==> is_largest_of(
            preview_page(ids, fetched, start as int, stop as int)[0].id,
            page_ids(preview_page(ids, fetched, start as int, stop as int)),
        ),
        start == 0 && preview_page(ids, fetched, start as int, stop as int).len() > 0
            ==> is_largest_of(preview_page(ids, fetched, start as int, stop as int)[0].id, ids),
{
    lemma_selection_newest_first(ids, start, stop);
    assert(page_ids(preview_page(ids, fetched, start as int, stop as int)) =~= selected_range(
        ids,
        start as int,
        stop as int,
    ));
}

/// Asking for one page twice gives the same page as long as the mailbox
/// holds the same messages: neither the order in which the server lists the
/// identifiers nor the order in which it returns the messages matters, and
/// nothing else goes into a page.
pub proof fn lemma_page_unchanged(
    ids_a: Seq<u32>,
    ids_b: Seq<u32>,
    fetched_a: Seq<FetchedBytes>,
    fetched_b: Seq<FetchedBytes>,
    start: nat,
    stop: nat,
)
    requires
        ids_a.to_multiset() == ids_b.to_multiset(),
        fetched_a.to_multiset() == fetched_b.to_multiset(),
        distinct_ids(fetched_a),
    ensures
        preview_page(ids_a, fetched_a, start as int, stop as int) == preview_page(
            ids_b,
            fetched_b,
            start as int,
            stop as int,
        ),
{
    lemma_selection_ignores_listing_order(ids_a, ids_b, start, stop);
    let selection = selected_range(ids_a, start as int, stop as int);
    assert forall|i: int| 0 <= i < selection.len() implies entry_for(fetched_a, selection[i])
        == entry_for(fetched_b, selection[i]) by {
        lemma_lookup_ignores_answer_order(fetched_a, fetched_b, selection[i]);
    }
}

/// A page hands out at most one preview for each of its places, and exactly
/// the previews of its places, in their order, where every place has one.
pub proof fn lemma_previews_of_page(page: Seq<EntryText>)
    ensures
        previews_text(page).len() <= page.len(),
        (forall|i: int| 0 <= i < page.len() ==> (#[trigger] page[i]).outcome is Ok) ==> {
            &&& previews_text(page).len() == page.len()
            &&& forall|i: int|
                0 <= i < page.len() ==> page[i].outcome == Ok::<PreviewText, ParseFailure>(
                    #[trigger] previews_text(page)[i],
                )
        },
    decreases page.len(),
{
    if page.len() > 0 {
        let rest = page.drop_last();
        lemma_previews_of_page(rest);
        if forall|i: int| 0 <= i < page.len() ==> (#[trigger] page[i]).outcome is Ok {
            assert forall|i: int| 0 <= i < rest.len() implies (#[trigger] rest[i]).outcome
                is Ok by {}
            assert forall|i: int| 0 <= i < page.len() implies page[i].outcome == Ok::<
                PreviewText,
                ParseFailure,
            >(#[trigger] previews_text(page)[i]) by {}
        }
    }
}

/// A message whose subject, date and sender can be read, and which is not
/// `multipart/alternative`, gives a preview of just these: the subject as it
/// stands, the sender's display name or else the address, the date in
/// RFC 3339, and the body of the message.
pub proof fn lemma_preview_keeps_fields(
    message: MessageText,
    subject: Seq<char>,
    date: Seq<char>,
    from: Seq<char>,
    body: Seq<char>,
    seconds: i64,
    time: Seq<char>,
    addresses: Seq<AddressText>,
    sender: MailboxText,
)
    requires
        first_value(message.headers, "Subject"@) == Some(subject),
        first_value(message.headers, "Date"@) == Some(date),
        first_value(message.headers, "From"@) == Some(from),
        date_seconds(date) == Some(seconds),
        rfc3339_utc(seconds) == Some(time),
        parsed_addresses(from) == Some(addresses),
        addresses.len() > 0,
        addresses[0] == AddressText::Single(sender),
        message.mimetype != "multipart/alternative"@,
        message.body == Some(body),
    ensures
        preview_of(message) == Ok::<PreviewText, ParseFailure>(
            PreviewText {
                title: subject,
                author: match sender.display_name {
                    Some(name) => name,
                    None => sender.address,
                },
                time,
                text: body,
            },
        ),
{
}

/// A `multipart/alternative` message shows the body of its first
/// `text/plain` part, whatever the other parts hold; where that part has no
/// readable body, it shows nothing.
pub proof fn lemma_alternative_shows_plain_part(message: MessageText, at: int)
    requires
        message.mimetype == "multipart/alternative"@,
        0 <= at < message.parts.len(),
        message.parts[at].mimetype == "text/plain"@,
        forall|i: int| 0 <= i < at ==> (#[trigger] message.parts[i]).mimetype != "text/plain"@,
    ensures
        plain_text(message) == match message.parts[at].body {
            Some(text) => text,
            None => Seq::empty(),
        },
{
    lemma_first_plain_body(message.parts, at);
}

/// A `multipart/alternative` message without a `text/plain` part shows
/// nothing.
pub proof fn lemma_alternative_without_plain_part(message: MessageText)
    requires
        message.mimetype == "multipart/alternative"@,
        forall|i: int|
            0 <= i < message.parts.len() ==> (#[trigger] message.parts[i]).mimetype
                != "text/plain"@,
    ensures
        plain_text(message) == Seq::<char>::empty(),
{
    lemma_no_plain_body(message.parts);
}

/// A message without a `Subject` header gives no preview but the report
/// that the subject is missing, and so for `Date` and `From`, looked at in
/// this order. A preview that is given carries the value of the first
/// `Subject` header, and the message has all three headers.
pub proof fn lemma_missing_header_is_reported(message: MessageText)
    ensures
        !has_header(message.headers, "Subject"@) ==> preview_of(message) == Err::<
            PreviewText,
            ParseFailure,
        >(ParseFailure::NoHeaderField("Subject"@)),
        has_header(message.headers, "Subject"@) && !has_header(message.headers, "Date"@)
            ==> preview_of(message) == Err::<PreviewText, ParseFailure>(
            ParseFailure::NoHeaderField("Date"@),
        ),
        has_header(message.headers, "Subject"@) && field_of(
            message,
            "Date"@,
            |date: Seq<char>| time_of(date),
        ) is Valid && !has_header(message.headers, "From"@) ==> preview_of(message) == Err::<
            PreviewText,
            ParseFailure,
        >(ParseFailure::NoHeaderField("From"@)),
        preview_of(message) matches Ok(preview) ==> {
            &&& first_value(message.headers, "Subject"@) == Some(preview.title)
            &&& has_header(message.headers, "Subject"@)
            &&& has_header(message.headers, "Date"@)
            &&& has_header(message.headers, "From"@)
        },
{
    lemma_has_header(message.headers, "Subject"@);
    lemma_has_header(message.headers, "Date"@);
    lemma_has_header(message.headers, "From"@);
}

} // verus!
