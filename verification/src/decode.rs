//! What the crates `mailparse` and `chrono` compute for this library.
//!
//! Nothing in this file is proved. Each item states what is taken on trust
//! of the function it calls; the rest of the crate is verified against these
//! statements.

use crate::message::{
    AddressText, MailAddress, MailHeader, Mailbox, MessagePart, MessageText, ParsedMessage, views,
};
use vstd::prelude::*;

verus! {

/// The error type of `mailparse`. Nothing is read from it.
#[verifier::external_type_specification]
#[verifier::external_body]
pub struct ExMailParseError(mailparse::MailParseError);

/// What `mailparse::parse_mail` finds in the bytes `raw`: the headers in
/// order, the content type, the decoded body and the immediate parts.
/// `None` where it rejects the bytes.
pub uninterp spec fn parsed_mail(raw: Seq<u8>) -> Option<MessageText>;

/// The UNIX time that `mailparse::dateparse` reads from the text of a `Date`
/// header. `None` where it rejects the text.
pub uninterp spec fn date_seconds(date: Seq<char>) -> Option<i64>;

/// The address list that `mailparse::addrparse` reads from the text of an
/// address header. `None` where it rejects the text.
pub uninterp spec fn parsed_addresses(header: Seq<char>) -> Option<Seq<AddressText>>;

/// The RFC 3339 text that `chrono` writes for a UNIX time in UTC. `None`
/// where the time lies outside the dates that `chrono` can hold.
pub uninterp spec fn rfc3339_utc(seconds: i64) -> Option<Seq<char>>;

/// Calls `mailparse::parse_mail` and copies out of its result, field by
/// field, what [`ParsedMessage`] holds: each header's `get_key()` and
/// `get_value()`, `ctype.mimetype`, `get_body()`, and the same two of each
/// entry of `subparts`. A body that `get_body()` cannot decode is `None`.
/// Trusted: the parse is a function of the bytes alone.
#[verifier::external_body]
pub(crate) fn parse_mail(raw: &[u8]) -> (parsed: Result<ParsedMessage, mailparse::MailParseError>)
    ensures
        parsed_mail(raw@) == match parsed {
            Ok(message) => Some(message@),
            Err(_) => None,
        },
{
    let mail = mailparse::parse_mail(raw)?;
    Ok(ParsedMessage {
        headers: mail.headers.iter().map(
            |h| MailHeader { name: h.get_key(), value: h.get_value() },
        ).collect(),
        mimetype: mail.ctype.mimetype.clone(),
        body: mail.get_body().ok(),
        parts: mail.subparts.iter().map(
            |p| MessagePart { mimetype: p.ctype.mimetype.clone(), body: p.get_body().ok() },
        ).collect(),
    })
}

/// `mailparse::dateparse`. Trusted: the result is a function of the text
/// alone.
pub assume_specification[ mailparse::dateparse ](date: &str) -> (seconds: Result<
    i64,
    mailparse::MailParseError,
>)
    ensures
        date_seconds(date@) == match seconds {
            Ok(t) => Some(t),
            Err(_) => None,
        },
;

/// Calls `mailparse::addrparse` and copies each entry of the list it returns:
/// a mailbox with its display name and address, a group with its name.
/// Trusted: the list is a function of the text alone.
#[verifier::external_body]
pub(crate) fn parse_addresses(header: &str) -> (list: Result<
    Vec<MailAddress>,
    mailparse::MailParseError,
>)
    ensures
        parsed_addresses(header@) == match list {
            Ok(addresses) => Some(views(addresses@)),
            Err(_) => None,
        },
{
    let list = mailparse::addrparse(header)?;
    Ok(
        list.into_inner().into_iter().map(
            |entry|
                match entry {
                    mailparse::MailAddr::Single(s) => MailAddress::Single(
                        Mailbox { display_name: s.display_name, address: s.addr },
                    ),
                    mailparse::MailAddr::Group(g) => MailAddress::Group(g.group_name),
                },
        ).collect(),
    )
}

/// Calls `chrono`'s `Utc.timestamp_opt(seconds, 0)` and, where that gives one
/// date, `to_rfc3339()` on it. Trusted: the text is a function of the number
/// alone.
#[verifier::external_body]
pub(crate) fn format_rfc3339(seconds: i64) -> (text: Option<String>)
    ensures
        rfc3339_utc(seconds) == match text {
            Some(t) => Some(t@),
            None => None,
        },
{
    chrono::TimeZone::timestamp_opt(&chrono::Utc, seconds, 0).single().map(|t| t.to_rfc3339())
}

} // verus!
