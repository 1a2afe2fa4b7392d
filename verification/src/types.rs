use vstd::prelude::*;

verus! {

/// The summary of one message, as handed to whatever renders it.
#[derive(Debug, Clone)]
pub struct MessagePreview {
    /// The message's subject.
    pub title: String,
    /// The sender's display name, or the bare address where there is none.
    pub author: String,
    /// When the message was sent: RFC 3339, in UTC, to the second.
    pub time: String,
    /// The plain-text body; empty where the message has none.
    pub text: String,
}

/// What a [`MessagePreview`] says, as text.
pub struct PreviewText {
    pub title: Seq<char>,
    pub author: Seq<char>,
    pub time: Seq<char>,
    pub text: Seq<char>,
}

impl View for MessagePreview {
    type V = PreviewText;

    open spec fn view(&self) -> PreviewText {
        PreviewText {
            title: self.title@,
            author: self.author@,
            time: self.time@,
            text: self.text@,
        }
    }
}

} // verus!
