//! The kinds of mailbox that previews can be read from.

pub mod imap;
