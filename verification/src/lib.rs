//! Previews of the newest messages of a mailbox: which identifiers to fetch,
//! what to ask the server for, and how a fetched message becomes a preview.
//!
//! The crate performs no I/O. A caller owns the connection, carries out the
//! [`session::SessionAction`]s that [`session::step`] asks for, and hands back
//! what the server answered as [`session::SessionEvent`]s.

pub mod accounts;
pub mod decode;
pub mod message;
pub mod providers;
pub mod range;
pub mod session;
pub mod text;
pub mod types;

pub use accounts::ImapAccountConfig;
pub use providers::imap::HeaderParseError;
pub use types::MessagePreview;
