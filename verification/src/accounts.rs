use vstd::prelude::*;

verus! {

/// Where the mailbox lives and who asks for it.
#[derive(Debug, Clone)]
pub struct ImapAccountConfig {
    /// The server's host name.
    pub domain: String,
    /// The server's port.
    pub port: u16,
    /// The identity to log in with.
    pub email: String,
    /// The secret that goes with it.
    pub password: String,
}

} // verus!
