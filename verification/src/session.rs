//! The life of one session with a mail server, as a state machine.
//!
//! The machine does no I/O. It is told what the caller wants and what the
//! server answered, one [`SessionEvent`] at a time, and says what to do
//! next as a [`SessionAction`]. At most one request is under way at any
//! time; an event that the state does not await changes nothing and is
//! answered with [`SessionError::OutOfTurn`].

use crate::accounts::ImapAccountConfig;
use crate::message::views;
use crate::providers::imap::{
    assemble_page, page_entries, preview_page, EntryText, FetchedMessage, PageEntry,
};
use crate::range::{
    fetch_request, query_text, select_range, selected_range, sequence_set_text, FetchRequest,
    RangeRequest,
};
use vstd::prelude::*;

verus! {

/// Why a request on the session failed. The text is the reason that the
/// transport or the server gave.
#[derive(Debug)]
pub enum SessionError {
    /// The transport could not be opened.
    Connect(String),
    /// The server turned the credentials down.
    Auth(String),
    /// The server did not open the mailbox.
    Select(String),
    /// The server did not list the messages of the mailbox.
    Search(String),
    /// The fetch was turned down, or the connection broke under it.
    Fetch(String),
    /// The event is not one that the session awaits in its state.
    OutOfTurn,
}

/// How far a session has come.
#[derive(Debug, Clone, Copy, PartialEq, Eq)]
pub enum SessionPhase {
    Unconnected,
    Connected,
    Authenticated,
    MailboxSelected,
    Closed,
}

/// The state of a session: how far it has come, and which answer it awaits.
#[derive(Debug)]
pub enum SessionState {
    /// Nothing has happened yet.
    Unconnected,
    /// The transport is being opened; the credentials wait for it.
    Connecting { identity: String, secret: String },
    /// The credentials are with the server.
    Authenticating,
    /// Logged in; no mailbox is open and no request is under way.
    Authenticated,
    /// The mailbox is being opened for a page. `reselect` says that it was
    /// open before.
    Selecting { range: RangeRequest, reselect: bool },
    /// The mailbox is open and its messages are being listed for a page.
    Searching { range: RangeRequest },
    /// The messages `selection` of a page are being fetched.
    Fetching { selection: Vec<u32> },
    /// The mailbox is open and no request is under way.
    MailboxSelected,
    /// The session is over.
    Closed,
}

/// What happens to a session: a wish of the caller, or an answer of the
/// server to the action before.
#[derive(Debug)]
pub enum SessionEvent {
    /// The caller wants to log in.
    Login(ImapAccountConfig),
    /// The caller wants a page of previews.
    FetchPage(RangeRequest),
    /// The caller wants to end the session.
    Logout,
    /// The transport is open.
    Connected,
    /// The transport could not be opened.
    ConnectFailed(String),
    /// The server took the credentials.
    LoggedIn,
    /// The server turned the credentials down.
    LoginRejected(String),
    /// The mailbox is open.
    Selected,
    /// The server did not open the mailbox.
    SelectRejected(String),
    /// The identifiers of all messages of the mailbox, in any order.
    Found(Vec<u32>),
    /// The server did not list the messages.
    SearchRejected(String),
    /// The messages that the server returned for the fetch, in any order.
    Fetched(Vec<FetchedMessage>),
    /// The fetch was turned down, or the connection broke under it.
    FetchFailed(String),
}

/// What the caller does next: a request to the server, whose answer comes
/// back as the next event, or an outcome of what the caller asked for.
#[derive(Debug)]
pub enum SessionAction {
    /// Open an encrypted transport to the server.
    Connect { host: String, port: u16 },
    /// Log in with the credentials.
    Authenticate { identity: String, secret: String },
    /// Open the mailbox.
    Select { mailbox: &'static str },
    /// List the identifiers of the messages of the open mailbox that match
    /// the query.
    Search { query: &'static str },
    /// Fetch the messages of a page in one request.
    Fetch(FetchRequest),
    /// Tell the server that the session ends; no answer is awaited.
    Logout,
    /// Outcome: the session is logged in.
    Ready,
    /// Outcome: the page that was asked for.
    Page(Vec<PageEntry>),
    /// Outcome: what was asked for has failed.
    Fail(SessionError),
}

/// The mailbox that pages are read from.
pub open spec fn mailbox_text() -> Seq<char> {
    "INBOX"@
}

/// The search that every message of a mailbox matches.
pub open spec fn search_text() -> Seq<char> {
    "ALL"@
}

impl SessionState {
    /// How far the session has come.
    pub open spec fn phase(self) -> SessionPhase {
        match self {
            SessionState::Unconnected => SessionPhase::Unconnected,
            SessionState::Connecting { .. } => SessionPhase::Unconnected,
            SessionState::Authenticating => SessionPhase::Connected,
            SessionState::Authenticated => SessionPhase::Authenticated,
            SessionState::Selecting { reselect, .. } => if reselect {
                SessionPhase::MailboxSelected
            } else {
                SessionPhase::Authenticated
            },
            SessionState::Searching { .. } => SessionPhase::MailboxSelected,
            SessionState::Fetching { .. } => SessionPhase::MailboxSelected,
            SessionState::MailboxSelected => SessionPhase::MailboxSelected,
            SessionState::Closed => SessionPhase::Closed,
        }
    }

    /// Whether no request is under way, so that the caller may ask for a
    /// page or end the session.
    pub open spec fn idle(self) -> bool {
        self is Authenticated || self is MailboxSelected
    }

    /// How far the session has come.
    pub fn current_phase(&self) -> (phase: SessionPhase)
        ensures
            phase == self.phase(),
    {
        match self {
            SessionState::Unconnected => SessionPhase::Unconnected,
            SessionState::Connecting { .. } => SessionPhase::Unconnected,
            SessionState::Authenticating => SessionPhase::Connected,
            SessionState::Authenticated => SessionPhase::Authenticated,
            SessionState::Selecting { reselect, .. } => if *reselect {
                SessionPhase::MailboxSelected
            } else {
                SessionPhase::Authenticated
            },
            SessionState::Searching { .. } => SessionPhase::MailboxSelected,
            SessionState::Fetching { .. } => SessionPhase::MailboxSelected,
            SessionState::MailboxSelected => SessionPhase::MailboxSelected,
            SessionState::Closed => SessionPhase::Closed,
        }
    }
}

impl SessionPhase {
    /// The place of the phase in the life of a session.
    pub open spec fn rank(self) -> int {
        match self {
            SessionPhase::Unconnected => 0,
            SessionPhase::Connected => 1,
            SessionPhase::Authenticated => 2,
            SessionPhase::MailboxSelected => 3,
            SessionPhase::Closed => 4,
        }
    }
}

/// The action is the page `entries`.
pub open spec fn is_page(action: SessionAction, entries: Seq<EntryText>) -> bool {
    &&& action matches SessionAction::Page(page)
    &&& page@.len() == entries.len()
    &&& views(page@) == entries
}

/// The action is the one fetch of all of `selection`, bodies included.
pub open spec fn is_fetch_of(action: SessionAction, selection: Seq<u32>) -> bool {
    &&& action matches SessionAction::Fetch(request)
    &&& request.sequence_set@ == sequence_set_text(selection)
    &&& request.query@ == query_text(true)
}

/// What [`step`] makes of an event in a state: the state after it, and the
/// action that goes with it.
pub open spec fn step_spec(
    state: SessionState,
    event: SessionEvent,
    next: SessionState,
    action: SessionAction,
) -> bool {
    match (state, event) {
        (SessionState::Unconnected, SessionEvent::Login(config)) => {
            &&& next == (SessionState::Connecting {
                identity: config.email,
                secret: config.password,
            })
            &&& action == (SessionAction::Connect { host: config.domain, port: config.port })
        },
        (SessionState::Connecting { identity, secret }, SessionEvent::Connected) => {
            &&& next == SessionState::Authenticating
            &&& action == (SessionAction::Authenticate { identity, secret })
        },
        (SessionState::Connecting { .. }, SessionEvent::ConnectFailed(reason)) => {
            &&& next == SessionState::Closed
            &&& action == SessionAction::Fail(SessionError::Connect(reason))
        },
        (SessionState::Authenticating, SessionEvent::LoggedIn) => {
            &&& next == SessionState::Authenticated
            &&& action == SessionAction::Ready
        },
        (SessionState::Authenticating, SessionEvent::LoginRejected(reason)) => {
            &&& next == SessionState::Closed
            &&& action == SessionAction::Fail(SessionError::Auth(reason))
        },
        (SessionState::Authenticated, SessionEvent::FetchPage(range)) => if range.stop
            <= range.start {
            next == state && is_page(action, Seq::empty())
        } else {
            &&& next == (SessionState::Selecting { range, reselect: false })
            &&& action matches SessionAction::Select { mailbox }
            &&& mailbox@ == mailbox_text()
        },
        (SessionState::MailboxSelected, SessionEvent::FetchPage(range)) => if range.stop
            <= range.start {
            next == state && is_page(action, Seq::empty())
        } else {
            &&& next == (SessionState::Selecting { range, reselect: true })
            &&& action matches SessionAction::Select { mailbox }
            &&& mailbox@ == mailbox_text()
        },
        (SessionState::Selecting { range, .. }, SessionEvent::Selected) => {
            &&& next == (SessionState::Searching { range })
            &&& action matches SessionAction::Search { query }
            &&& query@ == search_text()
        },
        (SessionState::Selecting { reselect, .. }, SessionEvent::SelectRejected(reason)) => {
            &&& next == (if reselect {
                SessionState::MailboxSelected
            } else {
                SessionState::Authenticated
            })
            &&& action == SessionAction::Fail(SessionError::Select(reason))
        },
        (SessionState::Searching { range }, SessionEvent::Found(ids)) => {
            let selection = selected_range(ids@, range.start as int, range.stop as int);
            if selection.len() == 0 {
                next == SessionState::MailboxSelected && is_page(action, Seq::empty())
            } else {
                &&& next matches SessionState::Fetching { selection: held }
                &&& held@ == selection
                &&& is_fetch_of(action, selection)
            }
        },
        (SessionState::Searching { .. }, SessionEvent::SearchRejected(reason)) => {
            &&& next == SessionState::MailboxSelected
            &&& action == SessionAction::Fail(SessionError::Search(reason))
        },
        (SessionState::Fetching { selection }, SessionEvent::Fetched(messages)) => {
            &&& next == SessionState::MailboxSelected
            &&& is_page(action, page_entries(selection@, views(messages@)))
        },
        (SessionState::Fetching { .. }, SessionEvent::FetchFailed(reason)) => {
            &&& next == SessionState::MailboxSelected
            &&& action == SessionAction::Fail(SessionError::Fetch(reason))
        },
        (SessionState::Authenticated, SessionEvent::Logout) => {
            &&& next == SessionState::Closed
            &&& action == SessionAction::Logout
        },
        (SessionState::MailboxSelected, SessionEvent::Logout) => {
            &&& next == SessionState::Closed
            &&& action == SessionAction::Logout
        },
        _ => {
            &&& next == state
            &&& action == SessionAction::Fail(SessionError::OutOfTurn)
        },
    }
}

/// The page without a place.
fn empty_page() -> (action: SessionAction)
    ensures
        is_page(action, Seq::empty()),
{
    let page: Vec<PageEntry> = Vec::new();
    assert(views(page@) =~= Seq::empty());
    SessionAction::Page(page)
}

/// Takes one event in a state and says what state follows and what to do.
pub fn step(state: SessionState, event: SessionEvent) -> (next: (SessionState, SessionAction))
    ensures
        step_spec(state, event, next.0, next.1),
{
    match (state, event) {
        (SessionState::Unconnected, SessionEvent::Login(config)) => (
            SessionState::Connecting { identity: config.email, secret: config.password },
            SessionAction::Connect { host: config.domain, port: config.port },
        ),
        (SessionState::Connecting { identity, secret }, SessionEvent::Connected) => (
            SessionState::Authenticating,
            SessionAction::Authenticate { identity, secret },
        ),
        (SessionState::Connecting { .. }, SessionEvent::ConnectFailed(reason)) => (
            SessionState::Closed,
            SessionAction::Fail(SessionError::Connect(reason)),
        ),
        (SessionState::Authenticating, SessionEvent::LoggedIn) => (
            SessionState::Authenticated,
            SessionAction::Ready,
        ),
        (SessionState::Authenticating, SessionEvent::LoginRejected(reason)) => (
            SessionState::Closed,
            SessionAction::Fail(SessionError::Auth(reason)),
        ),
        (SessionState::Authenticated, SessionEvent::FetchPage(range)) => {
            if range.stop <= range.start {
                (SessionState::Authenticated, empty_page())
            } else {
                (
                    SessionState::Selecting { range, reselect: false },
                    SessionAction::Select { mailbox: "INBOX" },
                )
            }
        },
        (SessionState::MailboxSelected, SessionEvent::FetchPage(range)) => {
            if range.stop <= range.start {
                (SessionState::MailboxSelected, empty_page())
            } else {
                (
                    SessionState::Selecting { range, reselect: true },
                    SessionAction::Select { mailbox: "INBOX" },
                )
            }
        },
        (SessionState::Selecting { range, .. }, SessionEvent::Selected) => (
            SessionState::Searching { range },
            SessionAction::Search { query: "ALL" },
        ),
        (SessionState::Selecting { reselect, .. }, SessionEvent::SelectRejected(reason)) => (
            if reselect {
                SessionState::MailboxSelected
            } else {
                SessionState::Authenticated
            },
            SessionAction::Fail(SessionError::Select(reason)),
        ),
        (SessionState::Searching { range }, SessionEvent::Found(ids)) => {
            let selection = select_range(ids, range.start, range.stop);
            if selection.len() == 0 {
                (SessionState::MailboxSelected, empty_page())
            } else {
                let request = fetch_request(&selection, true);
                (SessionState::Fetching { selection }, SessionAction::Fetch(request))
            }
        },
        (SessionState::Searching { .. }, SessionEvent::SearchRejected(reason)) => (
            SessionState::MailboxSelected,
            SessionAction::Fail(SessionError::Search(reason)),
        ),
        (SessionState::Fetching { selection }, SessionEvent::Fetched(messages)) => {
            let page = assemble_page(&selection, &messages);
            (SessionState::MailboxSelected, SessionAction::Page(page))
        },
        (SessionState::Fetching { .. }, SessionEvent::FetchFailed(reason)) => (
            SessionState::MailboxSelected,
            SessionAction::Fail(SessionError::Fetch(reason)),
        ),
        (SessionState::Authenticated, SessionEvent::Logout) => (
            SessionState::Closed,
            SessionAction::Logout,
        ),
        (SessionState::MailboxSelected, SessionEvent::Logout) => (
            SessionState::Closed,
            SessionAction::Logout,
        ),
        (state, _) => (state, SessionAction::Fail(SessionError::OutOfTurn)),
    }
}

/// Once a session is over, nothing brings it back.
pub proof fn lemma_closed_is_final(event: SessionEvent, next: SessionState, action: SessionAction)
    requires
        step_spec(SessionState::Closed, event, next, action),
    ensures
        next == SessionState::Closed,
        action == SessionAction::Fail(SessionError::OutOfTurn),
{
}

/// No step takes a session back to an earlier phase: it runs from
/// unconnected over connected and authenticated to a selected mailbox, and
/// from any of these to closed.
pub proof fn lemma_phase_never_falls(
    state: SessionState,
    event: SessionEvent,
    next: SessionState,
    action: SessionAction,
)
    requires
        step_spec(state, event, next, action),
    ensures
        state.phase().rank() <= next.phase().rank(),
{
}

/// The two steps that follow the listing of a mailbox give the page of
/// [`preview_page`]: where the page is empty it is handed out at once,
/// without a fetch; else all of it is fetched in one request, and the
/// answer gives the page.
pub proof fn lemma_steps_give_page(
    range: RangeRequest,
    ids: Vec<u32>,
    awaiting: SessionState,
    request: SessionAction,
    messages: Vec<FetchedMessage>,
    after: SessionState,
    outcome: SessionAction,
)
    requires
        step_spec(SessionState::Searching { range }, SessionEvent::Found(ids), awaiting, request),
        step_spec(awaiting, SessionEvent::Fetched(messages), after, outcome),
    ensures
        awaiting is Fetching ==> {
            &&& is_fetch_of(request, selected_range(ids@, range.start as int, range.stop as int))
            &&& after == SessionState::MailboxSelected
            &&& is_page(
                outcome,
                preview_page(ids@, views(messages@), range.start as int, range.stop as int),
            )
        },
        !(awaiting is Fetching) ==> {
            &&& awaiting == SessionState::MailboxSelected
            &&& is_page(
                request,
                preview_page(ids@, views(messages@), range.start as int, range.stop as int),
            )
        },
{
    let selection = selected_range(ids@, range.start as int, range.stop as int);
    if !(awaiting is Fetching) {
        assert(page_entries(selection, views(messages@)) =~= Seq::empty());
    }
}

} // verus!
