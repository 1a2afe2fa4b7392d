use mail_preview::accounts::ImapAccountConfig;
use mail_preview::providers::imap::{FetchedMessage, HeaderParseError};
use mail_preview::range::RangeRequest;
use mail_preview::session::{
    step, SessionAction, SessionError, SessionEvent, SessionPhase, SessionState,
};

fn mail(id: u32, subject: &str) -> FetchedMessage {
    let text = format!(
        "Subject: {}\r\nDate: Mon, 05 Jan 2015 10:00:00 +0000\r\nFrom: s@example.org\r\n\r\nbody",
        subject
    );
    FetchedMessage { id, header: None, body: Some(text.into_bytes()) }
}

fn account() -> ImapAccountConfig {
    ImapAccountConfig {
        domain: String::from("imap.example.org"),
        port: 993,
        email: String::from("me@example.org"),
        password: String::from("hunter2"),
    }
}

fn listed(ids: Vec<u32>, start: usize, stop: usize) -> (SessionState, SessionAction) {
    let (state, action) =
        step(SessionState::Authenticated, SessionEvent::FetchPage(RangeRequest { start, stop }));
    assert!(matches!(action, SessionAction::Select { mailbox: "INBOX" }));
    let (state, action) = step(state, SessionEvent::Selected);
    assert!(matches!(action, SessionAction::Search { query: "ALL" }));
    step(state, SessionEvent::Found(ids))
}

#[test]
fn newest_two_of_four_come_as_four_then_three() {
    let (state, action) = listed(vec![3, 1, 4, 2], 0, 2);
    match action {
        SessionAction::Fetch(request) => {
            assert_eq!(request.sequence_set, "4,3");
            assert_eq!(request.query, "(BODY.PEEK[HEADER] BODY.PEEK[])");
        },
        other => panic!("no fetch: {:?}", other),
    }
    assert!(matches!(state, SessionState::Fetching { .. }));
    let (state, action) =
        step(state, SessionEvent::Fetched(vec![mail(3, "three"), mail(4, "four")]));
    assert!(matches!(state, SessionState::MailboxSelected));
    match action {
        SessionAction::Page(page) => {
            assert_eq!(page.len(), 2);
            assert_eq!(page[0].id, 4);
            assert_eq!(page[0].outcome.as_ref().unwrap().title, "four");
            assert_eq!(page[1].id, 3);
            assert_eq!(page[1].outcome.as_ref().unwrap().title, "three");
        },
        other => panic!("no page: {:?}", other),
    }
}

#[test]
fn empty_mailbox_gives_an_empty_page_without_a_fetch() {
    let (state, action) = listed(vec![], 0, 4);
    assert!(matches!(state, SessionState::MailboxSelected));
    match action {
        SessionAction::Page(page) => assert!(page.is_empty()),
        other => panic!("no page: {:?}", other),
    }
}

#[test]
fn page_without_width_is_empty_and_asks_the_server_nothing() {
    let (state, action) = step(
        SessionState::Authenticated,
        SessionEvent::FetchPage(RangeRequest { start: 2, stop: 2 }),
    );
    assert!(matches!(state, SessionState::Authenticated));
    match action {
        SessionAction::Page(page) => assert!(page.is_empty()),
        other => panic!("no page: {:?}", other),
    }
    let (state, action) = step(
        SessionState::MailboxSelected,
        SessionEvent::FetchPage(RangeRequest { start: 5, stop: 1 }),
    );
    assert!(matches!(state, SessionState::MailboxSelected));
    match action {
        SessionAction::Page(page) => assert!(page.is_empty()),
        other => panic!("no page: {:?}", other),
    }
}

#[test]
fn page_beyond_the_mailbox_is_empty() {
    let (state, action) = listed(vec![3, 1, 4, 2], 4, 8);
    assert!(matches!(state, SessionState::MailboxSelected));
    match action {
        SessionAction::Page(page) => assert!(page.is_empty()),
        other => panic!("no page: {:?}", other),
    }
}

#[test]
fn page_can_be_asked_for_again_on_the_same_session() {
    let (state, _) = listed(vec![1, 2], 0, 1);
    let (state, _) = step(state, SessionEvent::Fetched(vec![mail(2, "two")]));
    assert!(matches!(state, SessionState::MailboxSelected));
    let (state, action) =
        step(state, SessionEvent::FetchPage(RangeRequest { start: 0, stop: 1 }));
    assert!(matches!(action, SessionAction::Select { mailbox: "INBOX" }));
    assert!(matches!(state, SessionState::Selecting { reselect: true, .. }));
    let (state, _) = step(state, SessionEvent::Selected);
    let (state, action) = step(state, SessionEvent::Found(vec![2, 1]));
    match action {
        SessionAction::Fetch(request) => assert_eq!(request.sequence_set, "2"),
        other => panic!("no fetch: {:?}", other),
    }
    let (_, action) = step(state, SessionEvent::Fetched(vec![mail(2, "two")]));
    match action {
        SessionAction::Page(page) => {
            assert_eq!(page.len(), 1);
            assert_eq!(page[0].outcome.as_ref().unwrap().title, "two");
        },
        other => panic!("no page: {:?}", other),
    }
}

#[test]
fn bad_message_is_reported_in_its_place_of_the_page() {
    let (state, _) = listed(vec![1, 2], 0, 2);
    let broken = FetchedMessage { id: 2, header: None, body: Some(b"From: x@y.z\r\n\r\n".to_vec()) };
    let (_, action) = step(state, SessionEvent::Fetched(vec![mail(1, "one"), broken]));
    match action {
        SessionAction::Page(page) => {
            assert_eq!(page.len(), 2);
            assert_eq!(
                *page[0].outcome.as_ref().unwrap_err(),
                HeaderParseError::NoHeaderField("Subject")
            );
            assert_eq!(page[1].outcome.as_ref().unwrap().title, "one");
        },
        other => panic!("no page: {:?}", other),
    }
}

#[test]
fn login_connects_then_authenticates() {
    let (state, action) = step(SessionState::Unconnected, SessionEvent::Login(account()));
    match action {
        SessionAction::Connect { host, port } => {
            assert_eq!(host, "imap.example.org");
            assert_eq!(port, 993);
        },
        other => panic!("no connect: {:?}", other),
    }
    assert_eq!(state.current_phase(), SessionPhase::Unconnected);
    let (state, action) = step(state, SessionEvent::Connected);
    match action {
        SessionAction::Authenticate { identity, secret } => {
            assert_eq!(identity, "me@example.org");
            assert_eq!(secret, "hunter2");
        },
        other => panic!("no login: {:?}", other),
    }
    assert_eq!(state.current_phase(), SessionPhase::Connected);
    let (state, action) = step(state, SessionEvent::LoggedIn);
    assert!(matches!(action, SessionAction::Ready));
    assert!(matches!(state, SessionState::Authenticated));
    assert_eq!(state.current_phase(), SessionPhase::Authenticated);
}

#[test]
fn failed_connection_closes_the_session_without_retry() {
    let (state, _) = step(SessionState::Unconnected, SessionEvent::Login(account()));
    let (state, action) = step(state, SessionEvent::ConnectFailed(String::from("no route")));
    assert!(matches!(state, SessionState::Closed));
    match action {
        SessionAction::Fail(SessionError::Connect(reason)) => assert_eq!(reason, "no route"),
        other => panic!("no failure: {:?}", other),
    }
}

#[test]
fn rejected_login_closes_the_session_with_the_reason() {
    let (state, _) = step(SessionState::Unconnected, SessionEvent::Login(account()));
    let (state, _) = step(state, SessionEvent::Connected);
    let (state, action) =
        step(state, SessionEvent::LoginRejected(String::from("[AUTHENTICATIONFAILED]")));
    assert!(matches!(state, SessionState::Closed));
    match action {
        SessionAction::Fail(SessionError::Auth(reason)) => {
            assert_eq!(reason, "[AUTHENTICATIONFAILED]")
        },
        other => panic!("no failure: {:?}", other),
    }
}

#[test]
fn rejected_select_leaves_the_session_as_it_was() {
    let range = RangeRequest { start: 0, stop: 4 };
    let (state, _) = step(SessionState::Authenticated, SessionEvent::FetchPage(range));
    let (state, action) = step(state, SessionEvent::SelectRejected(String::from("no mailbox")));
    assert!(matches!(state, SessionState::Authenticated));
    match action {
        SessionAction::Fail(SessionError::Select(reason)) => assert_eq!(reason, "no mailbox"),
        other => panic!("no failure: {:?}", other),
    }
    let (state, _) = step(SessionState::MailboxSelected, SessionEvent::FetchPage(range));
    let (state, _) = step(state, SessionEvent::SelectRejected(String::from("no mailbox")));
    assert!(matches!(state, SessionState::MailboxSelected));
}

#[test]
fn rejected_search_fails_the_page() {
    let range = RangeRequest { start: 0, stop: 4 };
    let (state, _) = step(SessionState::Authenticated, SessionEvent::FetchPage(range));
    let (state, _) = step(state, SessionEvent::Selected);
    assert_eq!(state.current_phase(), SessionPhase::MailboxSelected);
    let (state, action) = step(state, SessionEvent::SearchRejected(String::from("BAD")));
    assert!(matches!(state, SessionState::MailboxSelected));
    match action {
        SessionAction::Fail(SessionError::Search(reason)) => assert_eq!(reason, "BAD"),
        other => panic!("no failure: {:?}", other),
    }
}

#[test]
fn failed_fetch_fails_the_page() {
    let (state, _) = listed(vec![1, 2, 3], 0, 2);
    let (state, action) = step(state, SessionEvent::FetchFailed(String::from("connection lost")));
    assert!(matches!(state, SessionState::MailboxSelected));
    match action {
        SessionAction::Fail(SessionError::Fetch(reason)) => assert_eq!(reason, "connection lost"),
        other => panic!("no failure: {:?}", other),
    }
}

#[test]
fn logout_closes_an_idle_session() {
    let (state, action) = step(SessionState::Authenticated, SessionEvent::Logout);
    assert!(matches!(state, SessionState::Closed));
    assert!(matches!(action, SessionAction::Logout));
    let (state, action) = step(SessionState::MailboxSelected, SessionEvent::Logout);
    assert!(matches!(action, SessionAction::Logout));
    assert_eq!(state.current_phase(), SessionPhase::Closed);
}

#[test]
fn closed_session_stays_closed() {
    let (state, action) = step(SessionState::Closed, SessionEvent::Login(account()));
    assert!(matches!(state, SessionState::Closed));
    assert!(matches!(action, SessionAction::Fail(SessionError::OutOfTurn)));
    let (state, action) =
        step(state, SessionEvent::FetchPage(RangeRequest { start: 0, stop: 4 }));
    assert!(matches!(state, SessionState::Closed));
    assert!(matches!(action, SessionAction::Fail(SessionError::OutOfTurn)));
    let (state, action) = step(state, SessionEvent::Logout);
    assert!(matches!(state, SessionState::Closed));
    assert!(matches!(action, SessionAction::Fail(SessionError::OutOfTurn)));
}

#[test]
fn event_out_of_turn_changes_nothing() {
    let (state, action) = step(
        SessionState::Unconnected,
        SessionEvent::FetchPage(RangeRequest { start: 0, stop: 4 }),
    );
    assert!(matches!(state, SessionState::Unconnected));
    assert!(matches!(action, SessionAction::Fail(SessionError::OutOfTurn)));
    let (state, _) = listed(vec![1, 2, 3], 0, 2);
    let (state, action) = step(state, SessionEvent::Found(vec![9]));
    assert!(matches!(action, SessionAction::Fail(SessionError::OutOfTurn)));
    match &state {
        SessionState::Fetching { selection } => assert_eq!(*selection, vec![3, 2]),
        other => panic!("not fetching: {:?}", other),
    }
    let (state, action) = step(state, SessionEvent::Logout);
    assert!(matches!(state, SessionState::Fetching { .. }));
    assert!(matches!(action, SessionAction::Fail(SessionError::OutOfTurn)));
}
