use mail_preview::providers::imap::{
    assemble_page, find_fetched, previews, FetchedMessage, HeaderParseError, PageEntry,
};
use mail_preview::range::select_range;

fn mail(id: u32, subject: &str) -> FetchedMessage {
    let text = format!(
        "Subject: {}\r\nDate: Mon, 05 Jan 2015 10:00:00 +0000\r\nFrom: Sender {} <s{}@example.org>\r\n\r\nbody of {}",
        subject, id, id, id
    );
    FetchedMessage { id, header: None, body: Some(text.into_bytes()) }
}

fn titles(page: &Vec<PageEntry>) -> Vec<(u32, String)> {
    page.iter().map(|e| (e.id, e.outcome.as_ref().unwrap().title.clone())).collect()
}

#[test]
fn page_follows_the_selection_not_the_answer() {
    let fetched = vec![mail(3, "three"), mail(4, "four")];
    let page = assemble_page(&vec![4, 3], &fetched);
    assert_eq!(titles(&page), vec![(4, String::from("four")), (3, String::from("three"))]);
    let preview = page[0].outcome.as_ref().unwrap();
    assert_eq!(preview.author, "Sender 4");
    assert_eq!(preview.time, "2015-01-05T10:00:00+00:00");
    assert_eq!(preview.text, "body of 4");
}

#[test]
fn page_of_nothing_is_empty() {
    assert!(assemble_page(&vec![], &vec![mail(1, "one")]).is_empty());
    assert!(assemble_page(&vec![], &vec![]).is_empty());
}

#[test]
fn page_has_one_place_for_each_selected_message() {
    let fetched = vec![mail(1, "one"), mail(2, "two"), mail(5, "five")];
    let page = assemble_page(&vec![5, 4, 2, 1], &fetched);
    assert_eq!(page.len(), 4);
    assert_eq!(page[0].id, 5);
    assert_eq!(page[1].id, 4);
    assert_eq!(page[2].id, 2);
    assert_eq!(page[3].id, 1);
}

#[test]
fn message_missing_from_the_answer_is_reported_in_its_place() {
    let fetched = vec![mail(1, "one"), mail(5, "five")];
    let page = assemble_page(&vec![5, 4, 1], &fetched);
    assert_eq!(page[0].outcome.as_ref().unwrap().title, "five");
    assert_eq!(*page[1].outcome.as_ref().unwrap_err(), HeaderParseError::NoHeader);
    assert_eq!(page[2].outcome.as_ref().unwrap().title, "one");
}

#[test]
fn one_bad_message_does_not_stop_the_others() {
    let without_subject = FetchedMessage {
        id: 2,
        header: None,
        body: Some(b"Date: Mon, 05 Jan 2015 10:00:00 +0000\r\nFrom: x@example.org\r\n\r\nbody".to_vec()),
    };
    let fetched = vec![mail(1, "one"), without_subject, mail(3, "three")];
    let page = assemble_page(&vec![3, 2, 1], &fetched);
    assert_eq!(page[0].outcome.as_ref().unwrap().title, "three");
    assert_eq!(
        *page[1].outcome.as_ref().unwrap_err(),
        HeaderParseError::NoHeaderField("Subject")
    );
    assert_eq!(page[2].outcome.as_ref().unwrap().title, "one");
    let shown = previews(&page);
    assert_eq!(shown.len(), 2);
    assert_eq!(shown[0].title, "three");
    assert_eq!(shown[1].title, "one");
}

#[test]
fn previews_of_a_page_keep_its_order() {
    let fetched = vec![mail(7, "seven"), mail(9, "nine"), mail(8, "eight")];
    let page = assemble_page(&vec![9, 8, 7], &fetched);
    let shown = previews(&page);
    assert_eq!(shown.len(), 3);
    assert_eq!(shown[0].title, "nine");
    assert_eq!(shown[1].title, "eight");
    assert_eq!(shown[2].title, "seven");
    assert_eq!(shown[2].text, "body of 7");
    assert!(previews(&vec![]).is_empty());
}

#[test]
fn lookup_finds_the_first_message_with_the_identifier() {
    let fetched = vec![mail(3, "three"), mail(4, "four"), mail(3, "three again")];
    assert_eq!(find_fetched(&fetched, 3), Some(0));
    assert_eq!(find_fetched(&fetched, 4), Some(1));
    assert_eq!(find_fetched(&fetched, 5), None);
    assert_eq!(find_fetched(&vec![], 5), None);
}

#[test]
fn same_mailbox_gives_the_same_page_twice() {
    let first_listing = vec![3, 1, 4, 2];
    let second_listing = vec![2, 4, 1, 3];
    let first_answer = vec![mail(3, "three"), mail(4, "four")];
    let second_answer = vec![mail(4, "four"), mail(3, "three")];
    let first = assemble_page(&select_range(first_listing, 0, 2), &first_answer);
    let second = assemble_page(&select_range(second_listing, 0, 2), &second_answer);
    assert_eq!(first.len(), second.len());
    for (a, b) in first.iter().zip(second.iter()) {
        assert_eq!(a.id, b.id);
        let (a, b) = (a.outcome.as_ref().unwrap(), b.outcome.as_ref().unwrap());
        assert_eq!(a.title, b.title);
        assert_eq!(a.author, b.author);
        assert_eq!(a.time, b.time);
        assert_eq!(a.text, b.text);
    }
    assert_eq!(titles(&first), vec![(4, String::from("four")), (3, String::from("three"))]);
}
