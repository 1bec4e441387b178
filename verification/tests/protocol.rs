use peer_library::catalog::{add_new_book, share_book, Book, Library};
use peer_library::commands::{handle_input, Command};
use peer_library::protocol::{
    accepts, answers, handle_message, respond_with_public_books, ListMode, ListRequest,
    ListResponse, MessageAction,
};

fn book(id: usize, title: &str, public: bool) -> Book {
    Book {
        id,
        title: title.to_string(),
        author: "X".to_string(),
        publisher: "Y".to_string(),
        public,
    }
}

fn all() -> ListRequest {
    ListRequest { mode: ListMode::ALL }
}

fn one(peer: &str) -> ListRequest {
    ListRequest { mode: ListMode::One(peer.to_string()) }
}

fn response_to(receiver: &str, data: Library) -> ListResponse {
    ListResponse { mode: ListMode::ALL, data, receiver: receiver.to_string() }
}

#[test]
fn every_peer_answers_a_request_for_all() {
    for local in ["P", "Q", "", "12D3KooW"] {
        assert!(answers(local, &all()));
    }
}

#[test]
fn only_the_named_peer_answers_a_targeted_request() {
    assert!(answers("P", &one("P")));
    assert!(!answers("Q", &one("P")));
    assert!(!answers("p", &one("P")));
    assert!(!answers("P ", &one("P")));
    assert!(!answers("", &one("P")));
}

#[test]
fn targeted_request_gets_exactly_one_answer_in_the_network() {
    let peers = ["A", "B", "P", "C", "D"];
    let mut answered = Vec::new();
    for local in peers {
        match handle_message(local, "A".to_string(), None, Some(one("P"))) {
            MessageAction::Respond { receiver } => {
                assert_eq!(receiver, "A");
                answered.push(local);
            }
            MessageAction::Ignore => {}
            other => panic!("{:?}", other),
        }
    }
    assert_eq!(answered, vec!["P"]);
}

#[test]
fn targeted_request_for_an_absent_peer_gets_no_answer() {
    for local in ["A", "B", "C"] {
        assert_eq!(
            handle_message(local, "A".to_string(), None, Some(one("P"))),
            MessageAction::Ignore
        );
    }
}

#[test]
fn request_for_all_is_answered_by_every_peer_and_the_requester() {
    for local in ["A", "B", "C"] {
        assert_eq!(
            handle_message(local, "A".to_string(), None, Some(all())),
            MessageAction::Respond { receiver: "A".to_string() }
        );
    }
}

#[test]
fn answer_for_this_peer_is_surfaced() {
    assert!(accepts("Q", &response_to("Q", vec![])));
    let response = response_to("Q", vec![book(0, "A", true)]);
    assert_eq!(
        handle_message("Q", "P".to_string(), Some(response), None),
        MessageAction::Surface { source: "P".to_string(), data: vec![book(0, "A", true)] }
    );
}

#[test]
fn answer_for_another_peer_is_never_surfaced() {
    assert!(!accepts("R", &response_to("Q", vec![])));
    let response = response_to("Q", vec![book(0, "A", true)]);
    assert_eq!(handle_message("R", "P".to_string(), Some(response), None), MessageAction::Ignore);
    assert_eq!(
        handle_message("", "P".to_string(), Some(response_to("Q", vec![])), Some(all())),
        MessageAction::Ignore
    );
}

#[test]
fn message_that_reads_as_answer_is_not_taken_as_request() {
    assert_eq!(
        handle_message("R", "P".to_string(), Some(response_to("Q", vec![])), Some(all())),
        MessageAction::Ignore
    );
    assert_eq!(
        handle_message("Q", "P".to_string(), Some(response_to("Q", vec![])), Some(one("Q"))),
        MessageAction::Surface { source: "P".to_string(), data: vec![] }
    );
}

#[test]
fn malformed_message_is_dropped() {
    for local in ["P", "Q", ""] {
        assert_eq!(handle_message(local, "S".to_string(), None, None), MessageAction::Ignore);
    }
}

#[test]
fn response_holds_public_books_only() {
    let books =
        vec![book(0, "A", false), book(1, "B", true), book(2, "C", false), book(3, "D", true)];
    let response = respond_with_public_books(books, "Q".to_string());
    assert_eq!(response, response_to("Q", vec![book(1, "B", true), book(3, "D", true)]));
    assert!(response.data.iter().all(|b| b.public));
}

#[test]
fn response_of_a_private_catalog_is_empty() {
    let books = vec![book(0, "A", false)];
    assert_eq!(respond_with_public_books(books, "Q".to_string()), response_to("Q", vec![]));
    assert_eq!(respond_with_public_books(vec![], "Q".to_string()), response_to("Q", vec![]));
}

#[test]
fn response_mode_is_all_also_for_the_targeted_peer() {
    let action = handle_message("P", "Q".to_string(), None, Some(one("P")));
    assert_eq!(action, MessageAction::Respond { receiver: "Q".to_string() });
    let response = respond_with_public_books(vec![book(0, "A", true)], "Q".to_string());
    assert_eq!(response.mode, ListMode::ALL);
    assert_eq!(response.receiver, "Q");
}

#[test]
fn shared_book_reaches_the_peer_that_asks_for_all() {
    let mut store = vec![Book {
        id: 0,
        title: "A".to_string(),
        author: "X".to_string(),
        publisher: "Y".to_string(),
        public: false,
    }];
    match handle_input("share book A") {
        Ok(Command::ShareBook { title }) => share_book(&mut store, &title),
        other => panic!("{:?}", other),
    }
    assert_eq!(store, vec![book(0, "A", true)]);

    let request = match handle_input("ls books all") {
        Ok(Command::Request(request)) => request,
        other => panic!("{:?}", other),
    };
    assert_eq!(request, all());
    let receiver = match handle_message("P", "Q".to_string(), None, Some(request)) {
        MessageAction::Respond { receiver } => receiver,
        other => panic!("{:?}", other),
    };
    let response = respond_with_public_books(store, receiver);
    assert_eq!(
        response,
        ListResponse {
            mode: ListMode::ALL,
            receiver: "Q".to_string(),
            data: vec![book(0, "A", true)]
        }
    );
    assert_eq!(
        handle_message("Q", "P".to_string(), Some(response), None),
        MessageAction::Surface { source: "P".to_string(), data: vec![book(0, "A", true)] }
    );
}

#[test]
fn added_book_stays_private_until_shared() {
    let mut store: Library = Vec::new();
    match handle_input("add book A|X|Y") {
        Ok(Command::AddBook { title, author, publisher }) => {
            assert_eq!(add_new_book(&mut store, &title, &author, &publisher), Some(0));
        }
        other => panic!("{:?}", other),
    }
    assert_eq!(
        respond_with_public_books(store.clone(), "Q".to_string()),
        response_to("Q", vec![])
    );
    share_book(&mut store, "A");
    assert_eq!(
        respond_with_public_books(store, "Q".to_string()),
        response_to("Q", vec![book(0, "A", true)])
    );
}
